use vstd::prelude::*;

verus! {

/// The UTF-16 code units of one char: the char's number if it is below
/// 0x10000, else a high and a low surrogate that share its number less
/// 0x10000, ten bits each.
pub open spec fn utf16_units(c: char) -> Seq<u16> {
    let code = c as u32;
    if code < 0x10000 {
        seq![code as u16]
    } else {
        seq![
            (0xD800 + (code - 0x10000) / 0x400) as u16,
            (0xDC00 + (code - 0x10000) % 0x400) as u16,
        ]
    }
}

/// The UTF-16 code units of a text: those of its chars, one after the other.
pub open spec fn utf16_encoding(text: Seq<char>) -> Seq<u16>
    decreases text.len(),
{
    if text.len() == 0 {
        Seq::empty()
    } else {
        utf16_encoding(text.drop_last()) + utf16_units(text.last())
    }
}

/// The text that code units give when each stands for one char, the one
/// with the number of the unit's low byte. This reads back texts of chars
/// below 0x100, and no others.
pub open spec fn narrow_text(units: Seq<u16>) -> Seq<char> {
    units.map_values(|unit: u16| (unit as u8) as char)
}

/// Whether every char of a text has a number below 0x100.
pub open spec fn is_narrow(text: Seq<char>) -> bool {
    forall|at: int| 0 <= at < text.len() ==> (#[trigger] text[at]) as u32 <= 0xff
}

/// A text of chars below 0x100 takes one code unit for each char, and is
/// read back from the low bytes of its code units.
pub proof fn lemma_narrow_text_round_trip(text: Seq<char>)
    requires
        is_narrow(text),
    ensures
        utf16_encoding(text).len() == text.len(),
        narrow_text(utf16_encoding(text)) == text,
    decreases text.len(),
{
    if text.len() > 0 {
        let before = text.drop_last();
        let c = text.last();
        lemma_narrow_text_round_trip(before);
        let code = c as u32;
        assert(code <= 0xff);
        let unit = code as u16;
        let byte = unit as u8;
        assert(unit == code);
        assert(byte == code) by (bit_vector)
            requires
                unit == code,
                byte == unit as u8,
                code <= 0xff,
        ;
        vstd::utf8::char_u32_cast(c, code);
        assert(byte as char == c);
        assert(narrow_text(utf16_encoding(text)) =~= narrow_text(utf16_encoding(before)).push(c));
        assert(narrow_text(utf16_encoding(before)).push(c) =~= text);
    } else {
        assert(narrow_text(utf16_encoding(text)) =~= text);
    }
}

/// The UTF-16 code units of a text.
pub fn encode_utf16(text: &str) -> (result: Vec<u16>)
    ensures
        result@ == utf16_encoding(text@),
{
    let mut units: Vec<u16> = Vec::new();
    assert(text@.take(0) =~= Seq::<char>::empty());
    for c in it: text.chars()
        invariant
            it.seq() == text@,
            units@ == utf16_encoding(text@.take(it.index() as int)),
    {
        let ghost at = it.index() as int;
        assert(text@.take(at + 1).drop_last() =~= text@.take(at));
        assert(text@.take(at + 1).last() == c);
        let code: u32 = c as u32;
        if code < 0x10000 {
            units.push(code as u16);
        } else {
            units.push((0xD800 + (code - 0x10000) / 0x400) as u16);
            units.push((0xDC00 + (code - 0x10000) % 0x400) as u16);
        }
        assert(units@ =~= utf16_encoding(text@.take(at)) + utf16_units(c));
    }
    assert(text@.take(text@.len() as int) =~= text@);
    units
}

/// `String::push` of the standard library: the char is appended to the
/// end of the text, which is otherwise left as it was.
#[verifier::external_body]
fn push_char(text: &mut String, c: char)
    ensures
        final(text)@ == old(text)@.push(c),
{
    text.push(c)
}

/// The text that code units give when each stands for the char with the
/// number of its low byte.
pub fn decode_narrow(units: &Vec<u16>) -> (result: String)
    ensures
        result@ == narrow_text(units@),
{
    let mut text = String::new();
    let mut index: usize = 0;
    while index < units.len()
        invariant
            index <= units.len(),
            text@ == narrow_text(units@.take(index as int)),
        decreases units.len() - index,
    {
        let byte: u8 = #[verifier::truncate] (units[index] as u8);
        push_char(&mut text, byte as char);
        assert(text@ =~= narrow_text(units@.take(index + 1)));
        index = index + 1;
    }
    assert(units@.take(units@.len() as int) =~= units@);
    text
}

} // verus!
