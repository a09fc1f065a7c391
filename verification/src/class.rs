use vstd::prelude::*;
use crate::array_entry_type::BaseType;
use crate::value::Value;

verus! {

/// Identity of a resolved class: classes are numbered in the order in which
/// they are resolved.
#[derive(Clone, Copy, Debug, PartialEq, Eq, Structural, Hash)]
pub struct ClassId(pub u32);

impl ClassId {
    pub fn new(id: u32) -> (result: ClassId)
        ensures
            result == ClassId(id),
    {
        ClassId(id)
    }

    pub fn as_u32(&self) -> (result: u32)
        ensures
            result == self.0,
    {
        self.0
    }
}

/// The declared type of a field, as far as a new instance depends on it.
#[derive(Clone, Copy, Debug, PartialEq, Eq, Structural)]
pub enum FieldType {
    Base(BaseType),
    Object,
    Array,
}

impl FieldType {
    /// The value of a field of this type in a new instance: zero for the
    /// primitive kinds, null for references.
    pub open spec fn zero(self) -> Value {
        match self {
            FieldType::Base(base) => match base {
                BaseType::Long => Value::Long(0),
                BaseType::Float => Value::Float(0),
                BaseType::Double => Value::Double(0),
                _ => Value::Int(0),
            },
            _ => Value::Null,
        }
    }

    pub fn zero_value(&self) -> (result: Value)
        ensures
            result == self.zero(),
    {
        match self {
            FieldType::Base(BaseType::Long) => Value::Long(0),
            FieldType::Base(BaseType::Float) => Value::Float(0),
            FieldType::Base(BaseType::Double) => Value::Double(0),
            FieldType::Base(_) => Value::Int(0),
            _ => Value::Null,
        }
    }
}

/// A method of a class.
#[derive(Debug)]
pub struct Method {
    pub name: String,
    pub type_descriptor: String,
    /// Whether the host supplies the method's implementation.
    pub native: bool,
    /// The declared maximum depth of the method's operand stack.
    pub max_stack: usize,
}

/// What a method is, with its strings as sequences of chars.
pub struct MethodView {
    pub name: Seq<char>,
    pub type_descriptor: Seq<char>,
    pub native: bool,
    pub max_stack: usize,
}

impl View for Method {
    type V = MethodView;

    open spec fn view(&self) -> MethodView {
        MethodView {
            name: self.name@,
            type_descriptor: self.type_descriptor@,
            native: self.native,
            max_stack: self.max_stack,
        }
    }
}

impl Method {
    pub fn is_native(&self) -> (result: bool)
        ensures
            result == self@.native,
    {
        self.native
    }

    /// A method equal to this one.
    pub fn duplicate(&self) -> (result: Method)
        ensures
            result@ == self@,
    {
        Method {
            name: self.name.clone(),
            type_descriptor: self.type_descriptor.clone(),
            native: self.native,
            max_stack: self.max_stack,
        }
    }
}

/// The methods of a class, each by its view.
pub open spec fn methods_view(methods: Seq<Method>) -> Seq<MethodView> {
    methods.map_values(|method: Method| method@)
}

/// Position of the first method with the given name and type descriptor
/// at or after `start`.
pub open spec fn method_position(
    methods: Seq<MethodView>,
    name: Seq<char>,
    type_descriptor: Seq<char>,
    start: int,
) -> Option<int>
    decreases methods.len() - start,
{
    if start < 0 || start >= methods.len() {
        None
    } else if methods[start].name == name && methods[start].type_descriptor == type_descriptor {
        Some(start)
    } else {
        method_position(methods, name, type_descriptor, start + 1)
    }
}

/// A method position that was found lies within the methods, at or after
/// the start of the search.
pub proof fn lemma_method_position_in_range(
    methods: Seq<MethodView>,
    name: Seq<char>,
    type_descriptor: Seq<char>,
    start: int,
)
    ensures
        method_position(methods, name, type_descriptor, start) matches Some(at) ==> start <= at
            < methods.len() && methods[at].name == name && methods[at].type_descriptor
            == type_descriptor,
    decreases methods.len() - start,
{
    if 0 <= start < methods.len() && !(methods[start].name == name
        && methods[start].type_descriptor == type_descriptor) {
        lemma_method_position_in_range(methods, name, type_descriptor, start + 1);
    }
}

/// A class as it is found on the class path, before it is resolved: its
/// superclass is known by name only.
#[derive(Debug)]
pub struct ClassDefinition {
    pub name: String,
    pub superclass: Option<String>,
    /// The fields that the class itself declares.
    pub fields: Vec<FieldType>,
    pub methods: Vec<Method>,
}

/// What a class definition is, with its strings as sequences of chars.
pub struct ClassDefinitionView {
    pub name: Seq<char>,
    pub superclass: Option<Seq<char>>,
    pub fields: Seq<FieldType>,
    pub methods: Seq<MethodView>,
}

impl View for ClassDefinition {
    type V = ClassDefinitionView;

    open spec fn view(&self) -> ClassDefinitionView {
        ClassDefinitionView {
            name: self.name@,
            superclass: match self.superclass {
                Some(name) => Some(name@),
                None => None,
            },
            fields: self.fields@,
            methods: methods_view(self.methods@),
        }
    }
}

/// A resolved class.
#[derive(Debug)]
pub struct Class {
    pub id: ClassId,
    pub name: String,
    pub superclass: Option<ClassId>,
    /// The fields of an instance: those of the superclass first, then the
    /// class's own.
    pub fields: Vec<FieldType>,
    pub methods: Vec<Method>,
}

/// What a resolved class is, with its strings as sequences of chars.
pub struct ClassView {
    pub id: ClassId,
    pub name: Seq<char>,
    pub superclass: Option<ClassId>,
    pub fields: Seq<FieldType>,
    pub methods: Seq<MethodView>,
}

impl View for Class {
    type V = ClassView;

    open spec fn view(&self) -> ClassView {
        ClassView {
            id: self.id,
            name: self.name@,
            superclass: self.superclass,
            fields: self.fields@,
            methods: methods_view(self.methods@),
        }
    }
}

impl Class {
    /// Position of the first of the class's own methods with the given name
    /// and type descriptor.
    pub fn find_method(&self, method_name: &str, type_descriptor: &str) -> (result: Option<usize>)
        ensures
            match result {
                Some(at) => method_position(self@.methods, method_name@, type_descriptor@, 0)
                    == Some(at as int),
                None => method_position(self@.methods, method_name@, type_descriptor@, 0) is None,
            },
    {
        let name = method_name.to_owned();
        let descriptor = type_descriptor.to_owned();
        let mut at: usize = 0;
        while at < self.methods.len()
            invariant
                at <= self.methods.len(),
                name@ == method_name@,
                descriptor@ == type_descriptor@,
                method_position(self@.methods, method_name@, type_descriptor@, 0) == method_position(
                    self@.methods,
                    method_name@,
                    type_descriptor@,
                    at as int,
                ),
            decreases self.methods.len() - at,
        {
            let method = &self.methods[at];
            assert(self@.methods[at as int] == method@);
            if method.name == name && method.type_descriptor == descriptor {
                return Some(at);
            }
            at = at + 1;
        }
        None
    }
}

} // verus!
