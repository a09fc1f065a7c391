use vstd::prelude::*;

verus! {

/// Handle of a callback of the host: the host knows which code it stands
/// for.
#[derive(Clone, Copy, Debug, PartialEq, Eq, Structural)]
pub struct NativeCallback(pub usize);

/// One registration: the class, the method's name and type descriptor, and
/// the callback that implements the method.
#[derive(Debug)]
pub struct NativeMethod {
    class_name: String,
    method_name: String,
    type_descriptor: String,
    callback: NativeCallback,
}

/// What a registration is, with its strings as sequences of chars.
pub struct NativeMethodView {
    pub class_name: Seq<char>,
    pub method_name: Seq<char>,
    pub type_descriptor: Seq<char>,
    pub callback: NativeCallback,
}

impl View for NativeMethod {
    type V = NativeMethodView;

    closed spec fn view(&self) -> NativeMethodView {
        NativeMethodView {
            class_name: self.class_name@,
            method_name: self.method_name@,
            type_descriptor: self.type_descriptor@,
            callback: self.callback,
        }
    }
}

/// The callback of the last of the registrations for the given class,
/// method and type descriptor, if there is one.
pub open spec fn registered_callback(
    methods: Seq<NativeMethodView>,
    class_name: Seq<char>,
    method_name: Seq<char>,
    type_descriptor: Seq<char>,
) -> Option<NativeCallback>
    decreases methods.len(),
{
    if methods.len() == 0 {
        None
    } else if methods.last().class_name == class_name && methods.last().method_name == method_name
        && methods.last().type_descriptor == type_descriptor {
        Some(methods.last().callback)
    } else {
        registered_callback(methods.drop_last(), class_name, method_name, type_descriptor)
    }
}

/// The native methods that the host implements. A later registration for
/// the same method replaces an earlier one.
#[derive(Debug)]
pub struct NativeMethodsRegistry {
    methods: Vec<NativeMethod>,
}

impl View for NativeMethodsRegistry {
    type V = Seq<NativeMethodView>;

    /// The registrations, in the order in which they were made.
    closed spec fn view(&self) -> Seq<NativeMethodView> {
        self.methods@.map_values(|method: NativeMethod| method@)
    }
}

impl NativeMethodsRegistry {
    pub fn new() -> (result: NativeMethodsRegistry)
        ensures
            result@ == Seq::<NativeMethodView>::empty(),
    {
        let result = NativeMethodsRegistry { methods: Vec::new() };
        assert(result@ =~= Seq::<NativeMethodView>::empty());
        result
    }

    /// Registers `callback` as the implementation of a method.
    pub fn register(
        &mut self,
        class_name: &str,
        method_name: &str,
        type_descriptor: &str,
        callback: NativeCallback,
    )
        ensures
            final(self)@ == old(self)@.push(
                NativeMethodView {
                    class_name: class_name@,
                    method_name: method_name@,
                    type_descriptor: type_descriptor@,
                    callback,
                },
            ),
    {
        self.methods.push(
            NativeMethod {
                class_name: class_name.to_owned(),
                method_name: method_name.to_owned(),
                type_descriptor: type_descriptor.to_owned(),
                callback,
            },
        );
        assert(self@ =~= old(self)@.push(
            NativeMethodView {
                class_name: class_name@,
                method_name: method_name@,
                type_descriptor: type_descriptor@,
                callback,
            },
        ));
    }

    /// The callback registered for a method, if the host implements it.
    pub fn get_method(&self, class_name: &String, method_name: &String, type_descriptor: &String) -> (result:
        Option<NativeCallback>)
        ensures
            result == registered_callback(self@, class_name@, method_name@, type_descriptor@),
    {
        let mut left: usize = self.methods.len();
        assert(self@.take(left as int) =~= self@);
        while left > 0
            invariant
                left <= self.methods.len(),
                registered_callback(self@, class_name@, method_name@, type_descriptor@)
                    == registered_callback(
                    self@.take(left as int),
                    class_name@,
                    method_name@,
                    type_descriptor@,
                ),
            decreases left,
        {
            left = left - 1;
            let method = &self.methods[left];
            assert(self@.take(left + 1).last() == method@);
            assert(self@.take(left + 1).drop_last() =~= self@.take(left as int));
            if method.class_name == *class_name && method.method_name == *method_name
                && method.type_descriptor == *type_descriptor {
                return Some(method.callback);
            }
        }
        None
    }
}

} // verus!
