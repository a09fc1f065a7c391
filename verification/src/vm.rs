use std::collections::HashMap;
use vstd::prelude::*;
use vstd::std_specs::hash::group_hash_axioms;
use crate::array::{code_units_of, holds_ints, length_of, tag_of, HEADER_LEN, SLOT_LEN};
use crate::array_entry_type::{ArrayEntryType, BaseType};
use crate::call_frame::{initial_frame, CallFrameView, MethodCallResult};
use crate::call_stack::CallStack;
use crate::class::{method_position, Class, ClassDefinition, ClassId, ClassView};
use crate::class_and_method::ClassAndMethod;
use crate::class_manager::{
    class_position, consecutive, definitions_view, registered, resolution, ClassManager, Resolution,
    ResolvedClass,
};
use crate::exceptions::{MethodCallFailed, MethodCallFailedView};
use crate::gc::{char_storage, ObjectAllocator};
use crate::native_methods_registry::{registered_callback, NativeCallback, NativeMethodsRegistry};
use crate::object::{zeroed_fields, ObjectView};
use crate::text::{
    decode_narrow, encode_utf16, is_narrow, lemma_narrow_text_round_trip, narrow_text, utf16_encoding,
};
use crate::value::{ArrayRef, ObjectRef, Value};
use crate::vm_error::{VmError, VmErrorView};

verus! {

broadcast use group_hash_axioms;

/// The orchestrator of the machine: it owns the classes, the objects and
/// arrays, the static instances and the registry of native methods.
#[derive(Debug)]
pub struct Vm {
    /// Responsible for resolving and storing classes
    class_manager: ClassManager,
    /// Responsible for allocating objects
    object_allocator: ObjectAllocator,
    /// The static fields of a class are the fields of one special instance
    /// of it, kept here under the class's identity
    statics: HashMap<u32, ObjectRef>,
    /// Stores native methods
    native_methods_registry: NativeMethodsRegistry,
    /// The values that the guest program printed
    printed: Vec<Value>,
}

/// What is to be done for an invocation.
#[derive(Debug)]
pub enum Invocation {
    /// The method is native: the host runs the callback with the machine,
    /// the call stack, the receiver and the arguments, and what the
    /// callback returns is the result of the invocation.
    Native { callback: NativeCallback, receiver: Option<ObjectRef>, args: Vec<Value> },
    /// The frame of the activation was pushed on the call stack: the
    /// caller executes it, and hands what the execution gave to
    /// `finish_invoke`.
    Frame,
}

/// What is to be done for an invocation, with the arguments as a sequence.
pub enum InvocationView {
    Native { callback: NativeCallback, receiver: Option<ObjectRef>, args: Seq<Value> },
    Frame,
}

impl View for Invocation {
    type V = InvocationView;

    open spec fn view(&self) -> InvocationView {
        match self {
            Invocation::Native { callback, receiver, args } => InvocationView::Native {
                callback: *callback,
                receiver: *receiver,
                args: args@,
            },
            Invocation::Frame => InvocationView::Frame,
        }
    }
}

/// The name of the initializer of a class.
pub const INITIALIZER_NAME: &'static str = "<clinit>";

/// The type descriptor of the initializer of a class.
pub const INITIALIZER_DESCRIPTOR: &'static str = "()V";

/// The name of the class of strings.
pub const STRING_CLASS_NAME: &'static str = "java/lang/String";

/// The name of the class of classes.
pub const CLASS_CLASS_NAME: &'static str = "java/lang/Class";

/// The fields of a new string whose chars are in `array`: the array in the
/// first field, and zero in the two fields that cache the string's hashes.
pub open spec fn string_fields(class: ClassView, array: ArrayRef) -> Seq<Value> {
    zeroed_fields(class.fields).update(0, Value::Array(array)).update(1, Value::Int(0)).update(
        6,
        Value::Int(0),
    )
}

/// The objects and arrays after a string with the given text was made, or
/// why none was made. The class of strings must be resolved, else it is
/// reported as not found, and its instances must have seven fields at
/// least; the text's code units must fit an array. The string is the last
/// of the objects, and its chars are the last of the arrays.
pub open spec fn with_string(
    classes: Seq<ClassView>,
    objects: Seq<ObjectView>,
    arrays: Seq<Seq<u8>>,
    text: Seq<char>,
) -> Result<(Seq<ObjectView>, Seq<Seq<u8>>), MethodCallFailedView> {
    let units = utf16_encoding(text);
    match class_position(classes, STRING_CLASS_NAME@, 0) {
        None => Err(
            MethodCallFailedView::InternalError(
                VmErrorView::ClassNotFoundException(STRING_CLASS_NAME@),
            ),
        ),
        Some(at) => if classes[at].fields.len() < 7 || units.len() > u32::MAX || HEADER_LEN
            + SLOT_LEN * units.len() > usize::MAX {
            Err(MethodCallFailedView::InternalError(VmErrorView::ValidationException))
        } else {
            Ok(
                (
                    objects.push(
                        ObjectView {
                            class_id: classes[at].id,
                            fields: string_fields(
                                classes[at],
                                ArrayRef { address: (arrays.len() + 1) as u64 },
                            ),
                        },
                    ),
                    arrays.push(char_storage(units, units.len())),
                ),
            )
        },
    }
}

/// The initialization that a resolution calls for: the class that was
/// asked for, and the classes that are still to be initialized, in order.
#[derive(Debug)]
pub struct Initialization {
    class: ClassId,
    to_initialize: Vec<ClassId>,
    next: usize,
}

impl Initialization {
    /// The class that was asked for.
    pub closed spec fn class(&self) -> ClassId {
        self.class
    }

    /// The classes that are still to be initialized, in order.
    pub closed spec fn left(&self) -> Seq<ClassId> {
        self.to_initialize@.skip(self.next as int)
    }

    /// The classes done are among the classes to initialize.
    pub closed spec fn wf(&self) -> bool {
        self.next <= self.to_initialize@.len()
    }

    /// The initialization that the given resolution calls for.
    pub fn new(resolved: ResolvedClass) -> (result: Initialization)
        ensures
            result.wf(),
            result.class() == resolved.class(),
            result.left() == resolved.pending(),
    {
        match resolved {
            ResolvedClass::AlreadyResolved(class) => {
                let result = Initialization { class, to_initialize: Vec::new(), next: 0 };
                assert(result.left() =~= Seq::<ClassId>::empty());
                result
            },
            ResolvedClass::NewClass(classes) => {
                let result = Initialization {
                    class: classes.resolved_class,
                    to_initialize: classes.to_initialize,
                    next: 0,
                };
                assert(result.left() =~= classes.to_initialize@);
                result
            },
        }
    }

    pub fn get_class(&self) -> (result: ClassId)
        ensures
            result == self.class(),
    {
        self.class
    }

    /// The number of classes that are still to be initialized.
    pub fn classes_left(&self) -> (result: usize)
        requires
            self.wf(),
        ensures
            result == self.left().len(),
    {
        self.to_initialize.len() - self.next
    }

    /// The classes that are still to be initialized, in order.
    pub fn classes_to_initialize(&self) -> (result: Vec<ClassId>)
        requires
            self.wf(),
        ensures
            result@ == self.left(),
    {
        let mut result: Vec<ClassId> = Vec::new();
        let mut at: usize = self.next;
        while at < self.to_initialize.len()
            invariant
                self.next <= at <= self.to_initialize.len(),
                result@ == self.to_initialize@.subrange(self.next as int, at as int),
            decreases self.to_initialize.len() - at,
        {
            result.push(self.to_initialize[at]);
            assert(result@ =~= self.to_initialize@.subrange(self.next as int, at + 1));
            at = at + 1;
        }
        assert(result@ =~= self.left());
        result
    }

    /// The class that is to be initialized next, if any is left.
    pub fn next_class(&self) -> (result: Option<ClassId>)
        requires
            self.wf(),
        ensures
            self.left().len() > 0 ==> result == Some(self.left()[0]),
            self.left().len() == 0 ==> result is None,
    {
        if self.next < self.to_initialize.len() {
            Some(self.to_initialize[self.next])
        } else {
            None
        }
    }
}

/// What a step of an initialization comes to: the objects and the static
/// instances afterwards, the classes that are then still to be
/// initialized, and the initializer to invoke, if the step ended at one.
pub struct InitializationStep {
    pub objects: Seq<ObjectView>,
    pub statics: Map<u32, ObjectRef>,
    pub left: Seq<ClassId>,
    pub outcome: Result<Option<ClassAndMethod>, VmErrorView>,
}

/// One step of an initialization: the classes of `left` are taken in
/// order. Each is given its static instance, a new instance of the class
/// that is recorded under the class's identity; and the step ends at the
/// first class that declares an initializer, with that initializer to
/// invoke. When no class is left the step ends with nothing to invoke. A
/// class that is not resolved ends the step with a validation error.
pub open spec fn initialization_step(
    classes: Seq<ClassView>,
    objects: Seq<ObjectView>,
    statics: Map<u32, ObjectRef>,
    left: Seq<ClassId>,
) -> InitializationStep
    decreases left.len(),
{
    if left.len() == 0 {
        InitializationStep { objects, statics, left, outcome: Ok(None) }
    } else if left[0].0 >= classes.len() {
        InitializationStep {
            objects,
            statics,
            left: left.drop_first(),
            outcome: Err(VmErrorView::ValidationException),
        }
    } else {
        let class = classes[left[0].0 as int];
        let with_instance = objects.push(
            ObjectView { class_id: class.id, fields: zeroed_fields(class.fields) },
        );
        let recorded = statics.insert(left[0].0, ObjectRef { address: (objects.len() + 1) as u64 });
        match Vm::initializer_of(class) {
            Some(initializer) => InitializationStep {
                objects: with_instance,
                statics: recorded,
                left: left.drop_first(),
                outcome: Ok(Some(initializer)),
            },
            None => initialization_step(classes, with_instance, recorded, left.drop_first()),
        }
    }
}

/// When a step of an initialization ends at an initializer, the static
/// instance of the initializer's class is in place: it is there before the
/// initializer runs.
pub proof fn lemma_static_instance_precedes_initializer(
    classes: Seq<ClassView>,
    objects: Seq<ObjectView>,
    statics: Map<u32, ObjectRef>,
    left: Seq<ClassId>,
)
    requires
        forall|at: int| 0 <= at < classes.len() ==> (#[trigger] classes[at]).id == ClassId(at as u32),
    ensures
        initialization_step(classes, objects, statics, left).outcome matches Ok(Some(initializer))
            ==> initialization_step(classes, objects, statics, left).statics.contains_key(
            initializer.class.0,
        ),
    decreases left.len(),
{
    if left.len() > 0 && left[0].0 < classes.len() {
        let class = classes[left[0].0 as int];
        if Vm::initializer_of(class) is None {
            lemma_static_instance_precedes_initializer(
                classes,
                objects.push(ObjectView { class_id: class.id, fields: zeroed_fields(class.fields) }),
                statics.insert(left[0].0, ObjectRef { address: (objects.len() + 1) as u64 }),
                left.drop_first(),
            );
        }
    }
}

/// An initialization with no class left ends at once, with nothing to
/// invoke and nothing changed: for a class that was resolved before, no
/// initializer runs a second time.
pub proof fn lemma_nothing_left_to_initialize(
    classes: Seq<ClassView>,
    objects: Seq<ObjectView>,
    statics: Map<u32, ObjectRef>,
)
    ensures
        initialization_step(classes, objects, statics, Seq::empty()) == (InitializationStep {
            objects,
            statics,
            left: Seq::empty(),
            outcome: Ok(None),
        }),
{
}

/// Counts of what a machine holds.
#[derive(Clone, Copy, Debug, PartialEq, Eq, Structural)]
pub struct VmStats {
    pub classes: usize,
    pub objects: usize,
    pub arrays: usize,
}

impl Vm {
    /// The class manager.
    pub closed spec fn class_manager(&self) -> ClassManager {
        self.class_manager
    }

    /// The allocator.
    pub closed spec fn allocator(&self) -> ObjectAllocator {
        self.object_allocator
    }

    /// The static instance of each class that has one, by the number of
    /// the class's identity.
    pub closed spec fn statics(&self) -> Map<u32, ObjectRef> {
        self.statics@
    }

    /// The registry of native methods.
    pub closed spec fn native_methods_registry(&self) -> NativeMethodsRegistry {
        self.native_methods_registry
    }

    /// The values that the guest program printed, oldest first.
    pub closed spec fn printed(&self) -> Seq<Value> {
        self.printed@
    }

    /// Whether `count` more objects and `count` more arrays can be given
    /// an address.
    pub open spec fn has_room_for(&self, count: nat) -> bool {
        &&& self.allocator().objects().len() + count <= usize::MAX
        &&& self.allocator().arrays().len() + count <= usize::MAX
    }

    /// The class manager and the allocator are well formed.
    pub open spec fn wf(&self) -> bool {
        &&& self.class_manager().wf()
        &&& self.allocator().wf()
    }

    /// The resolved classes, in the order of their resolution.
    pub open spec fn classes(&self) -> Seq<ClassView> {
        self.class_manager().classes()
    }

    /// A machine without classes, objects, static instances or native
    /// methods.
    pub fn new() -> (result: Vm)
        ensures
            result.wf(),
            result.class_manager().definitions().len() == 0,
            result.classes().len() == 0,
            result.allocator().objects().len() == 0,
            result.allocator().arrays().len() == 0,
            result.statics() == Map::<u32, ObjectRef>::empty(),
            result.native_methods_registry()@.len() == 0,
            result.printed().len() == 0,
    {
        Vm {
            class_manager: ClassManager::new(),
            object_allocator: ObjectAllocator::new(),
            statics: HashMap::new(),
            native_methods_registry: NativeMethodsRegistry::new(),
            printed: Vec::new(),
        }
    }

    /// The static instance of a class, once the class has one.
    pub fn get_static_instance(&self, class_id: ClassId) -> (result: Option<ObjectRef>)
        ensures
            result == if self.statics().contains_key(class_id.0) {
                Some(self.statics()[class_id.0])
            } else {
                None
            },
    {
        match self.statics.get(&class_id.0) {
            Some(instance) => Some(*instance),
            None => None,
        }
    }

    /// Puts the given definitions at the end of the class path.
    pub fn append_class_path(&mut self, classes: Vec<ClassDefinition>)
        requires
            old(self).wf(),
        ensures
            final(self).wf(),
            final(self).class_manager().definitions() == old(self).class_manager().definitions()
                + definitions_view(classes@),
            final(self).classes() == old(self).classes(),
            final(self).allocator() == old(self).allocator(),
            final(self).statics() == old(self).statics(),
            final(self).native_methods_registry() == old(self).native_methods_registry(),
            final(self).printed() == old(self).printed(),
    {
        self.class_manager.append_class_path(classes);
    }

    /// Resolves the class `class_name`, and says which classes are to be
    /// initialized on that account, in order: none if the class was
    /// resolved before, else the class after those of its superclasses that
    /// were not resolved before. The caller takes the initialization
    /// through its steps with `initialize`.
    pub fn get_or_resolve_class(&mut self, class_name: &str) -> (result: Result<
        Initialization,
        MethodCallFailed,
    >)
        requires
            old(self).wf(),
        ensures
            final(self).wf(),
            final(self).class_manager().definitions() == old(self).class_manager().definitions(),
            final(self).allocator() == old(self).allocator(),
            final(self).statics() == old(self).statics(),
            final(self).native_methods_registry() == old(self).native_methods_registry(),
            final(self).printed() == old(self).printed(),
            match resolution(
                old(self).class_manager().definitions(),
                old(self).classes(),
                class_name@,
            ) {
                Resolution::Known(at) => {
                    &&& result matches Ok(initialization)
                    &&& initialization.wf()
                    &&& initialization.class() == ClassId(at as u32)
                    &&& initialization.left() == Seq::<ClassId>::empty()
                    &&& final(self).classes() == old(self).classes()
                },
                Resolution::Fresh(chain) => {
                    &&& result matches Ok(initialization)
                    &&& initialization.wf()
                    &&& initialization.class() == ClassId(
                        (old(self).classes().len() + chain.len() - 1) as u32,
                    )
                    &&& initialization.left() == consecutive(
                        old(self).classes().len() as int,
                        chain.len(),
                    )
                    &&& final(self).classes() == registered(
                        old(self).classes(),
                        old(self).class_manager().definitions(),
                        chain,
                    )
                },
                Resolution::Failed(error) => {
                    &&& result matches Err(failure)
                    &&& failure@ == MethodCallFailedView::InternalError(error)
                    &&& final(self).classes() == old(self).classes()
                },
            },
    {
        match self.class_manager.get_or_resolve_class(class_name) {
            Ok(class) => Ok(Initialization::new(class)),
            Err(error) => Err(MethodCallFailed::InternalError(error)),
        }
    }

    /// The resolved class with the given identity.
    pub fn get_class_by_id(&self, class_id: ClassId) -> (result: Result<&Class, VmError>)
        ensures
            match result {
                Ok(class) => self.class_manager().class_of(class_id) == Some(class@),
                Err(error) => self.class_manager().class_of(class_id) is None && error
                    == VmError::ValidationException,
            },
    {
        match self.find_class_by_id(class_id) {
            Some(class) => Ok(class),
            None => Err(VmError::ValidationException),
        }
    }

    pub fn find_class_by_id(&self, class_id: ClassId) -> (result: Option<&Class>)
        ensures
            match result {
                Some(class) => self.class_manager().class_of(class_id) == Some(class@),
                None => self.class_manager().class_of(class_id) is None,
            },
    {
        self.class_manager.find_class_by_id(class_id)
    }

    /// The first resolved class with the given name. Nothing is resolved by
    /// this.
    pub fn find_class_by_name(&self, class_name: &str) -> (result: Option<&Class>)
        ensures
            match result {
                Some(class) => class_position(self.classes(), class_name@, 0) matches Some(at)
                    && self.classes()[at] == class@,
                None => class_position(self.classes(), class_name@, 0) is None,
            },
    {
        self.class_manager.find_class_by_name(class_name)
    }

    /// The allocator, to read objects and arrays.
    pub fn object_allocator(&self) -> (result: &ObjectAllocator)
        ensures
            *result == self.allocator(),
    {
        &self.object_allocator
    }

    /// The allocator, to work on: what is done to it is done to the
    /// machine's, and nothing else of the machine changes.
    pub fn object_allocator_mut(&mut self) -> (result: &mut ObjectAllocator)
        ensures
            *result == old(self).allocator(),
            final(self).allocator() == *final(result),
            final(self).class_manager() == old(self).class_manager(),
            final(self).statics() == old(self).statics(),
            final(self).native_methods_registry() == old(self).native_methods_registry(),
            final(self).printed() == old(self).printed(),
    {
        &mut self.object_allocator
    }

    /// A call stack for the activations of this machine.
    pub fn allocate_call_stack(&self) -> (result: CallStack)
        ensures
            result.wf(),
            result@ == Seq::<CallFrameView>::empty(),
            result.max_depth() == crate::call_stack::DEFAULT_MAX_DEPTH,
    {
        CallStack::new()
    }

    /// How many classes are resolved, and how many objects and arrays are
    /// allocated.
    pub fn debug_stats(&self) -> (result: VmStats)
        ensures
            result.classes == self.classes().len(),
            result.objects == self.allocator().objects().len(),
            result.arrays == self.allocator().arrays().len(),
    {
        let (objects, arrays) = self.object_allocator.counts();
        VmStats { classes: self.class_manager.count(), objects, arrays }
    }

    /// The initializer of a class, if the class declares one.
    pub open spec fn initializer_of(class: ClassView) -> Option<ClassAndMethod> {
        match method_position(class.methods, INITIALIZER_NAME@, INITIALIZER_DESCRIPTOR@, 0) {
            Some(at) => Some(ClassAndMethod { class: class.id, method: at as usize }),
            None => None,
        }
    }

    /// Gives a resolved class its static instance, and hands back the
    /// initializer of the class, if it declares one, for the caller to
    /// invoke without receiver or arguments. The static instance is in
    /// place when this returns, and so before the initializer runs. A class
    /// that is not resolved is refused with a validation error, and nothing
    /// changes.
    pub fn init_class(&mut self, class_to_init: ClassId) -> (result: Result<
        Option<ClassAndMethod>,
        MethodCallFailed,
    >)
        requires
            old(self).wf(),
            old(self).has_room_for(1),
        ensures
            final(self).wf(),
            final(self).class_manager() == old(self).class_manager(),
            final(self).native_methods_registry() == old(self).native_methods_registry(),
            final(self).printed() == old(self).printed(),
            final(self).allocator().arrays() == old(self).allocator().arrays(),
            match old(self).class_manager().class_of(class_to_init) {
                Some(class) => {
                    &&& result matches Ok(initializer)
                    &&& initializer == Self::initializer_of(class)
                    &&& final(self).allocator().objects() == old(self).allocator().objects().push(
                        ObjectView { class_id: class.id, fields: zeroed_fields(class.fields) },
                    )
                    &&& final(self).statics() == old(self).statics().insert(
                        class_to_init.0,
                        ObjectRef { address: (old(self).allocator().objects().len() + 1) as u64 },
                    )
                },
                None => {
                    &&& result matches Err(failure)
                    &&& failure@ == MethodCallFailedView::InternalError(
                        VmErrorView::ValidationException,
                    )
                    &&& final(self).allocator().objects() == old(self).allocator().objects()
                    &&& final(self).allocator().arrays() == old(self).allocator().arrays()
                    &&& final(self).statics() == old(self).statics()
                },
            },
    {
        let class = match self.class_manager.find_class_by_id(class_to_init) {
            Some(class) => class,
            None => {
                return Err(MethodCallFailed::InternalError(VmError::ValidationException));
            },
        };
        let static_instance = self.object_allocator.allocate(class);
        self.statics.insert(class_to_init.0, static_instance);
        proof {
            crate::class::lemma_method_position_in_range(
                class@.methods,
                INITIALIZER_NAME@,
                INITIALIZER_DESCRIPTOR@,
                0,
            );
        }
        match class.find_method(INITIALIZER_NAME, INITIALIZER_DESCRIPTOR) {
            Some(at) => Ok(Some(ClassAndMethod { class: class.id, method: at })),
            None => Ok(None),
        }
    }

    /// Takes an initialization one step further. `last` is what the
    /// invocation of the initializer gave that the step before handed out;
    /// the first step is given none. If that initializer failed, its
    /// failure is handed on and no further class is initialized. Else the
    /// classes left are given their static instances, in order, up to the
    /// first that declares an initializer: that initializer is handed out
    /// for the caller to invoke without receiver or arguments, and the
    /// class's static instance is in place before it runs. When nothing is
    /// handed out the initialization is complete.
    pub fn initialize(&mut self, progress: &mut Initialization, last: Option<MethodCallResult>) -> (result:
        Result<Option<ClassAndMethod>, MethodCallFailed>)
        requires
            old(self).wf(),
            old(progress).wf(),
            old(self).has_room_for(old(progress).left().len()),
        ensures
            final(self).wf(),
            final(progress).wf(),
            final(progress).class() == old(progress).class(),
            final(self).class_manager() == old(self).class_manager(),
            final(self).native_methods_registry() == old(self).native_methods_registry(),
            final(self).printed() == old(self).printed(),
            final(self).allocator().arrays() == old(self).allocator().arrays(),
            match last {
                Some(Err(failure)) => {
                    &&& result matches Err(given)
                    &&& given == failure
                    &&& final(self).allocator().objects() == old(self).allocator().objects()
                    &&& final(self).statics() == old(self).statics()
                    &&& final(progress).left() == old(progress).left()
                },
                _ => {
                    let step = initialization_step(
                        old(self).classes(),
                        old(self).allocator().objects(),
                        old(self).statics(),
                        old(progress).left(),
                    );
                    &&& final(self).allocator().objects() == step.objects
                    &&& final(self).statics() == step.statics
                    &&& final(progress).left() == step.left
                    &&& match step.outcome {
                        Ok(initializer) => result matches Ok(given) && given == initializer,
                        Err(error) => result matches Err(given) && given@
                            == MethodCallFailedView::InternalError(error),
                    }
                },
            },
            result matches Ok(Some(initializer)) ==> final(self).statics().contains_key(
                initializer.class.0,
            ),
    {
        if let Some(Err(failure)) = last {
            return Err(failure);
        }
        proof {
            lemma_static_instance_precedes_initializer(
                self.classes(),
                self.allocator().objects(),
                self.statics(),
                progress.left(),
            );
        }
        while progress.next < progress.to_initialize.len()
            invariant
                !(last matches Some(Err(_))),
                self.wf(),
                progress.wf(),
                progress.class() == old(progress).class(),
                progress.to_initialize == old(progress).to_initialize,
                self.has_room_for(progress.left().len()),
                self.class_manager() == old(self).class_manager(),
                self.native_methods_registry() == old(self).native_methods_registry(),
                self.printed() == old(self).printed(),
                self.allocator().arrays() == old(self).allocator().arrays(),
                initialization_step(
                    self.classes(),
                    self.allocator().objects(),
                    self.statics(),
                    progress.left(),
                ) == initialization_step(
                    old(self).classes(),
                    old(self).allocator().objects(),
                    old(self).statics(),
                    old(progress).left(),
                ),
            decreases progress.to_initialize.len() - progress.next,
        {
            let ghost before = progress.left();
            let class_to_init = progress.to_initialize[progress.next];
            progress.next = progress.next + 1;
            assert(before[0] == class_to_init);
            assert(progress.left() =~= before.drop_first());
            match self.init_class(class_to_init) {
                Ok(Some(initializer)) => {
                    return Ok(Some(initializer));
                },
                Ok(None) => {},
                Err(failure) => {
                    return Err(failure);
                },
            }
        }
        Ok(None)
    }

    /// The class and the method that a class-and-method pair denotes, if
    /// the class is resolved and has a method at that position.
    pub open spec fn method_of(&self, class_and_method: ClassAndMethod) -> Option<
        (ClassView, crate::class::MethodView),
    > {
        match self.class_manager().class_of(class_and_method.class) {
            Some(class) => if class_and_method.method < class.methods.len() {
                Some((class, class.methods[class_and_method.method as int]))
            } else {
                None
            },
            None => None,
        }
    }

    /// What an invocation comes to on a call stack with the given frames
    /// and greatest depth: what is to be done, or why the invocation is
    /// refused, and the frames afterwards. A native method is handed to the
    /// callback registered for it, and refused as not implemented if there
    /// is none; the call stack stays as it is. For any other method the
    /// frame of the activation is pushed, unless the stack is as deep as
    /// it may be. A pair that denotes no method is refused.
    pub open spec fn invocation(
        &self,
        frames: Seq<CallFrameView>,
        max_depth: nat,
        class_and_method: ClassAndMethod,
        object: Option<ObjectRef>,
        args: Seq<Value>,
    ) -> (Result<InvocationView, MethodCallFailedView>, Seq<CallFrameView>) {
        match self.method_of(class_and_method) {
            None => (
                Err(MethodCallFailedView::InternalError(VmErrorView::ValidationException)),
                frames,
            ),
            Some((class, method)) => if method.native {
                match registered_callback(
                    self.native_methods_registry()@,
                    class.name,
                    method.name,
                    method.type_descriptor,
                ) {
                    Some(callback) => (
                        Ok(InvocationView::Native { callback, receiver: object, args }),
                        frames,
                    ),
                    None => (
                        Err(MethodCallFailedView::InternalError(VmErrorView::NotImplemented)),
                        frames,
                    ),
                }
            } else if frames.len() >= max_depth {
                (Err(MethodCallFailedView::InternalError(VmErrorView::ValidationException)), frames)
            } else {
                (
                    Ok(InvocationView::Frame),
                    frames.push(initial_frame(class_and_method, object, args, method.max_stack)),
                )
            },
        }
    }

    /// The frames after the activation on top has ended.
    pub open spec fn finished(frames: Seq<CallFrameView>) -> Seq<CallFrameView> {
        frames.drop_last()
    }

    /// Whatever the execution of an activation gave, success or failure, the
    /// call stack is as deep after the invocation as it was before: an
    /// invocation that pushed no frame left the stack as it was, and the
    /// frame that an invocation pushed is the one that is popped when the
    /// activation has ended.
    pub proof fn lemma_frame_balance(
        &self,
        frames: Seq<CallFrameView>,
        max_depth: nat,
        class_and_method: ClassAndMethod,
        object: Option<ObjectRef>,
        args: Seq<Value>,
    )
        ensures
            self.invocation(frames, max_depth, class_and_method, object, args).0 matches Ok(
                InvocationView::Frame,
            ) ==> Self::finished(
                self.invocation(frames, max_depth, class_and_method, object, args).1,
            ) == frames,
            !(self.invocation(frames, max_depth, class_and_method, object, args).0 matches Ok(
                InvocationView::Frame,
            )) ==> self.invocation(frames, max_depth, class_and_method, object, args).1 == frames,
    {
        let after = self.invocation(frames, max_depth, class_and_method, object, args).1;
        if self.invocation(frames, max_depth, class_and_method, object, args).0 matches Ok(
            InvocationView::Frame,
        ) {
            assert(after.drop_last() =~= frames);
        }
    }

    /// Starts the invocation of a method on `object`, if it has a receiver,
    /// with the arguments `args`, and says what is to be done for it.
    pub fn invoke(
        &self,
        call_stack: &mut CallStack,
        class_and_method: ClassAndMethod,
        object: Option<ObjectRef>,
        args: Vec<Value>,
    ) -> (result: Result<Invocation, MethodCallFailed>)
        requires
            old(call_stack).wf(),
        ensures
            final(call_stack).wf(),
            final(call_stack).max_depth() == old(call_stack).max_depth(),
            final(call_stack)@ == self.invocation(
                old(call_stack)@,
                old(call_stack).max_depth(),
                class_and_method,
                object,
                args@,
            ).1,
            match self.invocation(
                old(call_stack)@,
                old(call_stack).max_depth(),
                class_and_method,
                object,
                args@,
            ).0 {
                Ok(invocation) => result matches Ok(given) && given@ == invocation,
                Err(failure) => result matches Err(given) && given@ == failure,
            },
    {
        let class = match self.class_manager.find_class_by_id(class_and_method.class) {
            Some(class) => class,
            None => {
                return Err(MethodCallFailed::InternalError(VmError::ValidationException));
            },
        };
        if class_and_method.method >= class.methods.len() {
            return Err(MethodCallFailed::InternalError(VmError::ValidationException));
        }
        let method = &class.methods[class_and_method.method];
        assert(class@.methods[class_and_method.method as int] == method@);
        if method.is_native() {
            return self.invoke_native(class_and_method, object, args);
        }
        match call_stack.add_frame(class_and_method, object, args, method.max_stack) {
            Ok(_) => Ok(Invocation::Frame),
            Err(error) => Err(MethodCallFailed::InternalError(error)),
        }
    }

    /// Ends an invocation whose frame `invoke` pushed: pops that frame, and
    /// hands on what the execution gave, success or failure alike.
    pub fn finish_invoke(call_stack: &mut CallStack, result: MethodCallResult) -> (returned:
        MethodCallResult)
        requires
            old(call_stack).wf(),
            old(call_stack)@.len() > 0,
        ensures
            final(call_stack).wf(),
            final(call_stack).max_depth() == old(call_stack).max_depth(),
            final(call_stack)@ == Self::finished(old(call_stack)@),
            returned == result,
    {
        let _ = call_stack.pop_frame();
        result
    }

    /// Finds the callback registered for a native method.
    pub fn invoke_native(
        &self,
        class_and_method: ClassAndMethod,
        object: Option<ObjectRef>,
        args: Vec<Value>,
    ) -> (result: Result<Invocation, MethodCallFailed>)
        ensures
            match self.method_of(class_and_method) {
                Some((class, method)) => match registered_callback(
                    self.native_methods_registry()@,
                    class.name,
                    method.name,
                    method.type_descriptor,
                ) {
                    Some(callback) => result matches Ok(given) && given@ == (InvocationView::Native {
                        callback,
                        receiver: object,
                        args: args@,
                    }),
                    None => result matches Err(given) && given@
                        == MethodCallFailedView::InternalError(VmErrorView::NotImplemented),
                },
                None => result matches Err(given) && given@ == MethodCallFailedView::InternalError(
                    VmErrorView::ValidationException,
                ),
            },
    {
        let class = match self.class_manager.find_class_by_id(class_and_method.class) {
            Some(class) => class,
            None => {
                return Err(MethodCallFailed::InternalError(VmError::ValidationException));
            },
        };
        if class_and_method.method >= class.methods.len() {
            return Err(MethodCallFailed::InternalError(VmError::ValidationException));
        }
        let method = &class.methods[class_and_method.method];
        assert(class@.methods[class_and_method.method as int] == method@);
        let native_callback = self.native_methods_registry.get_method(
            &class.name,
            &method.name,
            &method.type_descriptor,
        );
        if let Some(native_callback) = native_callback {
            Ok(Invocation::Native { callback: native_callback, receiver: object, args })
        } else {
            Err(MethodCallFailed::InternalError(VmError::NotImplemented))
        }
    }

    /// Registers `callback` as the implementation of a native method.
    pub fn register_native_method(
        &mut self,
        class_name: &str,
        method_name: &str,
        type_descriptor: &str,
        callback: NativeCallback,
    )
        requires
            old(self).wf(),
        ensures
            final(self).wf(),
            final(self).class_manager() == old(self).class_manager(),
            final(self).allocator() == old(self).allocator(),
            final(self).statics() == old(self).statics(),
            final(self).printed() == old(self).printed(),
            final(self).native_methods_registry()@ == old(self).native_methods_registry()@.push(
                crate::native_methods_registry::NativeMethodView {
                    class_name: class_name@,
                    method_name: method_name@,
                    type_descriptor: type_descriptor@,
                    callback,
                },
            ),
    {
        self.native_methods_registry.register(class_name, method_name, type_descriptor, callback);
    }

    /// Records a value that the guest program printed.
    pub fn record_printed(&mut self, value: Value)
        requires
            old(self).wf(),
        ensures
            final(self).wf(),
            final(self).class_manager() == old(self).class_manager(),
            final(self).allocator() == old(self).allocator(),
            final(self).statics() == old(self).statics(),
            final(self).native_methods_registry() == old(self).native_methods_registry(),
            final(self).printed() == old(self).printed().push(value),
    {
        self.printed.push(value);
    }

    /// The values that the guest program printed, oldest first.
    pub fn printed_values(&self) -> (result: &Vec<Value>)
        ensures
            result@ == self.printed(),
    {
        &self.printed
    }

    /// The given method of the resolved class `class_name`. A class that is
    /// not resolved, or has no such method of its own, is reported as not
    /// found under its name.
    pub fn resolve_class_method(
        &self,
        class_name: &str,
        method_name: &str,
        method_type_descriptor: &str,
    ) -> (result: Result<ClassAndMethod, MethodCallFailed>)
        ensures
            match self.class_method(class_name@, method_name@, method_type_descriptor@) {
                Some(class_and_method) => result matches Ok(given) && given == class_and_method,
                None => result matches Err(failure) && failure@
                    == MethodCallFailedView::InternalError(
                    VmErrorView::ClassNotFoundException(class_name@),
                ),
            },
    {
        match self.class_manager.find_class_by_name(class_name) {
            Some(class) => {
                proof {
                    crate::class::lemma_method_position_in_range(
                        class@.methods,
                        method_name@,
                        method_type_descriptor@,
                        0,
                    );
                }
                match class.find_method(method_name, method_type_descriptor) {
                    Some(method) => Ok(ClassAndMethod { class: class.id, method }),
                    None => Err(
                        MethodCallFailed::InternalError(
                            VmError::ClassNotFoundException(class_name.to_owned()),
                        ),
                    ),
                }
            },
            None => Err(
                MethodCallFailed::InternalError(VmError::ClassNotFoundException(class_name.to_owned())),
            ),
        }
    }

    /// The given method of the first resolved class of the given name, if
    /// there is such a class and it has such a method of its own.
    pub open spec fn class_method(
        &self,
        class_name: Seq<char>,
        method_name: Seq<char>,
        type_descriptor: Seq<char>,
    ) -> Option<ClassAndMethod> {
        match class_position(self.classes(), class_name, 0) {
            Some(at) => match method_position(
                self.classes()[at].methods,
                method_name,
                type_descriptor,
                0,
            ) {
                Some(method) => Some(
                    ClassAndMethod { class: self.classes()[at].id, method: method as usize },
                ),
                None => None,
            },
            None => None,
        }
    }

    /// Allocates an instance of the resolved class `class_name`, every
    /// field holding the zero of its type. A class that is not resolved is
    /// reported as not found, and nothing changes.
    pub fn new_object(&mut self, class_name: &str) -> (result: Result<ObjectRef, MethodCallFailed>)
        requires
            old(self).wf(),
            old(self).has_room_for(1),
        ensures
            final(self).wf(),
            final(self).class_manager() == old(self).class_manager(),
            final(self).statics() == old(self).statics(),
            final(self).native_methods_registry() == old(self).native_methods_registry(),
            final(self).printed() == old(self).printed(),
            final(self).allocator().arrays() == old(self).allocator().arrays(),
            match class_position(old(self).classes(), class_name@, 0) {
                Some(at) => {
                    &&& result matches Ok(object)
                    &&& object.address == old(self).allocator().objects().len() + 1
                    &&& final(self).allocator().objects() == old(self).allocator().objects().push(
                        ObjectView {
                            class_id: old(self).classes()[at].id,
                            fields: zeroed_fields(old(self).classes()[at].fields),
                        },
                    )
                },
                None => {
                    &&& result matches Err(failure)
                    &&& failure@ == MethodCallFailedView::InternalError(
                        VmErrorView::ClassNotFoundException(class_name@),
                    )
                    &&& final(self).allocator().objects() == old(self).allocator().objects()
                    &&& final(self).allocator().arrays() == old(self).allocator().arrays()
                },
            },
    {
        match self.class_manager.find_class_by_name(class_name) {
            Some(class) => Ok(self.object_allocator.allocate(class)),
            None => Err(
                MethodCallFailed::InternalError(VmError::ClassNotFoundException(class_name.to_owned())),
            ),
        }
    }

    /// Allocates an instance of a resolved class, every field holding the
    /// zero of its type. No constructor logic is run. A class that is not
    /// resolved is refused with a validation error, and nothing changes.
    pub fn new_object_of_class(&mut self, class: ClassId) -> (result: Result<ObjectRef, VmError>)
        requires
            old(self).wf(),
            old(self).has_room_for(1),
        ensures
            final(self).wf(),
            final(self).class_manager() == old(self).class_manager(),
            final(self).statics() == old(self).statics(),
            final(self).native_methods_registry() == old(self).native_methods_registry(),
            final(self).printed() == old(self).printed(),
            final(self).allocator().arrays() == old(self).allocator().arrays(),
            match old(self).class_manager().class_of(class) {
                Some(found) => {
                    &&& result matches Ok(object)
                    &&& object.address == old(self).allocator().objects().len() + 1
                    &&& final(self).allocator().objects() == old(self).allocator().objects().push(
                        ObjectView { class_id: found.id, fields: zeroed_fields(found.fields) },
                    )
                },
                None => {
                    &&& result == Err::<ObjectRef, VmError>(VmError::ValidationException)
                    &&& final(self).allocator().objects() == old(self).allocator().objects()
                    &&& final(self).allocator().arrays() == old(self).allocator().arrays()
                },
            },
    {
        match self.class_manager.find_class_by_id(class) {
            Some(found) => Ok(self.object_allocator.allocate(found)),
            None => Err(VmError::ValidationException),
        }
    }

    /// Makes a string with the given text: an array of chars that holds the
    /// text's UTF-16 code units, and an instance of the class of strings
    /// whose first field holds the array. The fields are set directly; no
    /// constructor logic is run. The class of strings must be resolved.
    /// When no string is made, nothing changes.
    pub fn create_java_lang_string_instance(&mut self, string: &str) -> (result: Result<
        ObjectRef,
        MethodCallFailed,
    >)
        requires
            old(self).wf(),
            old(self).has_room_for(1),
        ensures
            final(self).wf(),
            final(self).class_manager() == old(self).class_manager(),
            final(self).statics() == old(self).statics(),
            final(self).native_methods_registry() == old(self).native_methods_registry(),
            final(self).printed() == old(self).printed(),
            match with_string(
                old(self).classes(),
                old(self).allocator().objects(),
                old(self).allocator().arrays(),
                string@,
            ) {
                Ok((objects, arrays)) => {
                    &&& result matches Ok(object)
                    &&& object.address == objects.len()
                    &&& final(self).allocator().objects() == objects
                    &&& final(self).allocator().arrays() == arrays
                },
                Err(failure) => {
                    &&& result matches Err(given)
                    &&& given@ == failure
                    &&& final(self).allocator().objects() == old(self).allocator().objects()
                    &&& final(self).allocator().arrays() == old(self).allocator().arrays()
                },
            },
    {
        let class = match self.class_manager.find_class_by_name(STRING_CLASS_NAME) {
            Some(class) => class,
            None => {
                return Err(
                    MethodCallFailed::InternalError(
                        VmError::ClassNotFoundException(STRING_CLASS_NAME.to_owned()),
                    ),
                );
            },
        };
        if class.fields.len() < 7 {
            return Err(MethodCallFailed::InternalError(VmError::ValidationException));
        }
        let units = encode_utf16(string);
        let char_array = match self.object_allocator.allocate_char_array(&units) {
            Ok(array) => array,
            Err(error) => {
                return Err(MethodCallFailed::InternalError(error));
            },
        };
        // The fields of a string are, in this order:
        //    private final char[] value;
        //    private int hash;
        //    private static final long serialVersionUID;
        //    private static final ObjectStreamField[] serialPersistentFields;
        //    public static final Comparator<String> CASE_INSENSITIVE_ORDER;
        //    private static final int HASHING_SEED;
        //    private transient int hash32;
        let string_object = self.object_allocator.allocate(class);
        let _ = self.object_allocator.set_field(string_object, 0, Value::Array(char_array));
        let _ = self.object_allocator.set_field(string_object, 1, Value::Int(0));
        let _ = self.object_allocator.set_field(string_object, 6, Value::Int(0));
        Ok(string_object)
    }

    /// The storage of the array that holds the chars of a string: the
    /// handle denotes an object, the object's class is the class of
    /// strings, and the object's first field holds the handle of an array
    /// whose elements are all 32-bit integral values.
    pub open spec fn text_storage(&self, object: ObjectRef) -> Option<Seq<u8>> {
        match self.allocator().object_at(object) {
            None => None,
            Some(instance) => match self.class_manager().class_of(instance.class_id) {
                None => None,
                Some(class) => if class.name == STRING_CLASS_NAME@ && instance.fields.len() > 0 {
                    match instance.fields[0] {
                        Value::Array(array) => match self.allocator().array_at(array) {
                            Some(storage) => if length_of(storage) == 0 || holds_ints(
                                tag_of(storage)->0,
                            ) {
                                Some(storage)
                            } else {
                                None
                            },
                            None => None,
                        },
                        _ => None,
                    }
                } else {
                    None
                },
            },
        }
    }

    /// A string that was made from a text of chars below 0x100 gives that
    /// text back: in the machine `after`, which is `before` with the string
    /// made, the last object is a string whose chars, read by their low
    /// bytes, are the text.
    pub proof fn lemma_string_round_trip(before: Vm, after: Vm, text: Seq<char>)
        requires
            before.wf(),
            before.has_room_for(1),
            is_narrow(text),
            after.class_manager() == before.class_manager(),
            with_string(
                before.classes(),
                before.allocator().objects(),
                before.allocator().arrays(),
                text,
            ) == Ok::<(Seq<ObjectView>, Seq<Seq<u8>>), MethodCallFailedView>(
                (after.allocator().objects(), after.allocator().arrays()),
            ),
        ensures
            after.text_storage(
                ObjectRef { address: after.allocator().objects().len() as u64 },
            ) matches Some(storage) && narrow_text(code_units_of(storage)) == text,
    {
        let units = utf16_encoding(text);
        crate::class_manager::lemma_class_position_in_range(
            before.classes(),
            STRING_CLASS_NAME@,
            0,
        );
        crate::gc::lemma_char_storage(units, units.len());
        crate::gc::lemma_char_storage_units(units);
        lemma_narrow_text_round_trip(text);
    }

    /// The text of a string, read from the low byte of each of its chars:
    /// a text of chars below 0x100 is read back as it was written, any
    /// other is not. Fails with a validation error when the handle denotes
    /// no string whose chars are in an array of 32-bit integral values.
    pub fn extract_str_from_java_lang_string(&self, object: ObjectRef) -> (result: Result<
        String,
        VmError,
    >)
        requires
            self.wf(),
        ensures
            match result {
                Ok(text) => self.text_storage(object) matches Some(storage) && text@ == narrow_text(
                    code_units_of(storage),
                ),
                Err(error) => self.text_storage(object) is None && error
                    == VmError::ValidationException,
            },
    {
        let instance = match self.object_allocator.get_object(object) {
            Some(instance) => instance,
            None => {
                return Err(VmError::ValidationException);
            },
        };
        let class = self.get_class_by_id(instance.class_id())?;
        if class.name == STRING_CLASS_NAME.to_owned() {
            // The first field of a string is
            //    private final char[] value;
            if let Some(Value::Array(array_ref)) = instance.get_field(0) {
                if let Some(array) = self.object_allocator.get_array(array_ref) {
                    let len = array.len() as usize;
                    let mut units: Vec<u16> = Vec::new();
                    let mut index: usize = 0;
                    while index < len
                        invariant
                            array.wf(),
                            len == array.spec_len(),
                            index <= len,
                            self.text_storage(object) == if len == 0 || holds_ints(
                                array.elements_type(),
                            ) {
                                Some(array@)
                            } else {
                                None
                            },
                            index > 0 ==> holds_ints(array.elements_type()),
                            units@.len() == index,
                            forall|at: int|
                                0 <= at < index ==> units@[at] == crate::array::code_unit_of(
                                    array@,
                                    at,
                                ),
                        decreases len - index,
                    {
                        match array.get_item_at(index) {
                            Ok(Value::Int(c)) => {
                                units.push(#[verifier::truncate] (c as u16));
                            },
                            _ => {
                                return Err(VmError::ValidationException);
                            },
                        }
                        index = index + 1;
                    }
                    assert(units@ =~= code_units_of(array@));
                    return Ok(decode_narrow(&units));
                }
            }
        }
        Err(VmError::ValidationException)
    }

    /// Makes the object that stands for the class `class_name`: an
    /// instance of the class of classes, and a string with the name in the
    /// instance's sixth field. Both classes must be resolved. When the
    /// class of classes is not resolved, or its instances have fewer than
    /// six fields, nothing changes; when no string can be made, the
    /// instance was allocated already and stays.
    pub fn create_instance_of_java_lang_class(&mut self, class_name: &str) -> (result: Result<
        ObjectRef,
        MethodCallFailed,
    >)
        requires
            old(self).wf(),
            old(self).has_room_for(2),
        ensures
            final(self).wf(),
            final(self).class_manager() == old(self).class_manager(),
            final(self).statics() == old(self).statics(),
            final(self).native_methods_registry() == old(self).native_methods_registry(),
            final(self).printed() == old(self).printed(),
            match class_position(old(self).classes(), CLASS_CLASS_NAME@, 0) {
                None => {
                    &&& result matches Err(failure)
                    &&& failure@ == MethodCallFailedView::InternalError(
                        VmErrorView::ClassNotFoundException(CLASS_CLASS_NAME@),
                    )
                    &&& final(self).allocator().objects() == old(self).allocator().objects()
                    &&& final(self).allocator().arrays() == old(self).allocator().arrays()
                },
                Some(at) => if old(self).classes()[at].fields.len() < 6 {
                    &&& result matches Err(failure)
                    &&& failure@ == MethodCallFailedView::InternalError(
                        VmErrorView::ValidationException,
                    )
                    &&& final(self).allocator().objects() == old(self).allocator().objects()
                    &&& final(self).allocator().arrays() == old(self).allocator().arrays()
                } else {
                    let class = old(self).classes()[at];
                    let first = old(self).allocator().objects().len() as int;
                    let allocated = old(self).allocator().objects().push(
                        ObjectView { class_id: class.id, fields: zeroed_fields(class.fields) },
                    );
                    match with_string(
                        old(self).classes(),
                        allocated,
                        old(self).allocator().arrays(),
                        class_name@,
                    ) {
                        Err(failure) => {
                            &&& result matches Err(given)
                            &&& given@ == failure
                            &&& final(self).allocator().objects() == allocated
                            &&& final(self).allocator().arrays() == old(self).allocator().arrays()
                        },
                        Ok((objects, arrays)) => {
                            &&& result matches Ok(object)
                            &&& object.address == first + 1
                            &&& final(self).allocator().arrays() == arrays
                            &&& final(self).allocator().objects() == objects.update(
                                first,
                                ObjectView {
                                    class_id: class.id,
                                    fields: zeroed_fields(class.fields).update(
                                        5,
                                        Value::Object(ObjectRef { address: objects.len() as u64 }),
                                    ),
                                },
                            )
                        },
                    }
                },
            },
    {
        let class = match self.class_manager.find_class_by_name(CLASS_CLASS_NAME) {
            Some(class) => class,
            None => {
                return Err(
                    MethodCallFailed::InternalError(
                        VmError::ClassNotFoundException(CLASS_CLASS_NAME.to_owned()),
                    ),
                );
            },
        };
        if class.fields.len() < 6 {
            return Err(MethodCallFailed::InternalError(VmError::ValidationException));
        }
        let class_object = self.object_allocator.allocate(class);
        let string_object = self.create_java_lang_string_instance(class_name)?;
        let _ = self.object_allocator.set_field(class_object, 5, Value::Object(string_object));
        Ok(class_object)
    }
}

} // verus!
