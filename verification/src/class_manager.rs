use vstd::prelude::*;
use crate::class::{Class, ClassDefinition, ClassDefinitionView, ClassId, ClassView, FieldType, Method};
use crate::vm_error::{VmError, VmErrorView};

verus! {

/// The classes that a resolution made known, to be initialized in the order
/// given: superclasses come before the classes that extend them, and the
/// class that was asked for comes last.
#[derive(Debug)]
pub struct ClassesToInitialize {
    pub resolved_class: ClassId,
    pub to_initialize: Vec<ClassId>,
}

/// The outcome of resolving a class by name.
#[derive(Debug)]
pub enum ResolvedClass {
    /// The class was resolved before: nothing is left to initialize.
    AlreadyResolved(ClassId),
    /// The class was resolved by this request, together with those of its
    /// superclasses that were not resolved yet.
    NewClass(ClassesToInitialize),
}

impl ResolvedClass {
    /// The class that was asked for.
    pub open spec fn class(&self) -> ClassId {
        match self {
            ResolvedClass::AlreadyResolved(class) => *class,
            ResolvedClass::NewClass(classes) => classes.resolved_class,
        }
    }

    /// The classes left to initialize, in order.
    pub open spec fn pending(&self) -> Seq<ClassId> {
        match self {
            ResolvedClass::AlreadyResolved(_) => Seq::empty(),
            ResolvedClass::NewClass(classes) => classes.to_initialize@,
        }
    }

    pub fn get_class(&self) -> (result: ClassId)
        ensures
            result == self.class(),
    {
        match self {
            ResolvedClass::AlreadyResolved(class) => *class,
            ResolvedClass::NewClass(classes) => classes.resolved_class,
        }
    }
}

/// The definitions of a class path, each by its view.
pub open spec fn definitions_view(definitions: Seq<ClassDefinition>) -> Seq<ClassDefinitionView> {
    definitions.map_values(|definition: ClassDefinition| definition@)
}

/// The resolved classes, each by its view.
pub open spec fn classes_view(classes: Seq<Class>) -> Seq<ClassView> {
    classes.map_values(|class: Class| class@)
}

/// Position of the first definition with the given name at or after
/// `start`.
pub open spec fn definition_position(
    definitions: Seq<ClassDefinitionView>,
    name: Seq<char>,
    start: int,
) -> Option<int>
    decreases definitions.len() - start,
{
    if start < 0 || start >= definitions.len() {
        None
    } else if definitions[start].name == name {
        Some(start)
    } else {
        definition_position(definitions, name, start + 1)
    }
}

/// Position of the first resolved class with the given name at or after
/// `start`.
pub open spec fn class_position(classes: Seq<ClassView>, name: Seq<char>, start: int) -> Option<int>
    decreases classes.len() - start,
{
    if start < 0 || start >= classes.len() {
        None
    } else if classes[start].name == name {
        Some(start)
    } else {
        class_position(classes, name, start + 1)
    }
}

/// The definitions to resolve for the class `name`, which is not resolved:
/// the position of its own definition first, then that of its superclass if
/// that is not resolved either, and so on upwards. The search fails with a
/// class-not-found error that names the first class of this chain that has
/// no definition, and with a validation error when the chain is longer than
/// `fuel`.
pub open spec fn pending_chain(
    definitions: Seq<ClassDefinitionView>,
    classes: Seq<ClassView>,
    name: Seq<char>,
    fuel: nat,
) -> Result<Seq<int>, VmErrorView>
    decreases fuel,
{
    if fuel == 0 {
        Err(VmErrorView::ValidationException)
    } else {
        match definition_position(definitions, name, 0) {
            None => Err(VmErrorView::ClassNotFoundException(name)),
            Some(at) => match definitions[at].superclass {
                None => Ok(seq![at]),
                Some(parent) => if class_position(classes, parent, 0) is Some {
                    Ok(seq![at])
                } else {
                    match pending_chain(definitions, classes, parent, (fuel - 1) as nat) {
                        Ok(rest) => Ok(seq![at] + rest),
                        Err(error) => Err(error),
                    }
                },
            },
        }
    }
}

/// The resolved class that a definition gives when `classes` are the
/// classes resolved before it: it has the next free identity, knows its
/// superclass by identity, and its instances have the superclass's fields
/// followed by its own.
pub open spec fn linked(classes: Seq<ClassView>, definition: ClassDefinitionView) -> ClassView {
    let parent = match definition.superclass {
        Some(name) => class_position(classes, name, 0),
        None => None,
    };
    ClassView {
        id: ClassId(classes.len() as u32),
        name: definition.name,
        superclass: match parent {
            Some(at) => Some(ClassId(at as u32)),
            None => None,
        },
        fields: match parent {
            Some(at) => classes[at].fields + definition.fields,
            None => definition.fields,
        },
        methods: definition.methods,
    }
}

/// The resolved classes after the definitions of `chain` were resolved,
/// last position first.
pub open spec fn registered(
    classes: Seq<ClassView>,
    definitions: Seq<ClassDefinitionView>,
    chain: Seq<int>,
) -> Seq<ClassView>
    decreases chain.len(),
{
    if chain.len() == 0 {
        classes
    } else {
        let above = registered(classes, definitions, chain.drop_first());
        above.push(linked(above, definitions[chain[0]]))
    }
}

/// The identities `first`, `first + 1`, ... of `count` classes resolved one
/// after the other.
pub open spec fn consecutive(first: int, count: nat) -> Seq<ClassId> {
    Seq::new(count, |at: int| ClassId((first + at) as u32))
}

/// What resolving a class by name comes to.
pub enum Resolution {
    /// The class is resolved already, at this position.
    Known(int),
    /// The class is resolved by resolving the definitions at these
    /// positions of the class path, last first.
    Fresh(Seq<int>),
    /// The class cannot be resolved.
    Failed(VmErrorView),
}

/// What resolving the class `name` comes to, given the definitions of the
/// class path and the classes resolved so far. The search for definitions
/// goes one step further than there are definitions: a chain that does not
/// end by then goes in a circle, and is refused with a validation error.
/// Resolution also fails with a validation error when the identities would
/// run out.
pub open spec fn resolution(
    definitions: Seq<ClassDefinitionView>,
    classes: Seq<ClassView>,
    name: Seq<char>,
) -> Resolution {
    match class_position(classes, name, 0) {
        Some(at) => Resolution::Known(at),
        None => match pending_chain(definitions, classes, name, definitions.len() + 1) {
            Err(error) => Resolution::Failed(error),
            Ok(chain) => if classes.len() + chain.len() > u32::MAX {
                Resolution::Failed(VmErrorView::ValidationException)
            } else {
                Resolution::Fresh(chain)
            },
        },
    }
}

/// A class position that was found lies within the classes, at or after the
/// start of the search, and the class there has the name.
pub proof fn lemma_class_position_in_range(classes: Seq<ClassView>, name: Seq<char>, start: int)
    ensures
        class_position(classes, name, start) matches Some(at) ==> start <= at < classes.len()
            && classes[at].name == name,
    decreases classes.len() - start,
{
    if 0 <= start < classes.len() && classes[start].name != name {
        lemma_class_position_in_range(classes, name, start + 1);
    }
}

/// A definition position that was found lies within the definitions, at or
/// after the start of the search, and the definition there has the name.
pub proof fn lemma_definition_position_in_range(
    definitions: Seq<ClassDefinitionView>,
    name: Seq<char>,
    start: int,
)
    ensures
        definition_position(definitions, name, start) matches Some(at) ==> start <= at
            < definitions.len() && definitions[at].name == name,
    decreases definitions.len() - start,
{
    if 0 <= start < definitions.len() && definitions[start].name != name {
        lemma_definition_position_in_range(definitions, name, start + 1);
    }
}

/// A chain of definitions to resolve is not empty, is no longer than the
/// fuel, and holds positions of definitions only.
pub proof fn lemma_pending_chain_positions(
    definitions: Seq<ClassDefinitionView>,
    classes: Seq<ClassView>,
    name: Seq<char>,
    fuel: nat,
)
    ensures
        pending_chain(definitions, classes, name, fuel) matches Ok(chain) ==> 0 < chain.len() <= fuel
            && forall|at: int| 0 <= at < chain.len() ==> 0 <= #[trigger] chain[at] < definitions.len(),
    decreases fuel,
{
    if fuel > 0 {
        lemma_definition_position_in_range(definitions, name, 0);
        match definition_position(definitions, name, 0) {
            None => {},
            Some(at) => match definitions[at].superclass {
                None => {},
                Some(parent) => {
                    if class_position(classes, parent, 0) is None {
                        lemma_pending_chain_positions(definitions, classes, parent, (fuel - 1) as nat);
                    }
                },
            },
        }
    }
}

/// Resolving definitions adds one class for each, and leaves the classes
/// resolved before as they were.
pub proof fn lemma_registered_extends(
    classes: Seq<ClassView>,
    definitions: Seq<ClassDefinitionView>,
    chain: Seq<int>,
)
    ensures
        registered(classes, definitions, chain).len() == classes.len() + chain.len(),
        forall|at: int|
            0 <= at < classes.len() ==> #[trigger] registered(classes, definitions, chain)[at]
                == classes[at],
    decreases chain.len(),
{
    if chain.len() > 0 {
        lemma_registered_extends(classes, definitions, chain.drop_first());
    }
}

/// A search for a class that finds none has looked at no class of that
/// name.
pub proof fn lemma_class_position_none(classes: Seq<ClassView>, name: Seq<char>, start: int)
    requires
        0 <= start,
        class_position(classes, name, start) is None,
    ensures
        forall|at: int| start <= at < classes.len() ==> (#[trigger] classes[at]).name != name,
    decreases classes.len() - start,
{
    if start < classes.len() {
        lemma_class_position_none(classes, name, start + 1);
    }
}

/// A search for a class finds the first class of that name.
pub proof fn lemma_class_position_first(
    classes: Seq<ClassView>,
    name: Seq<char>,
    start: int,
    at: int,
)
    requires
        0 <= start <= at < classes.len(),
        classes[at].name == name,
        forall|before: int| start <= before < at ==> (#[trigger] classes[before]).name != name,
    ensures
        class_position(classes, name, start) == Some(at),
    decreases at - start,
{
    if start < at {
        lemma_class_position_first(classes, name, start + 1, at);
    }
}

/// More fuel does not change a chain that was found.
pub proof fn lemma_pending_chain_fuel(
    definitions: Seq<ClassDefinitionView>,
    classes: Seq<ClassView>,
    name: Seq<char>,
    fuel: nat,
    more: nat,
)
    requires
        fuel <= more,
        pending_chain(definitions, classes, name, fuel) is Ok,
    ensures
        pending_chain(definitions, classes, name, more) == pending_chain(
            definitions,
            classes,
            name,
            fuel,
        ),
    decreases fuel,
{
    if fuel > 0 {
        match definition_position(definitions, name, 0) {
            None => {},
            Some(at) => match definitions[at].superclass {
                None => {},
                Some(parent) => {
                    if class_position(classes, parent, 0) is None {
                        lemma_pending_chain_fuel(
                            definitions,
                            classes,
                            parent,
                            (fuel - 1) as nat,
                            (more - 1) as nat,
                        );
                    }
                },
            },
        }
    }
}

/// A chain starts at the definition of the class it was found for, and
/// what follows a position of the chain is the chain of the class defined
/// there.
pub proof fn lemma_pending_chain_suffix(
    definitions: Seq<ClassDefinitionView>,
    classes: Seq<ClassView>,
    name: Seq<char>,
    fuel: nat,
    at: int,
)
    requires
        pending_chain(definitions, classes, name, fuel) is Ok,
        0 <= at < pending_chain(definitions, classes, name, fuel)->Ok_0.len(),
    ensures
        definitions[pending_chain(definitions, classes, name, fuel)->Ok_0[0]].name == name,
        at < fuel,
        pending_chain(
            definitions,
            classes,
            definitions[pending_chain(definitions, classes, name, fuel)->Ok_0[at]].name,
            (fuel - at) as nat,
        ) == Ok::<Seq<int>, VmErrorView>(
            pending_chain(definitions, classes, name, fuel)->Ok_0.skip(at),
        ),
    decreases fuel,
{
    let chain = pending_chain(definitions, classes, name, fuel)->Ok_0;
    lemma_definition_position_in_range(definitions, name, 0);
    if at == 0 {
        assert(chain.skip(0) =~= chain);
    } else {
        let first = definition_position(definitions, name, 0)->0;
        let parent = definitions[first].superclass->0;
        let rest = pending_chain(definitions, classes, parent, (fuel - 1) as nat)->Ok_0;
        assert(chain == seq![first] + rest);
        lemma_pending_chain_suffix(definitions, classes, parent, (fuel - 1) as nat, at - 1);
        assert(chain[at] == rest[at - 1]);
        assert(chain.skip(at) =~= rest.skip(at - 1));
    }
}

/// No class appears twice in a chain: the class that the chain was found
/// for is defined at its first position and nowhere after it.
pub proof fn lemma_pending_chain_no_repeat(
    definitions: Seq<ClassDefinitionView>,
    classes: Seq<ClassView>,
    name: Seq<char>,
    fuel: nat,
    at: int,
)
    requires
        pending_chain(definitions, classes, name, fuel) is Ok,
        1 <= at < pending_chain(definitions, classes, name, fuel)->Ok_0.len(),
    ensures
        definitions[pending_chain(definitions, classes, name, fuel)->Ok_0[at]].name != name,
{
    let chain = pending_chain(definitions, classes, name, fuel)->Ok_0;
    lemma_pending_chain_suffix(definitions, classes, name, fuel, at);
    if definitions[chain[at]].name == name {
        lemma_pending_chain_fuel(definitions, classes, name, (fuel - at) as nat, fuel);
        assert(chain.skip(at).len() == chain.len() - at);
    }
}

/// The classes that a chain gives are named as the definitions of the
/// chain, in reverse order.
pub proof fn lemma_registered_names(
    classes: Seq<ClassView>,
    definitions: Seq<ClassDefinitionView>,
    chain: Seq<int>,
    at: int,
)
    requires
        0 <= at < chain.len(),
    ensures
        registered(classes, definitions, chain).len() == classes.len() + chain.len(),
        registered(classes, definitions, chain)[classes.len() + at].name
            == definitions[chain[chain.len() - 1 - at]].name,
    decreases chain.len(),
{
    lemma_registered_extends(classes, definitions, chain);
    lemma_registered_extends(classes, definitions, chain.drop_first());
    if at < chain.len() - 1 {
        lemma_registered_names(classes, definitions, chain.drop_first(), at);
    }
}

/// Resolution is idempotent: once a class was resolved by name, resolving
/// the same name again finds that very class, and resolves nothing, so that
/// nothing is initialized a second time.
pub proof fn lemma_resolution_is_idempotent(
    definitions: Seq<ClassDefinitionView>,
    classes: Seq<ClassView>,
    name: Seq<char>,
)
    ensures
        resolution(definitions, classes, name) matches Resolution::Fresh(chain) ==> resolution(
            definitions,
            registered(classes, definitions, chain),
            name,
        ) == Resolution::Known(classes.len() + chain.len() - 1),
        resolution(definitions, classes, name) matches Resolution::Known(at) ==> at
            < classes.len() && classes[at].name == name,
{
    lemma_class_position_in_range(classes, name, 0);
    if let Resolution::Fresh(chain) = resolution(definitions, classes, name) {
        let fuel = definitions.len() + 1;
        let after = registered(classes, definitions, chain);
        let last = classes.len() + chain.len() - 1;
        lemma_pending_chain_positions(definitions, classes, name, fuel);
        lemma_registered_extends(classes, definitions, chain);
        lemma_class_position_none(classes, name, 0);
        lemma_pending_chain_suffix(definitions, classes, name, fuel, 0);
        lemma_registered_names(classes, definitions, chain, chain.len() - 1);
        assert forall|before: int| 0 <= before < last implies (#[trigger] after[before]).name
            != name by {
            if before < classes.len() {
                assert(after[before] == classes[before]);
            } else {
                let at = before - classes.len();
                lemma_registered_names(classes, definitions, chain, at);
                lemma_pending_chain_no_repeat(
                    definitions,
                    classes,
                    name,
                    fuel,
                    chain.len() - 1 - at,
                );
            }
        }
        lemma_class_position_first(after, name, 0, last);
    }
}

/// Position of the first definition named `name`.
fn find_definition(definitions: &Vec<ClassDefinition>, name: &String) -> (result: Option<usize>)
    ensures
        match result {
            Some(at) => definition_position(definitions_view(definitions@), name@, 0) == Some(
                at as int,
            ),
            None => definition_position(definitions_view(definitions@), name@, 0) is None,
        },
{
    let mut at: usize = 0;
    while at < definitions.len()
        invariant
            at <= definitions.len(),
            definition_position(definitions_view(definitions@), name@, 0) == definition_position(
                definitions_view(definitions@),
                name@,
                at as int,
            ),
        decreases definitions.len() - at,
    {
        assert(definitions_view(definitions@)[at as int] == definitions@[at as int]@);
        if definitions[at].name == *name {
            return Some(at);
        }
        at = at + 1;
    }
    None
}

/// Position of the first resolved class named `name`.
fn find_class(classes: &Vec<Class>, name: &String) -> (result: Option<usize>)
    ensures
        match result {
            Some(at) => class_position(classes_view(classes@), name@, 0) == Some(at as int),
            None => class_position(classes_view(classes@), name@, 0) is None,
        },
{
    let mut at: usize = 0;
    while at < classes.len()
        invariant
            at <= classes.len(),
            class_position(classes_view(classes@), name@, 0) == class_position(
                classes_view(classes@),
                name@,
                at as int,
            ),
        decreases classes.len() - at,
    {
        assert(classes_view(classes@)[at as int] == classes@[at as int]@);
        if classes[at].name == *name {
            return Some(at);
        }
        at = at + 1;
    }
    None
}

/// The resolved class that `definition` gives after `classes`.
fn link(classes: &Vec<Class>, definition: &ClassDefinition) -> (result: Class)
    requires
        classes@.len() <= u32::MAX,
    ensures
        result@ == linked(classes_view(classes@), definition@),
{
    let parent = match &definition.superclass {
        Some(name) => find_class(classes, name),
        None => None,
    };
    proof {
        if definition@.superclass is Some {
            lemma_class_position_in_range(classes_view(classes@), definition@.superclass->0, 0);
        }
    }
    let mut fields: Vec<FieldType> = Vec::new();
    if let Some(at) = parent {
        let inherited = &classes[at].fields;
        let mut index: usize = 0;
        while index < inherited.len()
            invariant
                index <= inherited.len(),
                fields@ == inherited@.take(index as int),
            decreases inherited.len() - index,
        {
            fields.push(inherited[index]);
            assert(fields@ =~= inherited@.take(index + 1));
            index = index + 1;
        }
        assert(fields@ =~= classes_view(classes@)[at as int].fields);
    }
    let ghost before = fields@;
    let mut index: usize = 0;
    while index < definition.fields.len()
        invariant
            index <= definition.fields.len(),
            fields@ == before + definition.fields@.take(index as int),
        decreases definition.fields.len() - index,
    {
        fields.push(definition.fields[index]);
        assert(fields@ =~= before + definition.fields@.take(index + 1));
        index = index + 1;
    }
    assert(fields@ =~= before + definition.fields@);
    let mut methods: Vec<Method> = Vec::new();
    let mut index: usize = 0;
    while index < definition.methods.len()
        invariant
            index <= definition.methods.len(),
            methods@.len() == index,
            forall|at: int| 0 <= at < index ==> methods@[at]@ == definition.methods@[at]@,
        decreases definition.methods.len() - index,
    {
        methods.push(definition.methods[index].duplicate());
        index = index + 1;
    }
    assert(crate::class::methods_view(methods@) =~= crate::class::methods_view(definition.methods@));
    let result = Class {
        id: ClassId(classes.len() as u32),
        name: definition.name.clone(),
        superclass: match parent {
            Some(at) => Some(ClassId(at as u32)),
            None => None,
        },
        fields,
        methods,
    };
    assert(result@.fields =~= linked(classes_view(classes@), definition@).fields);
    result
}

/// The positions of a chain as integers.
pub open spec fn positions(chain: Seq<usize>) -> Seq<int> {
    chain.map_values(|at: usize| at as int)
}

/// Keeper of the class path and of the classes resolved from it. A class
/// is resolved at most once; its identity is its position among the
/// resolved classes.
#[derive(Debug)]
pub struct ClassManager {
    definitions: Vec<ClassDefinition>,
    classes: Vec<Class>,
}

impl ClassManager {
    /// The definitions of the class path, in search order.
    pub closed spec fn definitions(&self) -> Seq<ClassDefinitionView> {
        definitions_view(self.definitions@)
    }

    /// The resolved classes, in the order of their resolution.
    pub closed spec fn classes(&self) -> Seq<ClassView> {
        classes_view(self.classes@)
    }

    /// Identities are positions, and they fit 32 bits.
    pub open spec fn wf(&self) -> bool {
        &&& self.classes().len() <= u32::MAX
        &&& forall|at: int|
            0 <= at < self.classes().len() ==> (#[trigger] self.classes()[at]).id == ClassId(
                at as u32,
            )
    }

    /// The resolved class with the given identity, if there is one.
    pub open spec fn class_of(&self, class_id: ClassId) -> Option<ClassView> {
        if class_id.0 < self.classes().len() {
            Some(self.classes()[class_id.0 as int])
        } else {
            None
        }
    }

    pub fn new() -> (result: ClassManager)
        ensures
            result.wf(),
            result.definitions() == Seq::<ClassDefinitionView>::empty(),
            result.classes() == Seq::<ClassView>::empty(),
    {
        let result = ClassManager { definitions: Vec::new(), classes: Vec::new() };
        assert(result.definitions() =~= Seq::<ClassDefinitionView>::empty());
        assert(result.classes() =~= Seq::<ClassView>::empty());
        result
    }

    /// The number of classes resolved so far.
    pub fn count(&self) -> (result: usize)
        ensures
            result == self.classes().len(),
    {
        self.classes.len()
    }

    /// Puts the given definitions at the end of the class path.
    pub fn append_class_path(&mut self, classes: Vec<ClassDefinition>)
        ensures
            final(self).definitions() == old(self).definitions() + definitions_view(classes@),
            final(self).classes() == old(self).classes(),
    {
        let mut added = classes;
        self.definitions.append(&mut added);
        assert(self.definitions() =~= old(self).definitions() + definitions_view(classes@));
    }

    pub fn find_class_by_id(&self, class_id: ClassId) -> (result: Option<&Class>)
        ensures
            match result {
                Some(class) => self.class_of(class_id) == Some(class@),
                None => self.class_of(class_id) is None,
            },
    {
        if (class_id.0 as usize) < self.classes.len() {
            Some(&self.classes[class_id.0 as usize])
        } else {
            None
        }
    }

    /// The first resolved class with the given name. Nothing is resolved by
    /// this.
    pub fn find_class_by_name(&self, class_name: &str) -> (result: Option<&Class>)
        ensures
            match result {
                Some(class) => class_position(self.classes(), class_name@, 0) matches Some(at)
                    && self.classes()[at] == class@,
                None => class_position(self.classes(), class_name@, 0) is None,
            },
    {
        let name = class_name.to_owned();
        match find_class(&self.classes, &name) {
            Some(at) => {
                proof {
                    lemma_class_position_in_range(self.classes(), class_name@, 0);
                }
                Some(&self.classes[at])
            },
            None => None,
        }
    }

    /// The definitions to resolve for the class `class_name`.
    fn pending(&self, class_name: &String) -> (result: Result<Vec<usize>, VmError>)
        ensures
            match result {
                Ok(chain) => pending_chain(
                    self.definitions(),
                    self.classes(),
                    class_name@,
                    self.definitions().len() + 1,
                ) == Ok::<Seq<int>, VmErrorView>(positions(chain@)),
                Err(error) => pending_chain(
                    self.definitions(),
                    self.classes(),
                    class_name@,
                    self.definitions().len() + 1,
                ) == Err::<Seq<int>, VmErrorView>(error@),
            },
    {
        let mut chain: Vec<usize> = Vec::new();
        let mut current: String = class_name.clone();
        let mut steps_left: usize = self.definitions.len();
        assert(positions(chain@) + seq![] =~= seq![]);
        loop
            invariant
                steps_left <= self.definitions().len(),
                forall|tail: Seq<int>|
                    pending_chain(
                        self.definitions(),
                        self.classes(),
                        current@,
                        (steps_left + 1) as nat,
                    ) == Ok::<Seq<int>, VmErrorView>(tail) ==> pending_chain(
                        self.definitions(),
                        self.classes(),
                        class_name@,
                        self.definitions().len() + 1,
                    ) == Ok::<Seq<int>, VmErrorView>(positions(chain@) + tail),
                forall|error: VmErrorView|
                    pending_chain(
                        self.definitions(),
                        self.classes(),
                        current@,
                        (steps_left + 1) as nat,
                    ) == Err::<Seq<int>, VmErrorView>(error) ==> pending_chain(
                        self.definitions(),
                        self.classes(),
                        class_name@,
                        self.definitions().len() + 1,
                    ) == Err::<Seq<int>, VmErrorView>(error),
            decreases steps_left,
        {
            match find_definition(&self.definitions, &current) {
                None => {
                    return Err(VmError::ClassNotFoundException(current));
                },
                Some(at) => {
                    proof {
                        lemma_definition_position_in_range(self.definitions(), current@, 0);
                    }
                    let ghost before = positions(chain@);
                    chain.push(at);
                    assert(positions(chain@) =~= before + seq![at as int]);
                    assert(self.definitions()[at as int] == self.definitions@[at as int]@);
                    match &self.definitions[at].superclass {
                        None => {
                            return Ok(chain);
                        },
                        Some(parent) => {
                            if find_class(&self.classes, parent).is_some() {
                                return Ok(chain);
                            }
                            if steps_left == 0 {
                                return Err(VmError::ValidationException);
                            }
                            assert forall|tail: Seq<int>|
                                pending_chain(
                                    self.definitions(),
                                    self.classes(),
                                    parent@,
                                    steps_left as nat,
                                ) == Ok::<Seq<int>, VmErrorView>(tail) implies pending_chain(
                                self.definitions(),
                                self.classes(),
                                class_name@,
                                self.definitions().len() + 1,
                            ) == Ok::<Seq<int>, VmErrorView>(positions(chain@) + tail) by {
                                assert(before + (seq![at as int] + tail) =~= positions(chain@) + tail);
                            }
                            current = parent.clone();
                            steps_left = steps_left - 1;
                        },
                    }
                },
            }
        }
    }

    /// Resolves the class `class_name`: a class that is resolved already is
    /// found again; otherwise its definition is looked up on the class
    /// path and resolved, after those of its superclasses that are not
    /// resolved yet. A failed resolution resolves nothing.
    pub fn get_or_resolve_class(&mut self, class_name: &str) -> (result: Result<ResolvedClass, VmError>)
        requires
            old(self).wf(),
        ensures
            final(self).wf(),
            final(self).definitions() == old(self).definitions(),
            match resolution(old(self).definitions(), old(self).classes(), class_name@) {
                Resolution::Known(at) => result matches Ok(ResolvedClass::AlreadyResolved(class))
                    && class == ClassId(at as u32) && final(self).classes() == old(self).classes(),
                Resolution::Fresh(chain) => result matches Ok(ResolvedClass::NewClass(fresh))
                    && fresh.resolved_class == ClassId(
                    (old(self).classes().len() + chain.len() - 1) as u32,
                ) && fresh.to_initialize@ == consecutive(
                    old(self).classes().len() as int,
                    chain.len(),
                ) && final(self).classes() == registered(
                    old(self).classes(),
                    old(self).definitions(),
                    chain,
                ),
                Resolution::Failed(error) => result matches Err(failure) && failure@ == error
                    && final(self).classes() == old(self).classes(),
            },
    {
        let name = class_name.to_owned();
        if let Some(at) = find_class(&self.classes, &name) {
            proof {
                lemma_class_position_in_range(self.classes(), class_name@, 0);
            }
            return Ok(ResolvedClass::AlreadyResolved(ClassId(at as u32)));
        }
        let chain = match self.pending(&name) {
            Ok(chain) => chain,
            Err(error) => {
                return Err(error);
            },
        };
        proof {
            lemma_pending_chain_positions(
                self.definitions(),
                self.classes(),
                class_name@,
                self.definitions().len() + 1,
            );
        }
        let first = self.classes.len();
        if chain.len() > u32::MAX as usize - first {
            return Err(VmError::ValidationException);
        }
        let mut to_initialize: Vec<ClassId> = Vec::new();
        let mut left: usize = chain.len();
        assert(positions(chain@).subrange(left as int, chain@.len() as int) =~= Seq::<int>::empty());
        while left > 0
            invariant
                left <= chain@.len(),
                first + chain@.len() <= u32::MAX,
                first == old(self).classes().len(),
                self.definitions() == old(self).definitions(),
                forall|at: int|
                    0 <= at < chain@.len() ==> 0 <= #[trigger] positions(chain@)[at]
                        < self.definitions().len(),
                self.classes() == registered(
                    old(self).classes(),
                    old(self).definitions(),
                    positions(chain@).subrange(left as int, chain@.len() as int),
                ),
                self.classes().len() == first + (chain@.len() - left),
                self.wf(),
                to_initialize@ == consecutive(first as int, (chain@.len() - left) as nat),
            decreases left,
        {
            left = left - 1;
            let at = chain[left];
            assert(positions(chain@)[left as int] == at);
            assert(self.definitions()[at as int] == self.definitions@[at as int]@);
            let class = link(&self.classes, &self.definitions[at]);
            let id = class.id;
            let ghost before = self.classes();
            self.classes.push(class);
            to_initialize.push(id);
            proof {
                let done = positions(chain@).subrange(left as int, chain@.len() as int);
                assert(done.drop_first() =~= positions(chain@).subrange(
                    left + 1,
                    chain@.len() as int,
                ));
                assert(self.classes() =~= before.push(linked(before, self.definitions()[at as int])));
                assert(to_initialize@ =~= consecutive(first as int, (chain@.len() - left) as nat));
            }
        }
        assert(positions(chain@).subrange(0, chain@.len() as int) =~= positions(chain@));
        Ok(
            ResolvedClass::NewClass(
                ClassesToInitialize {
                    resolved_class: ClassId((first + chain.len() - 1) as u32),
                    to_initialize,
                },
            ),
        )
    }
}

} // verus!
