//! The method area: every loaded class, each under a stable handle.
use vstd::prelude::*;
use crate::bootstrap_class_loader::{BootstrapClassLoader, LoadClassResult};
use crate::class_file::ClassFile;
use crate::class_finder::ClassPath;
use crate::jvm_error::{VmError, VmExecResult};
use crate::loaded_class::{
    field_position, instance_count, laid_out, method_position, Ancestry, Class, ClassRef,
    ClassStatus, FieldRef, MethodRef,
};
use crate::runtime_field_info::RuntimeFieldInfo;
use crate::runtime_method_info::RuntimeMethodInfo;
use crate::seq_view::views;
use crate::text::str_eq;

verus! {

/// How deep the chain of super classes and interfaces of a class may be.
/// A chain that is longer, or that leads back to the class itself, is
/// refused.
pub const MAX_LOADING_DEPTH: usize = 512;

/// The number of instance slots of the super class of `classes[index]`,
/// and 0 where it has none.
pub open spec fn super_slots(classes: Seq<Class>, index: int) -> int {
    match classes[index].super_class {
        Some(s) => classes[s as int].total_num_of_fields as int,
        None => 0,
    }
}

/// Whether `classes[index]` stands well among the classes: its super
/// class and its interfaces were loaded before it, and its layout follows
/// from that of its super class.
pub open spec fn well_placed(classes: Seq<Class>, index: int) -> bool {
    let class = classes[index];
    &&& class.super_class matches Some(s) ==> s < index
    &&& forall|k: int| 0 <= k < class.interfaces@.len() ==> (#[trigger] class.interfaces@[k]) < index
    &&& class.layout_holds(super_slots(classes, index))
}

/// Whether the classes form a well-founded table with one class per name.
pub open spec fn table_wf(classes: Seq<Class>) -> bool {
    &&& forall|i: int| 0 <= i < classes.len() ==> well_placed(classes, i)
    &&& forall|i: int, j: int|
        0 <= i < classes.len() && 0 <= j < classes.len() && i != j ==> (#[trigger] classes[i]).name@
            != (#[trigger] classes[j]).name@
}

/// Every class of a table has the slots of its super class and one more
/// for each instance field that it declares.
pub proof fn lemma_total_slots(classes: Seq<Class>, index: int)
    requires
        table_wf(classes),
        0 <= index < classes.len(),
    ensures
        classes[index].total_num_of_fields == super_slots(classes, index)
            + instance_count(
            views(classes[index].fields@),
            classes[index].fields@.len() as int,
        ),
{
    assert(well_placed(classes, index));
}

/// In every class of a table, a static field has the slot 0, and an
/// instance field the slot behind the slots of the super class and
/// those of the instance fields that are declared before it. Where all
/// fields before it are instance fields, that is the slot behind the
/// slots of the super class and as many slots as its position says.
pub proof fn lemma_field_slot(classes: Seq<Class>, index: int, position: int)
    requires
        table_wf(classes),
        0 <= index < classes.len(),
        0 <= position < classes[index].fields@.len(),
    ensures
        classes[index].fields@[position]@.is_static() ==> classes[index].fields@[position].offset
            == 0,
        !classes[index].fields@[position]@.is_static() ==> classes[index].fields@[position].offset
            == super_slots(classes, index) + instance_count(
            views(classes[index].fields@),
            position,
        ) + 1,
        !classes[index].fields@[position]@.is_static() && (forall|j: int|
            0 <= j < position ==> !(#[trigger] classes[index].fields@[j])@.is_static())
            ==> classes[index].fields@[position].offset == super_slots(classes, index) + position
            + 1,
{
    assert(well_placed(classes, index));
    let fields = views(classes[index].fields@);
    assert(fields[position] == classes[index].fields@[position]@);
    assert(fields[position].offset == crate::loaded_class::slot_of(
        fields,
        position,
        super_slots(classes, index),
    ));
    if forall|j: int| 0 <= j < position ==> !(#[trigger] classes[index].fields@[j])@.is_static() {
        lemma_instances_before(fields, position);
    }
}

proof fn lemma_instances_before(fields: Seq<crate::runtime_field_info::RuntimeFieldView>, upto: int)
    requires
        0 <= upto <= fields.len(),
        forall|j: int| 0 <= j < upto ==> !(#[trigger] fields[j]).is_static(),
    ensures
        instance_count(fields, upto) == upto,
    decreases upto,
{
    if upto > 0 {
        lemma_instances_before(fields, upto - 1);
    }
}

/// The position of the first class of `classes[from..]` called `name`.
pub open spec fn class_position(classes: Seq<Class>, name: Seq<char>, from: int) -> Option<int>
    decreases classes.len() - from,
{
    if from < 0 || from >= classes.len() {
        None
    } else if classes[from].name@ == name {
        Some(from)
    } else {
        class_position(classes, name, from + 1)
    }
}

pub proof fn lemma_class_position(classes: Seq<Class>, name: Seq<char>, from: int)
    requires
        0 <= from,
    ensures
        match class_position(classes, name, from) {
            Some(i) => from <= i < classes.len() && classes[i].name@ == name,
            None => forall|k: int| from <= k < classes.len() ==> classes[k].name@ != name,
        },
    decreases classes.len() - from,
{
    if from < classes.len() && classes[from].name@ != name {
        lemma_class_position(classes, name, from + 1);
    }
}

/// A class that was found keeps its position when classes are added
/// behind it.
pub proof fn lemma_class_position_stable(
    before: Seq<Class>,
    after: Seq<Class>,
    name: Seq<char>,
    from: int,
)
    requires
        0 <= from,
        before.len() <= after.len(),
        forall|i: int| 0 <= i < before.len() ==> before[i].name@ == after[i].name@,
        class_position(before, name, from) is Some,
    ensures
        class_position(after, name, from) == class_position(before, name, from),
    decreases before.len() - from,
{
    if from < before.len() && before[from].name@ != name {
        lemma_class_position_stable(before, after, name, from + 1);
    }
}

/// Whether `classes[index]`, one of its super classes or one of the
/// interfaces that these declare is called `name`.
pub open spec fn subclass_of(classes: Seq<Class>, index: int, name: Seq<char>) -> bool
    decreases index,
{
    if index < 0 || index >= classes.len() {
        false
    } else {
        let class = classes[index];
        ||| class.name@ == name
        ||| exists|k: int|
            0 <= k < class.interfaces@.len() && 0 <= #[trigger] class.interfaces@[k]
                < classes.len() && classes[class.interfaces@[k] as int].name@ == name
        ||| (class.super_class matches Some(s) && s < index && subclass_of(
            classes,
            s as int,
            name,
        ))
    }
}

/// Where a method is found: the class that declares it and its position
/// among the methods of that class.
pub struct MethodSite {
    pub class: ClassRef,
    pub method: MethodRef,
}

/// The method with this name and descriptor as seen from
/// `classes[index]`: its own, else that of its super classes, else that
/// of its interfaces in declaration order.
pub open spec fn method_site(
    classes: Seq<Class>,
    index: int,
    name: Seq<char>,
    descriptor: Seq<char>,
) -> Option<MethodSite>
    decreases index, 1int, 0int,
{
    if index < 0 || index >= classes.len() {
        None
    } else {
        let class = classes[index];
        match method_position(views(class.methods@), name, descriptor, 0) {
            Some(m) => Some(MethodSite { class: index as usize, method: m as usize }),
            None => {
                let inherited = match class.super_class {
                    Some(s) => if s < index {
                        method_site(classes, s as int, name, descriptor)
                    } else {
                        None
                    },
                    None => None,
                };
                match inherited {
                    Some(site) => Some(site),
                    None => interface_method_site(classes, index, 0, name, descriptor),
                }
            },
        }
    }
}

/// The method with this name and descriptor as seen from the interfaces
/// of `classes[index]`, from the one at position `from` on.
pub open spec fn interface_method_site(
    classes: Seq<Class>,
    index: int,
    from: int,
    name: Seq<char>,
    descriptor: Seq<char>,
) -> Option<MethodSite>
    decreases index, 0int, classes[index].interfaces@.len() - from,
{
    if index < 0 || index >= classes.len() || from < 0 || from
        >= classes[index].interfaces@.len() {
        None
    } else {
        let interface = classes[index].interfaces@[from];
        let found = if interface < index {
            method_site(classes, interface as int, name, descriptor)
        } else {
            None
        };
        match found {
            Some(site) => Some(site),
            None => interface_method_site(classes, index, from + 1, name, descriptor),
        }
    }
}

/// Where a field is found: the class that declares it and its position
/// among the fields of that class.
pub struct FieldSite {
    pub class: ClassRef,
    pub field: FieldRef,
}

/// The field called `name` as seen from `classes[index]`: its own, else
/// that of its super classes.
pub open spec fn field_site(classes: Seq<Class>, index: int, name: Seq<char>) -> Option<FieldSite>
    decreases index,
{
    if index < 0 || index >= classes.len() {
        None
    } else {
        match field_position(views(classes[index].fields@), name, 0) {
            Some(f) => Some(FieldSite { class: index as usize, field: f as usize }),
            None => match classes[index].super_class {
                Some(s) => if s < index {
                    field_site(classes, s as int, name)
                } else {
                    None
                },
                None => None,
            },
        }
    }
}

/// Whether the class under `handle` has one of the names `names`.
pub open spec fn named_among(classes: Seq<Class>, handle: ClassRef, names: Seq<Seq<char>>) -> bool {
    handle < classes.len() && exists|j: int|
        0 <= j < names.len() && classes[handle as int].name@ == #[trigger] names[j]
}

/// Whether `classes[c]` is the class that the class file `file`
/// declares: it is what the class file says, given the slots of its
/// super class; its super class is the class that the class file names
/// as such; and its interfaces are classes that the class file names as
/// interfaces.
pub open spec fn declared_by(classes: Seq<Class>, c: int, file: crate::class_file::ClassFileView) -> bool {
    let class = classes[c];
    &&& class.defined_from(file, super_slots(classes, c))
    &&& match file.super_class_name {
        Some(name) => class.super_class matches Some(s) && s < classes.len() && classes[s as int].name@
            == name,
        None => class.super_class is None,
    }
    &&& forall|k: int|
        0 <= k < class.interfaces@.len() ==> named_among(
            classes,
            #[trigger] class.interfaces@[k],
            file.interface_names,
        )
}

/// Whether the super class and the interfaces that a class file names
/// are among `classes`.
pub open spec fn ancestors_loaded(classes: Seq<Class>, file: crate::class_file::ClassFileView) -> bool {
    &&& file.super_class_name matches Some(name) ==> class_position(classes, name, 0) is Some
    &&& forall|j: int|
        0 <= j < file.interface_names.len() ==> class_position(
            classes,
            #[trigger] file.interface_names[j],
            0,
        ) is Some
}

/// The number of slots of the super class that a class file names, where
/// it is among `classes`, and 0 where the class file names none.
pub open spec fn super_total_of(classes: Seq<Class>, file: crate::class_file::ClassFileView) -> int {
    match file.super_class_name {
        Some(name) => classes[class_position(classes, name, 0)->0].total_num_of_fields as int,
        None => 0,
    }
}

/// What loading the class of a class file comes to where its super
/// class and its interfaces are loaded, so that no class path is asked.
/// A class file whose class is loaded is refused with
/// `ClassFormatError`. Else the class is defined, where it can be, as
/// `Class::definable` says, and comes last among the classes; where it
/// cannot, the result is an error. No other class is loaded.
pub open spec fn loaded_from(
    before: Seq<Class>,
    file: crate::class_file::ClassFileView,
    after: Seq<Class>,
    r: VmExecResult<ClassRef>,
) -> bool {
    if class_position(before, file.this_class_name, 0) is Some {
        (r matches Err(e) && e == VmError::ClassFormatError) && after == before
    } else if Class::definable(file, super_total_of(before, file)) {
        r == Ok::<_, VmError>(before.len() as usize) && after.len() == before.len() + 1
    } else {
        r is Err && after == before
    }
}

/// What holds of a request to load the class called `name`, whatever the
/// class paths answer. A class that is loaded is returned under the
/// handle it has, and nothing changes. A handle that is returned is that
/// of a class of this name, which comes out `Loaded` where it is new,
/// and is then the class that a class file of this name declares.
/// Without class paths a class that is not loaded is not found.
pub open spec fn load_outcome(
    before: &MethodArea,
    after: &MethodArea,
    name: Seq<char>,
    r: VmExecResult<ClassRef>,
) -> bool {
    &&& class_position(before@, name, 0) matches Some(c) ==> r == Ok::<_, VmError>(c as usize)
        && *after == *before
    &&& r matches Ok(c) ==> {
        &&& c < after@.len()
        &&& after@[c as int].name@ == name
        &&& class_position(after@, name, 0) == Some(c as int)
        &&& class_position(before@, name, 0) is None ==> after@[c as int].status
            == ClassStatus::Loaded
    }
    &&& class_position(before@, name, 0) is None && before.class_paths() == 0 ==> (r matches Err(
        VmError::ClassNotFoundException(n),
    ) && n@ == name)
    &&& class_position(before@, name, 0) is None ==> (r matches Ok(c) ==> exists|
        file: crate::class_file::ClassFileView,
    |
        file.this_class_name == name && #[trigger] declared_by(after@, c as int, file))
}

/// Whether the classes `after` have come from the classes `before` by
/// loading classes and by moving classes forward: every class keeps its
/// handle and everything but its status, and its status has not gone
/// back.
pub open spec fn evolved(before: Seq<Class>, after: Seq<Class>) -> bool {
    &&& before.len() <= after.len()
    &&& forall|i: int|
        0 <= i < before.len() ==> (#[trigger] after[i]) == (Class {
            status: after[i].status,
            ..before[i]
        }) && after[i].status.rank() >= before[i].status.rank()
}

/// Classes evolve step by step.
pub proof fn lemma_evolved_transitive(a: Seq<Class>, b: Seq<Class>, c: Seq<Class>)
    requires
        evolved(a, b),
        evolved(b, c),
    ensures
        evolved(a, c),
{
    assert forall|i: int| 0 <= i < a.len() implies (#[trigger] c[i]) == (Class {
        status: c[i].status,
        ..a[i]
    }) && c[i].status.rank() >= a[i].status.rank() by {
        assert(b[i] == (Class { status: b[i].status, ..a[i] }));
        assert(c[i] == (Class { status: c[i].status, ..b[i] }));
    }
}

pub struct MethodArea {
    bootstrap_class_loader: BootstrapClassLoader,
    classes: Vec<Class>,
}

impl View for MethodArea {
    type V = Seq<Class>;

    closed spec fn view(&self) -> Seq<Class> {
        self.classes@
    }
}

impl MethodArea {
    /// The invariant of the method area.
    pub open spec fn wf(&self) -> bool {
        table_wf(self@)
    }

    /// The class paths on which classes are looked for, in the order in
    /// which they are asked.
    pub closed spec fn paths(&self) -> Seq<crate::class_finder::ClassPathEntry> {
        self.bootstrap_class_loader.paths()
    }

    /// The number of class paths on which classes are looked for.
    pub closed spec fn class_paths(&self) -> nat {
        self.bootstrap_class_loader.class_paths()
    }

    /// What loading leaves as it was: every class that was loaded keeps
    /// its handle and is itself unchanged.
    pub open spec fn extended_by(&self, after: &MethodArea) -> bool {
        &&& self@.len() <= after@.len()
        &&& forall|i: int| 0 <= i < self@.len() ==> after@[i] == self@[i]
        &&& after.class_paths() == self.class_paths()
    }

    pub fn new() -> (r: MethodArea)
        ensures
            r.wf(),
            r@.len() == 0,
            r.class_paths() == 0,
    {
        MethodArea { bootstrap_class_loader: BootstrapClassLoader::new(), classes: Vec::new() }
    }

    pub fn num_of_classes(&self) -> (r: usize)
        ensures
            r == self@.len(),
    {
        self.classes.len()
    }

    /// The class under a handle.
    pub fn get(&self, class_ref: ClassRef) -> (r: Option<&Class>)
        ensures
            class_ref < self@.len() ==> r == Some(&self@[class_ref as int]),
            class_ref >= self@.len() ==> r is None,
    {
        if class_ref < self.classes.len() {
            Some(&self.classes[class_ref])
        } else {
            None
        }
    }

    /// The class under a handle that is known to be valid.
    pub fn class(&self, class_ref: ClassRef) -> (r: &Class)
        requires
            class_ref < self@.len(),
        ensures
            *r == self@[class_ref as int],
    {
        &self.classes[class_ref]
    }

    /// The handle of the loaded class called `class_name`.
    pub fn find_loaded(&self, class_name: &str) -> (r: Option<ClassRef>)
        ensures
            match r {
                Some(c) => class_position(self@, class_name@, 0) == Some(c as int) && c
                    < self@.len(),
                None => class_position(self@, class_name@, 0) is None,
            },
    {
        let mut i: usize = 0;
        while i < self.classes.len()
            invariant
                i <= self.classes.len(),
                class_position(self@, class_name@, 0) == class_position(
                    self@,
                    class_name@,
                    i as int,
                ),
            decreases self.classes.len() - i,
        {
            if str_eq(self.classes[i].name.as_str(), class_name) {
                return Some(i);
            }
            i += 1;
        }
        None
    }

    pub fn is_class_loaded(&self, class_name: &str) -> (r: bool)
        ensures
            r == class_position(self@, class_name@, 0) is Some,
    {
        self.find_loaded(class_name).is_some()
    }

    /// Moves a class forward to `status`. A class never goes back: where
    /// the class has reached `status` or a later stage, nothing changes.
    pub fn advance_status(&mut self, class_ref: ClassRef, status: ClassStatus)
        requires
            old(self).wf(),
            class_ref < old(self)@.len(),
        ensures
            final(self).wf(),
            final(self)@.len() == old(self)@.len(),
            final(self).class_paths() == old(self).class_paths(),
            forall|i: int|
                0 <= i < old(self)@.len() && i != class_ref ==> final(self)@[i] == old(self)@[i],
            final(self)@[class_ref as int] == (Class {
                status: if status.rank() > old(self)@[class_ref as int].status.rank() {
                    status
                } else {
                    old(self)@[class_ref as int].status
                },
                ..old(self)@[class_ref as int]
            }),
    {
        let ghost before = self@;
        if rank_of(status) > rank_of(self.classes[class_ref].status) {
            self.classes[class_ref].status = status;
        }
        proof {
            let after = self@;
            assert forall|i: int| 0 <= i < after.len() implies well_placed(after, i) by {
                assert(well_placed(before, i));
                assert(after[i].fields == before[i].fields);
                assert(super_slots(after, i) == super_slots(before, i));
            }
            assert forall|i: int, j: int|
                0 <= i < after.len() && 0 <= j < after.len() && i != j implies (
            #[trigger] after[i]).name@ != (#[trigger] after[j]).name@ by {
                assert(before[i].name@ != before[j].name@);
            }
        }
    }

    /// Loads the class called `class_name` with its super classes and
    /// interfaces, unless it is loaded, and returns its handle. The same
    /// name gives the same handle at every call.
    pub fn load_class(&mut self, class_name: &str) -> (r: VmExecResult<ClassRef>)
        requires
            old(self).wf(),
        ensures
            final(self).wf(),
            old(self).extended_by(final(self)),
            load_outcome(old(self), final(self), class_name@, r),
    {
        self.load_class_bounded(class_name, MAX_LOADING_DEPTH)
    }

    fn load_class_bounded(&mut self, class_name: &str, depth: usize) -> (r: VmExecResult<ClassRef>)
        requires
            old(self).wf(),
        ensures
            final(self).wf(),
            old(self).extended_by(final(self)),
            load_outcome(old(self), final(self), class_name@, r),
        decreases depth, 0int,
    {
        let known = self.find_loaded(class_name);
        proof {
            lemma_class_position(self@, class_name@, 0);
        }
        let class_file = match self.bootstrap_class_loader.load_class(class_name, known)? {
            LoadClassResult::AlreadyLoaded(class_ref) => {
                return Ok(class_ref);
            },
            LoadClassResult::NewLoaded(class_file) => class_file,
        };
        if depth == 0 {
            return Err(VmError::ClassFormatError);
        }
        if !str_eq(class_file.this_class_name.as_str(), class_name) {
            return Err(VmError::NoClassDefFoundError(class_name.to_owned()));
        }
        self.do_class_loading(class_file, depth - 1)
    }

    /// Loads what `class_file` needs, then defines and registers its
    /// class, which comes last among the classes. Where the super class
    /// and the interfaces are loaded, the outcome is what `loaded_from`
    /// says.
    fn do_class_loading(&mut self, class_file: ClassFile, depth: usize) -> (r: VmExecResult<
        ClassRef,
    >)
        requires
            old(self).wf(),
        ensures
            final(self).wf(),
            old(self).extended_by(final(self)),
            r matches Ok(c) ==> {
                &&& old(self)@.len() <= c < final(self)@.len()
                &&& final(self)@[c as int].name@ == class_file@.this_class_name
                &&& class_position(final(self)@, class_file@.this_class_name, 0) == Some(c as int)
                &&& final(self)@[c as int].status == ClassStatus::Loaded
                &&& declared_by(final(self)@, c as int, class_file@)
                &&& c + 1 == final(self)@.len()
            },
            ancestors_loaded(old(self)@, class_file@) ==> loaded_from(
                old(self)@,
                class_file@,
                final(self)@,
                r,
            ),
        decreases depth, 1int,
    {
        let ghost file = class_file@;
        let mut super_total: usize = 0;
        proof {
            if file.super_class_name is Some {
                lemma_class_position(self@, file.super_class_name->0, 0);
            }
        }
        let super_class = match &class_file.super_class_name {
            Some(super_class_name) => {
                let s = match self.load_class_bounded(super_class_name.as_str(), depth) {
                    Ok(s) => s,
                    Err(e) => {
                        return Err(e);
                    },
                };
                super_total = self.classes[s].total_num_of_fields;
                Some(s)
            },
            None => None,
        };
        assert(ancestors_loaded(old(self)@, file) ==> self@ == old(self)@ && super_total
            == super_total_of(old(self)@, file));
        let mut interfaces: Vec<ClassRef> = Vec::new();
        let ghost after_super = self@;
        let mut i: usize = 0;
        while i < class_file.interface_names.len()
            invariant
                i <= class_file.interface_names.len(),
                self.wf(),
                old(self).extended_by(self),
                file == class_file@,
                ancestors_loaded(old(self)@, file) ==> self@ == old(self)@ && super_total
                    == super_total_of(old(self)@, file),
                after_super.len() <= self@.len(),
                forall|k: int| 0 <= k < after_super.len() ==> self@[k] == after_super[k],
                super_class matches Some(s) ==> s < after_super.len() && super_total
                    == after_super[s as int].total_num_of_fields && file.super_class_name
                    == Some(after_super[s as int].name@),
                super_class is None ==> super_total == 0 && file.super_class_name is None,
                forall|k: int| 0 <= k < interfaces@.len() ==> (#[trigger] interfaces@[k])
                    < self@.len(),
                forall|k: int|
                    0 <= k < interfaces@.len() ==> named_among(
                        self@,
                        #[trigger] interfaces@[k],
                        file.interface_names,
                    ),
            decreases class_file.interface_names.len() - i,
        {
            let ghost table = self@;
            let ghost listed = interfaces@;
            assert(file.interface_names[i as int] == class_file.interface_names@[i as int]@);
            let interface = match self.load_class_bounded(
                class_file.interface_names[i].as_str(),
                depth,
            ) {
                Ok(interface) => interface,
                Err(e) => {
                    return Err(e);
                },
            };
            proof {
                assert(file.interface_names[i as int] == class_file.interface_names@[i as int]@);
                assert(named_among(self@, interface, file.interface_names));
                assert forall|k: int| 0 <= k < listed.len() implies named_among(
                    self@,
                    #[trigger] listed[k],
                    file.interface_names,
                ) by {
                    assert(named_among(table, listed[k], file.interface_names));
                    assert(self@[listed[k] as int] == table[listed[k] as int]);
                }
            }
            if !contains_class(&interfaces, interface) {
                interfaces.push(interface);
            }
            i += 1;
        }
        let this_name = class_file.this_class_name.clone();
        if self.find_loaded(this_name.as_str()).is_some() {
            return Err(VmError::ClassFormatError);
        }
        let class = match Class::define(
            class_file,
            Ancestry { super_class, super_total, interfaces },
        ) {
            Ok(class) => class,
            Err(e) => {
                return Err(e);
            },
        };
        let ghost before = self@;
        let class_ref = self.classes.len();
        self.classes.push(class);
        proof {
            let after = self@;
            lemma_class_position(before, this_name@, 0);
            assert forall|k: int| 0 <= k < after.len() implies well_placed(after, k) by {
                if k < before.len() {
                    assert(well_placed(before, k));
                    assert(after[k] == before[k]);
                    assert(super_slots(after, k) == super_slots(before, k));
                } else {
                    assert(after[k] == class);
                    assert(super_slots(after, k) == super_total);
                }
            }
            assert forall|a: int, b: int|
                0 <= a < after.len() && 0 <= b < after.len() && a != b implies (
            #[trigger] after[a]).name@ != (#[trigger] after[b]).name@ by {
                if a < before.len() && b < before.len() {
                    assert(before[a].name@ != before[b].name@);
                }
            }
            lemma_found_at(after, this_name@, class_ref as int);
            assert(super_slots(after, class_ref as int) == super_total);
            assert forall|k: int| 0 <= k < class.interfaces@.len() implies named_among(
                after,
                #[trigger] class.interfaces@[k],
                file.interface_names,
            ) by {
                assert(named_among(before, class.interfaces@[k], file.interface_names));
                assert(after[class.interfaces@[k] as int] == before[class.interfaces@[k] as int]);
            }
            assert(declared_by(after, class_ref as int, file));
        }
        Ok(class_ref)
    }

    /// Adds a class path behind those that are asked already.
    pub fn add_class_path(&mut self, class_path: Box<dyn ClassPath>)
        ensures
            final(self)@ == old(self)@,
            final(self).class_paths() == old(self).class_paths() + 1,
            final(self).paths().len() == old(self).paths().len() + 1,
            final(self).paths().drop_last() == old(self).paths(),
    {
        self.bootstrap_class_loader.add_class_path(class_path);
    }

    /// Whether the class under `class_ref` is called `class_name`, or has
    /// a super class or a declared interface of that name.
    pub fn is_subclass_of(&self, class_ref: ClassRef, class_name: &str) -> (r: bool)
        requires
            self.wf(),
        ensures
            r == subclass_of(self@, class_ref as int, class_name@),
        decreases class_ref,
    {
        if class_ref >= self.classes.len() {
            return false;
        }
        let class = &self.classes[class_ref];
        assert(well_placed(self@, class_ref as int));
        if str_eq(class.name.as_str(), class_name) {
            return true;
        }
        let mut k: usize = 0;
        while k < class.interfaces.len()
            invariant
                k <= class.interfaces.len(),
                self.wf(),
                class_ref < self@.len(),
                *class == self@[class_ref as int],
                forall|j: int|
                    0 <= j < k ==> self@[(#[trigger] class.interfaces@[j]) as int].name@
                        != class_name@,
            decreases class.interfaces.len() - k,
        {
            let interface = class.interfaces[k];
            assert(well_placed(self@, class_ref as int));
            if str_eq(self.classes[interface].name.as_str(), class_name) {
                return true;
            }
            k += 1;
        }
        match class.super_class {
            Some(super_class) => self.is_subclass_of(super_class, class_name),
            None => false,
        }
    }

    /// The method with this name and descriptor as seen from the class
    /// under `class_ref`: its own, else that of its super classes, else
    /// that of its interfaces in declaration order.
    pub fn get_method_by_checking_super(
        &self,
        class_ref: ClassRef,
        method_name: &str,
        descriptor: &str,
    ) -> (r: VmExecResult<(ClassRef, MethodRef)>)
        requires
            self.wf(),
        ensures
            match method_site(self@, class_ref as int, method_name@, descriptor@) {
                Some(site) => r == Ok::<_, VmError>((site.class, site.method)) && site.class
                    < self@.len() && site.method < self@[site.class as int].methods@.len(),
                None => (r matches Err(VmError::MethodNotFoundException(n, d)) && n@
                    == method_name@ && d@ == descriptor@),
            },
    {
        match self.find_method_site(class_ref, method_name, descriptor) {
            Some(site) => Ok((site.class, site.method)),
            None => Err(
                VmError::MethodNotFoundException(method_name.to_owned(), descriptor.to_owned()),
            ),
        }
    }

    fn find_method_site(&self, class_ref: ClassRef, method_name: &str, descriptor: &str) -> (r:
        Option<MethodSite>)
        requires
            self.wf(),
        ensures
            r == method_site(self@, class_ref as int, method_name@, descriptor@),
            r matches Some(site) ==> (site.class < self@.len() && site.method
                < self@[site.class as int].methods@.len()),
        decreases class_ref,
    {
        if class_ref >= self.classes.len() {
            return None;
        }
        let class = &self.classes[class_ref];
        assert(well_placed(self@, class_ref as int));
        if let Ok(method) = class.get_method(method_name, descriptor) {
            return Some(MethodSite { class: class_ref, method });
        }
        if let Some(super_class) = class.super_class {
            let inherited = self.find_method_site(super_class, method_name, descriptor);
            if inherited.is_some() {
                return inherited;
            }
        }
        let mut k: usize = 0;
        while k < class.interfaces.len()
            invariant
                k <= class.interfaces.len(),
                self.wf(),
                class_ref < self@.len(),
                *class == self@[class_ref as int],
                method_site(self@, class_ref as int, method_name@, descriptor@)
                    == interface_method_site(
                    self@,
                    class_ref as int,
                    k as int,
                    method_name@,
                    descriptor@,
                ),
            decreases class.interfaces.len() - k,
        {
            let interface = class.interfaces[k];
            assert(well_placed(self@, class_ref as int));
            let found = self.find_method_site(interface, method_name, descriptor);
            if found.is_some() {
                return found;
            }
            k += 1;
        }
        None
    }

    /// The field called `name` as seen from the class under `class_ref`:
    /// its own, else that of its super classes.
    pub fn get_field_by_name(&self, class_ref: ClassRef, name: &str) -> (r: VmExecResult<
        (ClassRef, FieldRef),
    >)
        requires
            self.wf(),
        ensures
            match field_site(self@, class_ref as int, name@) {
                Some(site) => r == Ok::<_, VmError>((site.class, site.field)) && site.class
                    < self@.len() && site.field < self@[site.class as int].fields@.len(),
                None => (r matches Err(VmError::FieldNotFoundException(n)) && n@ == name@),
            },
        decreases class_ref,
    {
        if class_ref >= self.classes.len() {
            return Err(VmError::FieldNotFoundException(name.to_owned()));
        }
        let class = &self.classes[class_ref];
        assert(well_placed(self@, class_ref as int));
        if let Some(field) = class.get_own_field(name) {
            return Ok((class_ref, field));
        }
        match class.super_class {
            Some(super_class) => self.get_field_by_name(super_class, name),
            None => Err(VmError::FieldNotFoundException(name.to_owned())),
        }
    }
}

impl Default for MethodArea {
    fn default() -> (r: MethodArea)
        ensures
            r.wf(),
            r@.len() == 0,
    {
        MethodArea::new()
    }
}

fn rank_of(status: ClassStatus) -> (r: u8)
    ensures
        r == status.rank(),
{
    match status {
        ClassStatus::Loading => 0,
        ClassStatus::Loaded => 1,
        ClassStatus::Linking => 2,
        ClassStatus::Linked => 3,
        ClassStatus::Initializing => 4,
        ClassStatus::Initialized => 5,
    }
}

fn contains_class(list: &Vec<ClassRef>, class: ClassRef) -> (r: bool)
    ensures
        r == list@.contains(class),
{
    let mut i: usize = 0;
    while i < list.len()
        invariant
            i <= list.len(),
            forall|k: int| 0 <= k < i ==> list@[k] != class,
        decreases list.len() - i,
    {
        if list[i] == class {
            return true;
        }
        i += 1;
    }
    false
}

/// In a table of classes every class is found under its name.
pub proof fn lemma_class_found(classes: Seq<Class>, at: int)
    requires
        table_wf(classes),
        0 <= at < classes.len(),
    ensures
        class_position(classes, classes[at].name@, 0) == Some(at),
{
    lemma_found_at(classes, classes[at].name@, at);
}

/// A name that no earlier class has is found at the position of the
/// class that has it.
proof fn lemma_found_at(classes: Seq<Class>, name: Seq<char>, at: int)
    requires
        0 <= at < classes.len(),
        classes[at].name@ == name,
        forall|k: int| 0 <= k < at ==> classes[k].name@ != name,
    ensures
        class_position(classes, name, 0) == Some(at),
{
    lemma_found_from(classes, name, at, 0);
}

proof fn lemma_found_from(classes: Seq<Class>, name: Seq<char>, at: int, from: int)
    requires
        0 <= from <= at < classes.len(),
        classes[at].name@ == name,
        forall|k: int| from <= k < at ==> classes[k].name@ != name,
    ensures
        class_position(classes, name, from) == Some(at),
    decreases at - from,
{
    if from < at {
        lemma_found_from(classes, name, at, from + 1);
    }
}

} // verus!
