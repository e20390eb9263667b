//! A loaded class: its members, its layout and its place among the other
//! classes.
use vstd::prelude::*;
use crate::access_flags::{has_flag, ClassAccessFlags, ACC_ABSTRACT, ACC_INTERFACE};
use crate::class_file::{source_file_of, ClassFile, ClassFileView};
use crate::class_file_version::ClassFileVersion;
use crate::field_info::{FieldInfo, MemberView};
use crate::jvm_error::{VmError, VmExecResult};
use crate::method_info::MethodInfo;
use crate::runtime_constant_pool::{
    resolve_pool, RuntimeConstantPool, RuntimeConstantView,
};
use crate::runtime_field_info::{constant_value_from, RuntimeFieldInfo, RuntimeFieldView};
use crate::runtime_method_info::{runtime_method, RuntimeMethodInfo, RuntimeMethodView};
use crate::seq_view::{lemma_views_empty, lemma_views_push, views};
use crate::text::str_eq;

verus! {

/// How far a class has come on its way from bytes to use. The order of
/// the variants is the order of the stages.
#[derive(Debug, Clone, Copy, PartialEq, Eq, Structural)]
pub enum ClassStatus {
    Loading,
    Loaded,
    Linking,
    Linked,
    Initializing,
    Initialized,
}

impl ClassStatus {
    /// The place of the stage in the order of stages, from 0.
    pub open spec fn rank(self) -> int {
        match self {
            ClassStatus::Loading => 0,
            ClassStatus::Loaded => 1,
            ClassStatus::Linking => 2,
            ClassStatus::Linked => 3,
            ClassStatus::Initializing => 4,
            ClassStatus::Initialized => 5,
        }
    }

    /// Whether linking is complete: the static fields have their slots.
    pub open spec fn is_linked(self) -> bool {
        self.rank() >= 3
    }

    pub fn linked(&self) -> (r: bool)
        ensures
            r == self.is_linked(),
    {
        match self {
            ClassStatus::Linked | ClassStatus::Initializing | ClassStatus::Initialized => true,
            _ => false,
        }
    }
}

/// A handle to a loaded class: its position in the method area.
pub type ClassRef = usize;

/// A method of a class: the position of the method among its methods.
pub type MethodRef = usize;

/// A field of a class: the position of the field among its fields.
pub type FieldRef = usize;

pub struct Class {
    pub version: ClassFileVersion,
    pub status: ClassStatus,
    pub name: String,
    pub constant_pool: RuntimeConstantPool,
    pub access_flags: ClassAccessFlags,
    pub super_class: Option<ClassRef>,
    /// The interfaces that the class declares, in declaration order and
    /// without repetitions.
    pub interfaces: Vec<ClassRef>,
    /// The fields in declaration order, each name once.
    pub fields: Vec<RuntimeFieldInfo>,
    /// The methods in declaration order, each pair of name and descriptor
    /// once.
    pub methods: Vec<RuntimeMethodInfo>,
    pub super_class_name: Option<String>,
    pub interface_names: Vec<String>,
    pub source_file: Option<String>,
    /// The number of slots of an instance: those of the super class and
    /// one for each instance field of this class.
    pub total_num_of_fields: usize,
}

/// The number of instance fields among `fields[..upto]`.
pub open spec fn instance_count(fields: Seq<RuntimeFieldView>, upto: int) -> nat
    decreases upto,
{
    if upto <= 0 || upto > fields.len() {
        0
    } else {
        instance_count(fields, upto - 1) + (if fields[upto - 1].is_static() {
            0nat
        } else {
            1nat
        })
    }
}

/// The slot that the field at `position` gets in a class whose super class
/// has `super_total` slots: 0 for a static field; for an instance field
/// the slots of the super class, plus the number of instance fields
/// declared before it, plus one.
pub open spec fn slot_of(fields: Seq<RuntimeFieldView>, position: int, super_total: int) -> int {
    if fields[position].is_static() {
        0
    } else {
        super_total + instance_count(fields, position) + 1
    }
}

/// Whether every field has the slot that the layout rule gives it.
pub open spec fn laid_out(fields: Seq<RuntimeFieldView>, super_total: int) -> bool {
    forall|k: int|
        0 <= k < fields.len() ==> (#[trigger] fields[k]).offset == slot_of(fields, k, super_total)
}

/// The position of the first field of `fields[from..]` called `name`.
pub open spec fn field_position(fields: Seq<RuntimeFieldView>, name: Seq<char>, from: int) -> Option<
    int,
>
    decreases fields.len() - from,
{
    if from < 0 || from >= fields.len() {
        None
    } else if fields[from].name == name {
        Some(from)
    } else {
        field_position(fields, name, from + 1)
    }
}

/// The position of the first method of `methods[from..]` with this name
/// and this descriptor.
pub open spec fn method_position(
    methods: Seq<RuntimeMethodView>,
    name: Seq<char>,
    descriptor: Seq<char>,
    from: int,
) -> Option<int>
    decreases methods.len() - from,
{
    if from < 0 || from >= methods.len() {
        None
    } else if methods[from].name == name && methods[from].descriptor == descriptor {
        Some(from)
    } else {
        method_position(methods, name, descriptor, from + 1)
    }
}

pub proof fn lemma_field_position(fields: Seq<RuntimeFieldView>, name: Seq<char>, from: int)
    requires
        0 <= from,
    ensures
        match field_position(fields, name, from) {
            Some(i) => from <= i < fields.len() && fields[i].name == name,
            None => forall|k: int| from <= k < fields.len() ==> fields[k].name != name,
        },
    decreases fields.len() - from,
{
    if from < fields.len() && fields[from].name != name {
        lemma_field_position(fields, name, from + 1);
    }
}

pub proof fn lemma_method_position(
    methods: Seq<RuntimeMethodView>,
    name: Seq<char>,
    descriptor: Seq<char>,
    from: int,
)
    requires
        0 <= from,
    ensures
        match method_position(methods, name, descriptor, from) {
            Some(i) => from <= i < methods.len() && methods[i].name == name
                && methods[i].descriptor == descriptor,
            None => forall|k: int|
                from <= k < methods.len() ==> !(methods[k].name == name && methods[k].descriptor
                    == descriptor),
        },
    decreases methods.len() - from,
{
    if from < methods.len() && !(methods[from].name == name && methods[from].descriptor
        == descriptor) {
        lemma_method_position(methods, name, descriptor, from + 1);
    }
}

/// The fields after `field` was declared: a field of the same name is
/// replaced where it stands, a new name comes last.
pub open spec fn with_field(fields: Seq<RuntimeFieldView>, field: RuntimeFieldView) -> Seq<
    RuntimeFieldView,
> {
    match field_position(fields, field.name, 0) {
        Some(i) => fields.update(i, field),
        None => fields.push(field),
    }
}

/// The methods after `method` was declared: a method of the same name and
/// descriptor is replaced where it stands, a new one comes last.
pub open spec fn with_method(methods: Seq<RuntimeMethodView>, method: RuntimeMethodView) -> Seq<
    RuntimeMethodView,
> {
    match method_position(methods, method.name, method.descriptor, 0) {
        Some(i) => methods.update(i, method),
        None => methods.push(method),
    }
}

/// The run-time field for a field of a class file, before it has a slot.
pub open spec fn runtime_field(field: MemberView, pool: Seq<Option<RuntimeConstantView>>) -> Option<
    RuntimeFieldView,
> {
    match constant_value_from(field.attributes, 0, None, pool) {
        Err(_) => None,
        Ok(value) => Some(
            RuntimeFieldView {
                access_flags: field.access_flags,
                name: field.name,
                descriptor: field.descriptor,
                constant_value: value,
                offset: 0,
                attributes: field.attributes,
            },
        ),
    }
}

/// The fields `infos[from..]` declared one after the other on top of `acc`.
pub open spec fn declare_fields_from(
    infos: Seq<MemberView>,
    from: int,
    acc: Seq<RuntimeFieldView>,
    pool: Seq<Option<RuntimeConstantView>>,
) -> Option<Seq<RuntimeFieldView>>
    decreases infos.len() - from,
{
    if from < 0 || from >= infos.len() {
        Some(acc)
    } else {
        match runtime_field(infos[from], pool) {
            None => None,
            Some(field) => declare_fields_from(infos, from + 1, with_field(acc, field), pool),
        }
    }
}

/// The methods `infos[from..]` declared one after the other on top of `acc`.
pub open spec fn declare_methods_from(
    infos: Seq<MemberView>,
    from: int,
    acc: Seq<RuntimeMethodView>,
    pool: Seq<Option<RuntimeConstantView>>,
) -> Result<Seq<RuntimeMethodView>, VmError>
    decreases infos.len() - from,
{
    if from < 0 || from >= infos.len() {
        Ok(acc)
    } else {
        match runtime_method(infos[from], pool) {
            Err(e) => Err(e),
            Ok(method) => declare_methods_from(infos, from + 1, with_method(acc, method), pool),
        }
    }
}

/// The fields with the slots that the layout rule gives them.
pub open spec fn with_slots(fields: Seq<RuntimeFieldView>, super_total: int) -> Seq<
    RuntimeFieldView,
> {
    Seq::new(
        fields.len(),
        |k: int|
            RuntimeFieldView { offset: slot_of(fields, k, super_total) as usize, ..fields[k] },
    )
}

fn find_field(fields: &Vec<RuntimeFieldInfo>, name: &str) -> (r: Option<usize>)
    ensures
        match field_position(views(fields@), name@, 0) {
            Some(i) => r == Some(i as usize) && 0 <= i < fields.len(),
            None => r is None,
        },
{
    let mut i: usize = 0;
    while i < fields.len()
        invariant
            i <= fields.len(),
            field_position(views(fields@), name@, 0) == field_position(
                views(fields@),
                name@,
                i as int,
            ),
        decreases fields.len() - i,
    {
        assert(views(fields@)[i as int] == fields@[i as int]@);
        if str_eq(fields[i].name.as_str(), name) {
            return Some(i);
        }
        i += 1;
    }
    None
}

fn find_method(methods: &Vec<RuntimeMethodInfo>, name: &str, descriptor: &str) -> (r: Option<
    usize,
>)
    ensures
        match method_position(views(methods@), name@, descriptor@, 0) {
            Some(i) => r == Some(i as usize) && 0 <= i < methods.len(),
            None => r is None,
        },
{
    let mut i: usize = 0;
    while i < methods.len()
        invariant
            i <= methods.len(),
            method_position(views(methods@), name@, descriptor@, 0) == method_position(
                views(methods@),
                name@,
                descriptor@,
                i as int,
            ),
        decreases methods.len() - i,
    {
        assert(views(methods@)[i as int] == methods@[i as int]@);
        if str_eq(methods[i].name.as_str(), name) && str_eq(
            methods[i].descriptor.as_str(),
            descriptor,
        ) {
            return Some(i);
        }
        i += 1;
    }
    None
}

fn declare_fields(infos: Vec<FieldInfo>, cp: &RuntimeConstantPool) -> (r: VmExecResult<
    Vec<RuntimeFieldInfo>,
>)
    ensures
        match declare_fields_from(views(infos@), 0, Seq::empty(), cp@) {
            Some(fields) => r is Ok && views(r->Ok_0@) == fields,
            None => r is Err && r->Err_0 is InvalidAttribute,
        },
{
    let mut fields: Vec<RuntimeFieldInfo> = Vec::new();
    let ghost all = views(infos@);
    proof {
        lemma_views_empty::<RuntimeFieldInfo>();
    }
    for info in it: infos
        invariant
            all == views(it.seq()),
            declare_fields_from(all, 0, Seq::empty(), cp@) == declare_fields_from(
                all,
                it.index() as int,
                views(fields@),
                cp@,
            ),
    {
        assert(all[it.index() as int] == info@);
        let field = RuntimeFieldInfo::from(info, cp)?;
        let ghost before = views(fields@);
        match find_field(&fields, field.name.as_str()) {
            Some(i) => {
                fields.set(i, field);
                assert(views(fields@) =~= before.update(i as int, field@));
            },
            None => {
                proof {
                    lemma_views_push(fields@, field);
                }
                fields.push(field);
            },
        }
    }
    Ok(fields)
}

fn declare_methods(infos: Vec<MethodInfo>, cp: &RuntimeConstantPool) -> (r: VmExecResult<
    Vec<RuntimeMethodInfo>,
>)
    ensures
        match declare_methods_from(views(infos@), 0, Seq::empty(), cp@) {
            Ok(methods) => r is Ok && views(r->Ok_0@) == methods,
            Err(e) => r is Err && r->Err_0 == e,
        },
{
    let mut methods: Vec<RuntimeMethodInfo> = Vec::new();
    let ghost all = views(infos@);
    proof {
        lemma_views_empty::<RuntimeMethodInfo>();
    }
    for info in it: infos
        invariant
            all == views(it.seq()),
            declare_methods_from(all, 0, Seq::empty(), cp@) == declare_methods_from(
                all,
                it.index() as int,
                views(methods@),
                cp@,
            ),
    {
        assert(all[it.index() as int] == info@);
        let method = RuntimeMethodInfo::from(info, cp)?;
        let ghost before = views(methods@);
        match find_method(&methods, method.name.as_str(), method.descriptor.as_str()) {
            Some(i) => {
                methods.set(i, method);
                assert(views(methods@) =~= before.update(i as int, method@));
            },
            None => {
                proof {
                    lemma_views_push(methods@, method);
                }
                methods.push(method);
            },
        }
    }
    Ok(methods)
}

pub proof fn lemma_instance_count_bound(fields: Seq<RuntimeFieldView>, upto: int)
    ensures
        instance_count(fields, upto) <= upto || upto < 0,
        instance_count(fields, upto) <= fields.len(),
    decreases upto,
{
    if upto > 0 && upto <= fields.len() {
        lemma_instance_count_bound(fields, upto - 1);
    }
}

/// The instance fields declared before a position are counted in every
/// later count.
pub proof fn lemma_instance_count_monotonic(fields: Seq<RuntimeFieldView>, i: int, j: int)
    requires
        0 <= i <= j <= fields.len(),
    ensures
        instance_count(fields, i) <= instance_count(fields, j),
    decreases j - i,
{
    if i < j {
        lemma_instance_count_monotonic(fields, i, j - 1);
    }
}

/// Gives every field its slot. Fails where the slots do not fit `usize`.
fn assign_slots(fields: Vec<RuntimeFieldInfo>, super_total: usize) -> (r: VmExecResult<
    (Vec<RuntimeFieldInfo>, usize),
>)
    ensures
        super_total + instance_count(views(fields@), fields@.len() as int) <= usize::MAX ==> r is Ok
            && views(r->Ok_0.0@) == with_slots(views(fields@), super_total as int) && r->Ok_0.1
            == super_total + instance_count(views(fields@), fields@.len() as int),
        super_total + instance_count(views(fields@), fields@.len() as int) > usize::MAX ==> r is Err
            && r->Err_0 == VmError::ClassFormatError,
{
    let mut result: Vec<RuntimeFieldInfo> = Vec::new();
    let mut total: usize = super_total;
    let ghost all = views(fields@);
    proof {
        lemma_views_empty::<RuntimeFieldInfo>();
    }
    for field in it: fields
        invariant
            all == views(it.seq()),
            it.seq().len() == all.len(),
            total == super_total + instance_count(all, it.index() as int),
            result@.len() == it.index(),
            forall|k: int|
                0 <= k < it.index() ==> (#[trigger] views(result@)[k]) == with_slots(
                    all,
                    super_total as int,
                )[k],
    {
        let ghost position = it.index() as int;
        assert(all[position] == field@);
        proof {
            lemma_instance_count_monotonic(all, position + 1, all.len() as int);
        }
        let mut field = field;
        let offset: usize = if field.is_static() {
            0
        } else {
            if total == usize::MAX {
                return Err(VmError::ClassFormatError);
            }
            total += 1;
            total
        };
        field.offset = offset;
        let ghost before = views(result@);
        proof {
            lemma_views_push(result@, field);
        }
        result.push(field);
        assert forall|k: int| 0 <= k < position + 1 implies (#[trigger] views(result@)[k])
            == with_slots(all, super_total as int)[k] by {
            if k < position {
                assert(views(result@)[k] == before[k]);
            }
        }
    }
    assert(views(result@) =~= with_slots(all, super_total as int));
    Ok((result, total))
}

/// What is known of a class file's super class and interfaces when the
/// class is defined: they are loaded, and these are their handles.
pub struct Ancestry {
    pub super_class: Option<ClassRef>,
    /// The number of instance slots of the super class, 0 without one.
    pub super_total: usize,
    pub interfaces: Vec<ClassRef>,
}

impl Class {
    /// Whether the layout rule holds of the class, given the number of
    /// slots of its super class: every field has its slot, and the class
    /// has the slots of its super class and one for each of its instance
    /// fields.
    pub open spec fn layout_holds(self, super_total: int) -> bool {
        &&& laid_out(views(self.fields@), super_total)
        &&& self.total_num_of_fields == super_total + instance_count(
            views(self.fields@),
            self.fields@.len() as int,
        )
    }

    /// Whether a class can be built for a decoded class file whose
    /// super class has `super_total` slots: the name of its source file
    /// can be read, its constant pool can be resolved, its fields and
    /// methods can be declared, and `usize` can count its slots.
    pub open spec fn definable(class_file: crate::class_file::ClassFileView, super_total: int) -> bool {
        &&& source_file_of(class_file) is Ok
        &&& resolve_pool(class_file.constant_pool) matches Ok(pool) && declare_fields_from(
            class_file.field_info,
            0,
            Seq::empty(),
            pool,
        ) matches Some(declared) && super_total + instance_count(declared, declared.len() as int)
            <= usize::MAX && declare_methods_from(class_file.method_info, 0, Seq::empty(), pool)
            is Ok
    }

    /// Whether the class is what its class file says, where its super
    /// class has `super_total` slots: it has the name, the version and
    /// the access flags of the class file, the names of its super class
    /// and of its interfaces, and the name of its source file; its
    /// constant pool is that of the class file, resolved; its fields
    /// and methods are those that the class file declares, and every
    /// field has its slot.
    pub open spec fn defined_from(self, class_file: crate::class_file::ClassFileView, super_total: int) -> bool {
        &&& self.name@ == class_file.this_class_name
        &&& self.version == class_file.version
        &&& self.access_flags@ == class_file.access_flags
        &&& (match class_file.super_class_name {
            Some(name) => self.super_class_name matches Some(n) && n@ == name,
            None => self.super_class_name is None,
        })
        &&& views(self.interface_names@) == class_file.interface_names
        &&& resolve_pool(class_file.constant_pool) == Ok::<
            _,
            crate::class_file_error::ClassFileError,
        >(self.constant_pool@)
        &&& declare_fields_from(
            class_file.field_info,
            0,
            Seq::empty(),
            self.constant_pool@,
        ) matches Some(declared) && views(self.fields@) == with_slots(declared, super_total)
        &&& declare_methods_from(class_file.method_info, 0, Seq::empty(), self.constant_pool@)
            == Ok::<_, VmError>(views(self.methods@))
        &&& self.layout_holds(super_total)
        &&& source_file_of(class_file) matches Ok(source) && (match source {
            Some(text) => self.source_file is Some && self.source_file->0@ == text,
            None => self.source_file is None,
        })
    }

    /// Builds the class for a decoded class file whose super class and
    /// interfaces are loaded. The class comes out `Loaded`.
    pub fn define(class_file: ClassFile, ancestry: Ancestry) -> (r: VmExecResult<Class>)
        ensures
            r is Ok <==> Class::definable(class_file@, ancestry.super_total as int),
            r matches Ok(class) ==> class.defined_from(class_file@, ancestry.super_total as int)
                && class.status == ClassStatus::Loaded && class.super_class
                == ancestry.super_class && class.interfaces == ancestry.interfaces,
    {
        let source_file = match class_file.source_file() {
            Ok(s) => s,
            Err(e) => {
                return Err(VmError::ReadClassBytesError(e));
            },
        };
        let constant_pool = RuntimeConstantPool::from(&class_file.constant_pool)?;
        let declared = declare_fields(class_file.field_info, &constant_pool)?;
        let ghost declared_view = views(declared@);
        let (fields, total_num_of_fields) = assign_slots(declared, ancestry.super_total)?;
        let methods = declare_methods(class_file.method_info, &constant_pool)?;
        proof {
            let laid = with_slots(declared_view, ancestry.super_total as int);
            assert(views(fields@) == laid);
            lemma_with_slots_laid_out(declared_view, ancestry.super_total as int);
        }
        Ok(
            Class {
                version: class_file.version,
                total_num_of_fields,
                status: ClassStatus::Loaded,
                name: class_file.this_class_name,
                constant_pool,
                access_flags: class_file.access_flags,
                super_class: ancestry.super_class,
                interfaces: ancestry.interfaces,
                fields,
                methods,
                super_class_name: class_file.super_class_name,
                interface_names: class_file.interface_names,
                source_file,
            },
        )
    }

    pub fn is_interface(&self) -> (r: bool)
        ensures
            r == has_flag(self.access_flags@, ACC_INTERFACE),
    {
        self.access_flags.contains(ACC_INTERFACE)
    }

    pub fn is_abstract(&self) -> (r: bool)
        ensures
            r == has_flag(self.access_flags@, ACC_ABSTRACT),
    {
        self.access_flags.contains(ACC_ABSTRACT)
    }

    /// The method of this class with this name and descriptor. Super
    /// classes are not searched.
    pub fn get_method(&self, method_name: &str, descriptor: &str) -> (r: VmExecResult<MethodRef>)
        ensures
            match method_position(views(self.methods@), method_name@, descriptor@, 0) {
                Some(i) => r == Ok::<_, VmError>(i as usize) && 0 <= i < self.methods.len(),
                None => (r matches Err(VmError::MethodNotFoundException(n, d)) && n@
                    == method_name@ && d@ == descriptor@),
            },
    {
        match find_method(&self.methods, method_name, descriptor) {
            Some(i) => Ok(i),
            None => Err(
                VmError::MethodNotFoundException(method_name.to_owned(), descriptor.to_owned()),
            ),
        }
    }

    /// The field of this class called `name`. Super classes are not
    /// searched.
    pub fn get_own_field(&self, name: &str) -> (r: Option<FieldRef>)
        ensures
            match field_position(views(self.fields@), name@, 0) {
                Some(i) => r == Some(i as usize) && 0 <= i < self.fields.len(),
                None => r is None,
            },
    {
        find_field(&self.fields, name)
    }
}

/// Giving the fields their slots makes the layout rule hold, and changes
/// neither which fields are static nor how many instance fields there are.
pub proof fn lemma_with_slots_laid_out(fields: Seq<RuntimeFieldView>, super_total: int)
    requires
        0 <= super_total,
        super_total + instance_count(fields, fields.len() as int) <= usize::MAX,
    ensures
        laid_out(with_slots(fields, super_total), super_total),
        forall|k: int|
            0 <= k <= fields.len() ==> instance_count(with_slots(fields, super_total), k)
                == instance_count(fields, k),
{
    let laid = with_slots(fields, super_total);
    assert forall|k: int| 0 <= k <= fields.len() implies instance_count(laid, k) == instance_count(
        fields,
        k,
    ) by {
        lemma_same_statics(fields, laid, k);
    }
    assert forall|k: int| 0 <= k < laid.len() implies (#[trigger] laid[k]).offset == slot_of(
        laid,
        k,
        super_total,
    ) by {
        lemma_same_statics(fields, laid, k);
        lemma_instance_count_monotonic(fields, k, fields.len() as int);
        lemma_instance_count_monotonic(fields, k + 1, fields.len() as int);
    }
}

proof fn lemma_same_statics(a: Seq<RuntimeFieldView>, b: Seq<RuntimeFieldView>, upto: int)
    requires
        a.len() == b.len(),
        forall|k: int| 0 <= k < a.len() ==> a[k].access_flags == b[k].access_flags,
        0 <= upto <= a.len(),
    ensures
        instance_count(a, upto) == instance_count(b, upto),
    decreases upto,
{
    if upto > 0 {
        lemma_same_statics(a, b, upto - 1);
    }
}

} // verus!
