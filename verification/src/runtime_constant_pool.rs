//! The constant pool of a loaded class: every constant carries the names
//! it refers to.
use vstd::prelude::*;
use crate::class_file_error::{ClassDataFault, ClassFileError};
use crate::constant_pool::{
    class_name_lookup, constant_at, string_lookup, ConstantPool, ConstantPoolEntry,
    ConstantPoolPhysicalEntry, ConstantView,
};
use crate::jvm_error::{VmError, VmExecResult};

verus! {

#[derive(Debug, Clone, Copy, PartialEq, Eq, Structural)]
pub enum MethodHandlerKind {
    GetField,
    GetStatic,
    PutField,
    PutStatic,
    InvokeVirtual,
    InvokeStatic,
    InvokeSpecial,
    NewInvokeSpecial,
    InvokeInterface,
}

/// The kind of method handle for a kind number of a class file.
pub open spec fn handler_kind_for(kind: u8) -> Result<MethodHandlerKind, ClassFileError> {
    if kind == 1 {
        Ok(MethodHandlerKind::GetField)
    } else if kind == 2 {
        Ok(MethodHandlerKind::GetStatic)
    } else if kind == 3 {
        Ok(MethodHandlerKind::PutField)
    } else if kind == 4 {
        Ok(MethodHandlerKind::PutStatic)
    } else if kind == 5 {
        Ok(MethodHandlerKind::InvokeVirtual)
    } else if kind == 6 {
        Ok(MethodHandlerKind::InvokeSpecial)
    } else if kind == 7 {
        Ok(MethodHandlerKind::NewInvokeSpecial)
    } else if kind == 8 {
        Ok(MethodHandlerKind::InvokeInterface)
    } else {
        Err(ClassFileError::InvalidMethodHandlerKind(kind))
    }
}

impl MethodHandlerKind {
    pub fn new(kind: u8) -> (r: VmExecResult<MethodHandlerKind>)
        ensures
            r == lift(handler_kind_for(kind)),
    {
        match kind {
            1 => Ok(MethodHandlerKind::GetField),
            2 => Ok(MethodHandlerKind::GetStatic),
            3 => Ok(MethodHandlerKind::PutField),
            4 => Ok(MethodHandlerKind::PutStatic),
            5 => Ok(MethodHandlerKind::InvokeVirtual),
            6 => Ok(MethodHandlerKind::InvokeSpecial),
            7 => Ok(MethodHandlerKind::NewInvokeSpecial),
            8 => Ok(MethodHandlerKind::InvokeInterface),
            _ => Err(VmError::ReadClassBytesError(ClassFileError::InvalidMethodHandlerKind(kind))),
        }
    }
}

/// A decoding result as a result of the machine: the fault is wrapped.
pub open spec fn lift<T>(r: Result<T, ClassFileError>) -> Result<T, VmError> {
    match r {
        Ok(v) => Ok(v),
        Err(e) => Err(VmError::ReadClassBytesError(e)),
    }
}

pub enum RuntimeConstantPoolEntry {
    Utf8(String),
    Integer(i32),
    Float(u32),
    Long(i64),
    Double(u64),
    ClassReference(String),
    StringReference(String),
    /// Class name, field name, field descriptor.
    FieldReference(String, String, String),
    /// Class name, method name, method descriptor.
    MethodReference(String, String, String),
    /// Interface name, method name, method descriptor.
    InterfaceMethodReference(String, String, String),
    /// Name, descriptor.
    NameAndTypeDescriptor(String, String),
    /// Kind, then the class name, name and descriptor of the member.
    MethodHandler(MethodHandlerKind, String, String, String),
    MethodType(String),
    /// Index of the bootstrap method, name, descriptor.
    Dynamic(u16, String, String),
    /// Index of the bootstrap method, name, descriptor.
    InvokeDynamic(u16, String, String),
    Module(String),
    Package(String),
}

/// A resolved constant as a mathematical value.
pub enum RuntimeConstantView {
    Utf8(Seq<char>),
    Integer(i32),
    Float(u32),
    Long(i64),
    Double(u64),
    ClassReference(Seq<char>),
    StringReference(Seq<char>),
    FieldReference(Seq<char>, Seq<char>, Seq<char>),
    MethodReference(Seq<char>, Seq<char>, Seq<char>),
    InterfaceMethodReference(Seq<char>, Seq<char>, Seq<char>),
    NameAndTypeDescriptor(Seq<char>, Seq<char>),
    MethodHandler(MethodHandlerKind, Seq<char>, Seq<char>, Seq<char>),
    MethodType(Seq<char>),
    Dynamic(u16, Seq<char>, Seq<char>),
    InvokeDynamic(u16, Seq<char>, Seq<char>),
    Module(Seq<char>),
    Package(Seq<char>),
}

impl View for RuntimeConstantPoolEntry {
    type V = RuntimeConstantView;

    open spec fn view(&self) -> RuntimeConstantView {
        match self {
            RuntimeConstantPoolEntry::Utf8(s) => RuntimeConstantView::Utf8(s@),
            RuntimeConstantPoolEntry::Integer(v) => RuntimeConstantView::Integer(*v),
            RuntimeConstantPoolEntry::Float(v) => RuntimeConstantView::Float(*v),
            RuntimeConstantPoolEntry::Long(v) => RuntimeConstantView::Long(*v),
            RuntimeConstantPoolEntry::Double(v) => RuntimeConstantView::Double(*v),
            RuntimeConstantPoolEntry::ClassReference(s) => RuntimeConstantView::ClassReference(s@),
            RuntimeConstantPoolEntry::StringReference(s) => RuntimeConstantView::StringReference(
                s@,
            ),
            RuntimeConstantPoolEntry::FieldReference(c, n, d) => {
                RuntimeConstantView::FieldReference(c@, n@, d@)
            },
            RuntimeConstantPoolEntry::MethodReference(c, n, d) => {
                RuntimeConstantView::MethodReference(c@, n@, d@)
            },
            RuntimeConstantPoolEntry::InterfaceMethodReference(c, n, d) => {
                RuntimeConstantView::InterfaceMethodReference(c@, n@, d@)
            },
            RuntimeConstantPoolEntry::NameAndTypeDescriptor(n, d) => {
                RuntimeConstantView::NameAndTypeDescriptor(n@, d@)
            },
            RuntimeConstantPoolEntry::MethodHandler(k, c, n, d) => {
                RuntimeConstantView::MethodHandler(*k, c@, n@, d@)
            },
            RuntimeConstantPoolEntry::MethodType(s) => RuntimeConstantView::MethodType(s@),
            RuntimeConstantPoolEntry::Dynamic(i, n, d) => RuntimeConstantView::Dynamic(*i, n@, d@),
            RuntimeConstantPoolEntry::InvokeDynamic(i, n, d) => {
                RuntimeConstantView::InvokeDynamic(*i, n@, d@)
            },
            RuntimeConstantPoolEntry::Module(s) => RuntimeConstantView::Module(s@),
            RuntimeConstantPoolEntry::Package(s) => RuntimeConstantView::Package(s@),
        }
    }
}

/// The name and the descriptor that the name-and-type constant at `index`
/// leads to.
pub open spec fn name_and_type_lookup(pool: Seq<Option<ConstantView>>, index: u16) -> Result<
    (Seq<char>, Seq<char>),
    ClassFileError,
> {
    match constant_at(pool, index as int) {
        None => Err(ClassFileError::InvalidConstantPoolIndexError(index)),
        Some(ConstantView::NameAndTypeDescriptor(name_index, type_index)) => match string_lookup(
            pool,
            name_index,
        ) {
            Err(e) => Err(e),
            Ok(name) => match string_lookup(pool, type_index) {
                Err(e) => Err(e),
                Ok(descriptor) => Ok((name, descriptor)),
            },
        },
        Some(_) => Err(ClassFileError::InvalidClassData(ClassDataFault::NotNameAndType(index))),
    }
}

/// The class name, member name and descriptor that a pair of a class
/// index and a name-and-type index leads to.
pub open spec fn member_names(
    pool: Seq<Option<ConstantView>>,
    class_index: u16,
    name_and_type_index: u16,
) -> Result<(Seq<char>, Seq<char>, Seq<char>), ClassFileError> {
    match class_name_lookup(pool, class_index) {
        Err(e) => Err(e),
        Ok(class_name) => match name_and_type_lookup(pool, name_and_type_index) {
            Err(e) => Err(e),
            Ok((name, descriptor)) => Ok((class_name, name, descriptor)),
        },
    }
}

/// The names that the field or method reference at `index` leads to.
pub open spec fn member_lookup(pool: Seq<Option<ConstantView>>, index: u16) -> Result<
    (Seq<char>, Seq<char>, Seq<char>),
    ClassFileError,
> {
    match constant_at(pool, index as int) {
        None => Err(ClassFileError::InvalidConstantPoolIndexError(index)),
        Some(ConstantView::FieldReference(c, nt)) => member_names(pool, c, nt),
        Some(ConstantView::MethodReference(c, nt)) => member_names(pool, c, nt),
        Some(ConstantView::InterfaceMethodReference(c, nt)) => member_names(pool, c, nt),
        Some(_) => Err(ClassFileError::InvalidClassData(ClassDataFault::NotMemberReference(index))),
    }
}

/// The constant `entry` of `pool` with every index replaced by the names
/// it leads to, or the fault met on the way.
pub open spec fn resolve_constant(pool: Seq<Option<ConstantView>>, entry: ConstantView) -> Result<
    RuntimeConstantView,
    ClassFileError,
> {
    match entry {
        ConstantView::Utf8(s) => Ok(RuntimeConstantView::Utf8(s)),
        ConstantView::Integer(v) => Ok(RuntimeConstantView::Integer(v)),
        ConstantView::Float(v) => Ok(RuntimeConstantView::Float(v)),
        ConstantView::Long(v) => Ok(RuntimeConstantView::Long(v)),
        ConstantView::Double(v) => Ok(RuntimeConstantView::Double(v)),
        ConstantView::ClassReference(i) => match string_lookup(pool, i) {
            Err(e) => Err(e),
            Ok(s) => Ok(RuntimeConstantView::ClassReference(s)),
        },
        ConstantView::StringReference(i) => match string_lookup(pool, i) {
            Err(e) => Err(e),
            Ok(s) => Ok(RuntimeConstantView::StringReference(s)),
        },
        ConstantView::FieldReference(c, nt) => match member_names(pool, c, nt) {
            Err(e) => Err(e),
            Ok((cn, n, d)) => Ok(RuntimeConstantView::FieldReference(cn, n, d)),
        },
        ConstantView::MethodReference(c, nt) => match member_names(pool, c, nt) {
            Err(e) => Err(e),
            Ok((cn, n, d)) => Ok(RuntimeConstantView::MethodReference(cn, n, d)),
        },
        ConstantView::InterfaceMethodReference(c, nt) => match member_names(pool, c, nt) {
            Err(e) => Err(e),
            Ok((cn, n, d)) => Ok(RuntimeConstantView::InterfaceMethodReference(cn, n, d)),
        },
        ConstantView::NameAndTypeDescriptor(a, b) => match string_lookup(pool, a) {
            Err(e) => Err(e),
            Ok(name) => match string_lookup(pool, b) {
                Err(e) => Err(e),
                Ok(descriptor) => Ok(RuntimeConstantView::NameAndTypeDescriptor(name, descriptor)),
            },
        },
        ConstantView::MethodHandler(kind, reference) => match handler_kind_for(kind) {
            Err(e) => Err(e),
            Ok(k) => match member_lookup(pool, reference) {
                Err(e) => Err(e),
                Ok((cn, n, d)) => Ok(RuntimeConstantView::MethodHandler(k, cn, n, d)),
            },
        },
        ConstantView::MethodType(i) => match string_lookup(pool, i) {
            Err(e) => Err(e),
            Ok(s) => Ok(RuntimeConstantView::MethodType(s)),
        },
        ConstantView::Dynamic(bootstrap, nt) => match name_and_type_lookup(pool, nt) {
            Err(e) => Err(e),
            Ok((n, d)) => Ok(RuntimeConstantView::Dynamic(bootstrap, n, d)),
        },
        ConstantView::InvokeDynamic(bootstrap, nt) => match name_and_type_lookup(pool, nt) {
            Err(e) => Err(e),
            Ok((n, d)) => Ok(RuntimeConstantView::InvokeDynamic(bootstrap, n, d)),
        },
        ConstantView::Module(i) => match string_lookup(pool, i) {
            Err(e) => Err(e),
            Ok(s) => Ok(RuntimeConstantView::Module(s)),
        },
        ConstantView::Package(i) => match string_lookup(pool, i) {
            Err(e) => Err(e),
            Ok(s) => Ok(RuntimeConstantView::Package(s)),
        },
    }
}

/// The slots `pool[from..]` resolved one after the other and added to `acc`.
pub open spec fn resolve_pool_from(
    pool: Seq<Option<ConstantView>>,
    from: int,
    acc: Seq<Option<RuntimeConstantView>>,
) -> Result<Seq<Option<RuntimeConstantView>>, ClassFileError>
    decreases pool.len() - from,
{
    if from < 0 || from >= pool.len() {
        Ok(acc)
    } else {
        match pool[from] {
            None => resolve_pool_from(pool, from + 1, acc.push(None)),
            Some(entry) => match resolve_constant(pool, entry) {
                Err(e) => Err(e),
                Ok(resolved) => resolve_pool_from(pool, from + 1, acc.push(Some(resolved))),
            },
        }
    }
}

/// The whole pool resolved, slot by slot, or the first fault.
pub open spec fn resolve_pool(pool: Seq<Option<ConstantView>>) -> Result<
    Seq<Option<RuntimeConstantView>>,
    ClassFileError,
> {
    resolve_pool_from(pool, 0, Seq::empty())
}

/// The resolved constant at the 1-based `index`, where there is one.
pub open spec fn runtime_constant_at(pool: Seq<Option<RuntimeConstantView>>, index: int) -> Option<
    RuntimeConstantView,
> {
    if 1 <= index <= pool.len() {
        pool[index - 1]
    } else {
        None
    }
}

/// The indices of other constants that a constant holds.
pub open spec fn referenced(entry: ConstantView) -> Seq<u16> {
    match entry {
        ConstantView::ClassReference(a) => seq![a],
        ConstantView::StringReference(a) => seq![a],
        ConstantView::FieldReference(a, b) => seq![a, b],
        ConstantView::MethodReference(a, b) => seq![a, b],
        ConstantView::InterfaceMethodReference(a, b) => seq![a, b],
        ConstantView::NameAndTypeDescriptor(a, b) => seq![a, b],
        ConstantView::MethodHandler(_, b) => seq![b],
        ConstantView::MethodType(a) => seq![a],
        ConstantView::Dynamic(_, b) => seq![b],
        ConstantView::InvokeDynamic(_, b) => seq![b],
        ConstantView::Module(a) => seq![a],
        ConstantView::Package(a) => seq![a],
        _ => Seq::empty(),
    }
}

/// A constant that was resolved holds only indices of constants.
pub proof fn lemma_resolved_references_exist(
    pool: Seq<Option<ConstantView>>,
    entry: ConstantView,
    k: int,
)
    requires
        resolve_constant(pool, entry) is Ok,
        0 <= k < referenced(entry).len(),
    ensures
        constant_at(pool, referenced(entry)[k] as int) is Some,
{
}

/// Where the slots from `from` on were resolved, each constant in them
/// was; and the resolved pool has a constant exactly where the pool has
/// one.
pub proof fn lemma_resolved_pool_from(
    pool: Seq<Option<ConstantView>>,
    from: int,
    acc: Seq<Option<RuntimeConstantView>>,
)
    requires
        0 <= from <= pool.len(),
        acc.len() == from,
        resolve_pool_from(pool, from, acc) is Ok,
    ensures
        ({
            let resolved = resolve_pool_from(pool, from, acc)->Ok_0;
            &&& resolved.len() == pool.len()
            &&& forall|j: int| 0 <= j < from ==> resolved[j] == acc[j]
            &&& forall|j: int|
                from <= j < pool.len() ==> ((#[trigger] pool[j]) is Some <==> resolved[j] is Some)
            &&& forall|j: int|
                from <= j < pool.len() && (#[trigger] pool[j]) is Some ==> resolve_constant(
                    pool,
                    pool[j]->0,
                ) == Ok::<_, ClassFileError>(resolved[j]->0)
        }),
    decreases pool.len() - from,
{
    if from < pool.len() {
        let next = match pool[from] {
            None => acc.push(None),
            Some(entry) => acc.push(Some(resolve_constant(pool, entry)->Ok_0)),
        };
        lemma_resolved_pool_from(pool, from + 1, next);
        let resolved = resolve_pool_from(pool, from, acc)->Ok_0;
        assert(resolved[from] == next[from]);
        assert forall|j: int| 0 <= j < from implies resolved[j] == acc[j] by {
            assert(resolved[j] == next[j]);
        }
    }
}

/// In a pool that was resolved, every index that a constant holds is
/// the index of a constant, and the lookup in the resolved pool succeeds
/// for it too.
pub proof fn lemma_resolved_pool_references_exist(
    pool: Seq<Option<ConstantView>>,
    index: int,
    k: int,
)
    requires
        resolve_pool(pool) is Ok,
        constant_at(pool, index) is Some,
        0 <= k < referenced(constant_at(pool, index)->0).len(),
    ensures
        constant_at(pool, referenced(constant_at(pool, index)->0)[k] as int) is Some,
        runtime_constant_at(
            resolve_pool(pool)->Ok_0,
            referenced(constant_at(pool, index)->0)[k] as int,
        ) is Some,
        runtime_constant_at(resolve_pool(pool)->Ok_0, index) is Some,
{
    lemma_resolved_pool_from(pool, 0, Seq::empty());
    let entry = constant_at(pool, index)->0;
    assert(pool[index - 1] is Some);
    lemma_resolved_references_exist(pool, entry, k);
    let target = referenced(entry)[k] as int;
    assert(pool[target - 1] is Some);
}

impl RuntimeConstantPoolEntry {
    fn get_utf8_string(cp: &ConstantPool, offset: &u16) -> (r: VmExecResult<String>)
        ensures
            match string_lookup(cp@, *offset) {
                Ok(text) => r is Ok && r->Ok_0@ == text,
                Err(e) => r == Err::<String, _>(VmError::ReadClassBytesError(e)),
            },
    {
        match cp.get_string(offset) {
            Ok(s) => Ok(s),
            Err(e) => Err(VmError::ReadClassBytesError(e)),
        }
    }

    fn get_class_name_string(cp: &ConstantPool, offset: &u16) -> (r: VmExecResult<String>)
        ensures
            match class_name_lookup(cp@, *offset) {
                Ok(text) => r is Ok && r->Ok_0@ == text,
                Err(e) => r == Err::<String, _>(VmError::ReadClassBytesError(e)),
            },
    {
        match cp.get_class_name(offset) {
            Ok(s) => Ok(s),
            Err(e) => Err(VmError::ReadClassBytesError(e)),
        }
    }

    fn get_name_and_type_string(cp: &ConstantPool, offset: &u16) -> (r: VmExecResult<
        (String, String),
    >)
        ensures
            match name_and_type_lookup(cp@, *offset) {
                Ok((name, descriptor)) => r is Ok && r->Ok_0.0@ == name && r->Ok_0.1@ == descriptor,
                Err(e) => r == Err::<(String, String), _>(VmError::ReadClassBytesError(e)),
            },
    {
        match cp.get(offset) {
            Err(e) => Err(VmError::ReadClassBytesError(e)),
            Ok(ConstantPoolEntry::NameAndTypeDescriptor(name_idx, type_idx)) => {
                let name = Self::get_utf8_string(cp, name_idx)?;
                let descriptor = Self::get_utf8_string(cp, type_idx)?;
                Ok((name, descriptor))
            },
            Ok(_) => Err(
                VmError::ReadClassBytesError(
                    ClassFileError::InvalidClassData(ClassDataFault::NotNameAndType(*offset)),
                ),
            ),
        }
    }

    fn get_member_names(cp: &ConstantPool, class_index: &u16, name_and_type_index: &u16) -> (r:
        VmExecResult<(String, String, String)>)
        ensures
            match member_names(cp@, *class_index, *name_and_type_index) {
                Ok((c, n, d)) => r is Ok && r->Ok_0.0@ == c && r->Ok_0.1@ == n && r->Ok_0.2@ == d,
                Err(e) => r == Err::<(String, String, String), _>(VmError::ReadClassBytesError(e)),
            },
    {
        let class_name = Self::get_class_name_string(cp, class_index)?;
        let (name, descriptor) = Self::get_name_and_type_string(cp, name_and_type_index)?;
        Ok((class_name, name, descriptor))
    }

    fn get_field_info_string(cp: &ConstantPool, offset: &u16) -> (r: VmExecResult<
        (String, String, String),
    >)
        ensures
            match member_lookup(cp@, *offset) {
                Ok((c, n, d)) => r is Ok && r->Ok_0.0@ == c && r->Ok_0.1@ == n && r->Ok_0.2@ == d,
                Err(e) => r == Err::<(String, String, String), _>(VmError::ReadClassBytesError(e)),
            },
    {
        match cp.get(offset) {
            Err(e) => Err(VmError::ReadClassBytesError(e)),
            Ok(ConstantPoolEntry::MethodReference(c, nt)) => Self::get_member_names(cp, c, nt),
            Ok(ConstantPoolEntry::FieldReference(c, nt)) => Self::get_member_names(cp, c, nt),
            Ok(ConstantPoolEntry::InterfaceMethodReference(c, nt)) => Self::get_member_names(
                cp,
                c,
                nt,
            ),
            Ok(_) => Err(
                VmError::ReadClassBytesError(
                    ClassFileError::InvalidClassData(ClassDataFault::NotMemberReference(*offset)),
                ),
            ),
        }
    }

    /// Resolves one constant of `cp`.
    pub fn from(cp: &ConstantPool, entry: &ConstantPoolEntry) -> (r: VmExecResult<
        RuntimeConstantPoolEntry,
    >)
        ensures
            match resolve_constant(cp@, entry@) {
                Ok(v) => r is Ok && r->Ok_0@ == v,
                Err(e) => r is Err && r->Err_0 == VmError::ReadClassBytesError(e),
            },
    {
        let value = match entry {
            ConstantPoolEntry::Utf8(v) => RuntimeConstantPoolEntry::Utf8(v.clone()),
            ConstantPoolEntry::Integer(v) => RuntimeConstantPoolEntry::Integer(*v),
            ConstantPoolEntry::Float(v) => RuntimeConstantPoolEntry::Float(*v),
            ConstantPoolEntry::Long(v) => RuntimeConstantPoolEntry::Long(*v),
            ConstantPoolEntry::Double(v) => RuntimeConstantPoolEntry::Double(*v),
            ConstantPoolEntry::ClassReference(offset) => {
                RuntimeConstantPoolEntry::ClassReference(Self::get_utf8_string(cp, offset)?)
            },
            ConstantPoolEntry::StringReference(offset) => {
                RuntimeConstantPoolEntry::StringReference(Self::get_utf8_string(cp, offset)?)
            },
            ConstantPoolEntry::FieldReference(class_name_idx, name_type_index) => {
                let (class_name, field_name, field_descriptor) = Self::get_member_names(
                    cp,
                    class_name_idx,
                    name_type_index,
                )?;
                RuntimeConstantPoolEntry::FieldReference(class_name, field_name, field_descriptor)
            },
            ConstantPoolEntry::MethodReference(class_name_idx, name_type_index) => {
                let (class_name, method_name, method_descriptor) = Self::get_member_names(
                    cp,
                    class_name_idx,
                    name_type_index,
                )?;
                RuntimeConstantPoolEntry::MethodReference(
                    class_name,
                    method_name,
                    method_descriptor,
                )
            },
            ConstantPoolEntry::InterfaceMethodReference(interface_name_idx, name_type_index) => {
                let (interface_name, method_name, method_descriptor) = Self::get_member_names(
                    cp,
                    interface_name_idx,
                    name_type_index,
                )?;
                RuntimeConstantPoolEntry::InterfaceMethodReference(
                    interface_name,
                    method_name,
                    method_descriptor,
                )
            },
            ConstantPoolEntry::NameAndTypeDescriptor(name_index, descriptor_index) => {
                let name = Self::get_utf8_string(cp, name_index)?;
                let descriptor = Self::get_utf8_string(cp, descriptor_index)?;
                RuntimeConstantPoolEntry::NameAndTypeDescriptor(name, descriptor)
            },
            ConstantPoolEntry::MethodHandler(reference_kind, reference_index) => {
                let kind = MethodHandlerKind::new(*reference_kind)?;
                let (class_or_interface_name, method_or_field_name, method_or_field_descriptor) =
                    Self::get_field_info_string(cp, reference_index)?;
                RuntimeConstantPoolEntry::MethodHandler(
                    kind,
                    class_or_interface_name,
                    method_or_field_name,
                    method_or_field_descriptor,
                )
            },
            ConstantPoolEntry::MethodType(descriptor_index) => {
                RuntimeConstantPoolEntry::MethodType(Self::get_utf8_string(cp, descriptor_index)?)
            },
            ConstantPoolEntry::Dynamic(bootstrap_method_attr_index, name_and_type_index) => {
                let (name, descriptor) = Self::get_name_and_type_string(cp, name_and_type_index)?;
                RuntimeConstantPoolEntry::Dynamic(*bootstrap_method_attr_index, name, descriptor)
            },
            ConstantPoolEntry::InvokeDynamic(bootstrap_method_attr_index, name_and_type_index) => {
                let (name, descriptor) = Self::get_name_and_type_string(cp, name_and_type_index)?;
                RuntimeConstantPoolEntry::InvokeDynamic(
                    *bootstrap_method_attr_index,
                    name,
                    descriptor,
                )
            },
            ConstantPoolEntry::Module(name_index) => {
                RuntimeConstantPoolEntry::Module(Self::get_utf8_string(cp, name_index)?)
            },
            ConstantPoolEntry::Package(name_index) => {
                RuntimeConstantPoolEntry::Package(Self::get_utf8_string(cp, name_index)?)
            },
        };
        Ok(value)
    }
}

pub enum RuntimeConstantPoolPhysicalEntry {
    Entry(RuntimeConstantPoolEntry),
    PlaceHolder,
}

impl View for RuntimeConstantPoolPhysicalEntry {
    type V = Option<RuntimeConstantView>;

    open spec fn view(&self) -> Option<RuntimeConstantView> {
        match self {
            RuntimeConstantPoolPhysicalEntry::Entry(e) => Some(e@),
            RuntimeConstantPoolPhysicalEntry::PlaceHolder => None,
        }
    }
}

/// The run-time constant pool of a class. Constants are numbered from 1.
pub struct RuntimeConstantPool {
    entries: Vec<RuntimeConstantPoolPhysicalEntry>,
}

impl View for RuntimeConstantPool {
    type V = Seq<Option<RuntimeConstantView>>;

    closed spec fn view(&self) -> Seq<Option<RuntimeConstantView>> {
        Seq::new(self.entries@.len(), |i: int| self.entries@[i]@)
    }
}

/// The error that every failed lookup in a run-time pool returns.
pub open spec fn bad_index(index: u16) -> VmError {
    VmError::ReadClassBytesError(ClassFileError::InvalidConstantPoolIndexError(index))
}

/// The error of a lookup that found a constant of another kind.
pub open spec fn wrong_kind(index: u16) -> VmError {
    VmError::ReadClassBytesError(ClassFileError::InvalidClassData(ClassDataFault::NotUtf8(index)))
}

/// The text of the resolved Utf8 constant at `index`.
pub open spec fn runtime_utf8(pool: Seq<Option<RuntimeConstantView>>, index: u16) -> Result<
    Seq<char>,
    ClassFileError,
> {
    match runtime_constant_at(pool, index as int) {
        Some(RuntimeConstantView::Utf8(text)) => Ok(text),
        Some(_) => Err(ClassFileError::InvalidClassData(ClassDataFault::NotUtf8(index))),
        None => Err(ClassFileError::InvalidConstantPoolIndexError(index)),
    }
}

/// The class name of the resolved class reference at `index`.
pub open spec fn runtime_class_name(pool: Seq<Option<RuntimeConstantView>>, index: u16) -> Result<
    Seq<char>,
    ClassFileError,
> {
    match runtime_constant_at(pool, index as int) {
        Some(RuntimeConstantView::ClassReference(name)) => Ok(name),
        Some(_) => Err(ClassFileError::InvalidClassData(ClassDataFault::NotClassReference(index))),
        None => Err(ClassFileError::InvalidConstantPoolIndexError(index)),
    }
}

impl RuntimeConstantPool {
    /// The number of slots of the pool.
    pub fn len(&self) -> (r: usize)
        ensures
            r == self@.len(),
    {
        self.entries.len()
    }

    fn new() -> (r: RuntimeConstantPool)
        ensures
            r@ == Seq::<Option<RuntimeConstantView>>::empty(),
    {
        let r = RuntimeConstantPool { entries: Vec::new() };
        assert(r@ =~= Seq::<Option<RuntimeConstantView>>::empty());
        r
    }

    /// The text of the string constant at `index`.
    pub fn get_string(&self, index: u16) -> (r: VmExecResult<String>)
        ensures
            match runtime_constant_at(self@, index as int) {
                Some(RuntimeConstantView::StringReference(text)) => r is Ok && r->Ok_0@ == text,
                Some(_) => r == Err::<String, _>(wrong_kind(index)),
                None => r == Err::<String, _>(bad_index(index)),
            },
    {
        match self.get(index) {
            Ok(RuntimeConstantPoolEntry::StringReference(text)) => Ok(text.clone()),
            Ok(_) => Err(
                VmError::ReadClassBytesError(
                    ClassFileError::InvalidClassData(ClassDataFault::NotUtf8(index)),
                ),
            ),
            Err(e) => Err(e),
        }
    }

    /// The text of the Utf8 constant at `index`.
    pub fn get_utf8_string(&self, index: u16) -> (r: VmExecResult<String>)
        ensures
            match runtime_constant_at(self@, index as int) {
                Some(RuntimeConstantView::Utf8(text)) => r is Ok && r->Ok_0@ == text,
                Some(_) => r == Err::<String, _>(wrong_kind(index)),
                None => r == Err::<String, _>(bad_index(index)),
            },
    {
        match self.get(index) {
            Ok(RuntimeConstantPoolEntry::Utf8(text)) => Ok(text.clone()),
            Ok(_) => Err(
                VmError::ReadClassBytesError(
                    ClassFileError::InvalidClassData(ClassDataFault::NotUtf8(index)),
                ),
            ),
            Err(e) => Err(e),
        }
    }

    /// The class name, field name and descriptor of the field reference at
    /// `index`.
    pub fn get_field_name(&self, index: u16) -> (r: VmExecResult<(&str, &str, &str)>)
        ensures
            match runtime_constant_at(self@, index as int) {
                Some(RuntimeConstantView::FieldReference(c, n, d)) => r is Ok && r->Ok_0.0@ == c
                    && r->Ok_0.1@ == n && r->Ok_0.2@ == d,
                Some(_) => r is Err && r->Err_0 == VmError::ReadClassBytesError(
                    ClassFileError::InvalidClassData(ClassDataFault::NotMemberReference(index)),
                ),
                None => r is Err && r->Err_0 == bad_index(index),
            },
    {
        match self.get(index) {
            Ok(RuntimeConstantPoolEntry::FieldReference(class_name, field_name, descriptor)) => Ok(
                (class_name.as_str(), field_name.as_str(), descriptor.as_str()),
            ),
            Ok(_) => Err(
                VmError::ReadClassBytesError(
                    ClassFileError::InvalidClassData(ClassDataFault::NotMemberReference(index)),
                ),
            ),
            Err(e) => Err(e),
        }
    }

    /// The name of the class that the class reference at `index` names.
    pub fn get_class_name(&self, index: u16) -> (r: VmExecResult<&str>)
        ensures
            match runtime_constant_at(self@, index as int) {
                Some(RuntimeConstantView::ClassReference(name)) => r is Ok && r->Ok_0@ == name,
                Some(_) => r is Err && r->Err_0 == VmError::ReadClassBytesError(
                    ClassFileError::InvalidClassData(ClassDataFault::NotClassReference(index)),
                ),
                None => r is Err && r->Err_0 == bad_index(index),
            },
    {
        match self.get(index) {
            Ok(RuntimeConstantPoolEntry::ClassReference(class_name)) => Ok(class_name.as_str()),
            Ok(_) => Err(
                VmError::ReadClassBytesError(
                    ClassFileError::InvalidClassData(ClassDataFault::NotClassReference(index)),
                ),
            ),
            Err(e) => Err(e),
        }
    }

    /// The text of the Utf8 constant at `index`, borrowed.
    pub fn utf8_at(&self, index: u16) -> (r: Result<&str, ClassFileError>)
        ensures
            match runtime_utf8(self@, index) {
                Ok(text) => r is Ok && r->Ok_0@ == text,
                Err(e) => r is Err && r->Err_0 == e,
            },
    {
        match self.get(index) {
            Ok(RuntimeConstantPoolEntry::Utf8(text)) => Ok(text.as_str()),
            Ok(_) => Err(ClassFileError::InvalidClassData(ClassDataFault::NotUtf8(index))),
            Err(_) => Err(ClassFileError::InvalidConstantPoolIndexError(index)),
        }
    }

    /// The name of the class reference at `index`, borrowed.
    pub fn class_name_at(&self, index: u16) -> (r: Result<&str, ClassFileError>)
        ensures
            match runtime_class_name(self@, index) {
                Ok(text) => r is Ok && r->Ok_0@ == text,
                Err(e) => r is Err && r->Err_0 == e,
            },
    {
        match self.get(index) {
            Ok(RuntimeConstantPoolEntry::ClassReference(name)) => Ok(name.as_str()),
            Ok(_) => Err(
                ClassFileError::InvalidClassData(ClassDataFault::NotClassReference(index)),
            ),
            Err(_) => Err(ClassFileError::InvalidConstantPoolIndexError(index)),
        }
    }

    /// The constant at the 1-based `index`. Index 0, an index past the end
    /// and the second slot of a wide constant are refused.
    pub fn get(&self, index: u16) -> (r: VmExecResult<&RuntimeConstantPoolEntry>)
        ensures
            match runtime_constant_at(self@, index as int) {
                Some(c) => r is Ok && r->Ok_0@ == c,
                None => r is Err && r->Err_0 == bad_index(index),
            },
    {
        if index == 0 {
            return Err(
                VmError::ReadClassBytesError(ClassFileError::InvalidConstantPoolIndexError(index)),
            );
        }
        let offset = (index - 1) as usize;
        if offset < self.entries.len() {
            if let RuntimeConstantPoolPhysicalEntry::Entry(entry) = &self.entries[offset] {
                return Ok(entry);
            }
        }
        Err(VmError::ReadClassBytesError(ClassFileError::InvalidConstantPoolIndexError(index)))
    }

    /// Resolves every constant of `cp`, in order.
    pub fn from(cp: &ConstantPool) -> (r: VmExecResult<RuntimeConstantPool>)
        ensures
            match resolve_pool(cp@) {
                Ok(pool) => r is Ok && r->Ok_0@ == pool,
                Err(e) => r is Err && r->Err_0 == VmError::ReadClassBytesError(e),
            },
    {
        let mut runtime_cp = Self::new();
        let mut i: usize = 0;
        while i < cp.entries.len()
            invariant
                i <= cp.entries.len(),
                cp@.len() == cp.entries.len(),
                resolve_pool(cp@) == resolve_pool_from(cp@, i as int, runtime_cp@),
            decreases cp.entries.len() - i,
        {
            let ghost before = runtime_cp@;
            let runtime_entry = match &cp.entries[i] {
                ConstantPoolPhysicalEntry::Entry(e) => {
                    assert(cp@[i as int] == Some(e@));
                    RuntimeConstantPoolPhysicalEntry::Entry(RuntimeConstantPoolEntry::from(cp, e)?)
                },
                ConstantPoolPhysicalEntry::PlaceHolder => {
                    assert(cp@[i as int] is None);
                    RuntimeConstantPoolPhysicalEntry::PlaceHolder
                },
            };
            runtime_cp.entries.push(runtime_entry);
            assert(runtime_cp@ =~= before.push(runtime_entry@));
            i += 1;
        }
        Ok(runtime_cp)
    }
}

} // verus!
