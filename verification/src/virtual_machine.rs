//! The machine: the method area, the heaps, the static area and the
//! native methods, and the operations that bind them together.
use vstd::prelude::*;
use crate::class_finder::ClassPath;
use crate::jvm_error::{VmError, VmExecResult};
use crate::jvm_values::{
    ArrayElement, ArrayHeader, ArrayReference, ObjectReference, PrimaryType, ReferenceValueType,
    Value,
};
use crate::loaded_class::{field_position, method_position, Class, ClassRef, ClassStatus, MethodRef};
use crate::method_area::{class_position, evolved, field_site, lemma_evolved_transitive, MethodArea};
use crate::native_method_area::NativeMethodArea;
use crate::object_heap::{
    descriptor_kind, element_kind, slot_value, slot_word, zero_of_descriptor, descriptor_zero,
    ObjectHeap, MAIN_REGION, STATIC_REGION,
};
use crate::runtime_attribute_info::{ConstantValueAttribute, ConstantValueView};
use crate::seq_view::views;
use crate::stack::CallStack;
use crate::static_field_area::StaticArea;
use crate::text::{begins_with, starts_with_char, str_eq, utf16_of, utf16_units};

verus! {

/// The size of the heap that holds interned strings and class mirrors.
pub const STATIC_HEAP_SIZE: usize = 0x10_0000;

pub struct VirtualMachine {
    pub method_area: MethodArea,
    pub object_heap: ObjectHeap,
    pub static_area: StaticArea,
    pub native_method_area: NativeMethodArea,
}

/// The name under which a class is looked up: array classes stand under
/// `java/lang/Object`, whose methods they have.
pub open spec fn canonical_name(name: Seq<char>) -> Seq<char> {
    if begins_with(name, '[') {
        "java/lang/Object"@
    } else {
        name
    }
}

pub fn canonical(name: &str) -> (r: &str)
    ensures
        r@ == canonical_name(name@),
{
    if starts_with_char(name, '[') {
        "java/lang/Object"
    } else {
        name
    }
}

impl VirtualMachine {
    /// The invariant of the machine.
    pub open spec fn wf(&self) -> bool {
        &&& self.method_area.wf()
        &&& self.object_heap.wf()
        &&& self.object_heap.region() == MAIN_REGION
        &&& self.static_area.wf()
    }

    /// What every operation of the machine keeps: the invariant; the
    /// classes, which keep their handles and only move forward; the
    /// class paths and the sizes of the heaps; what is allocated and
    /// what is interned.
    pub open spec fn advances(&self, after: &VirtualMachine) -> bool {
        &&& after.wf()
        &&& evolved(self.method_area@, after.method_area@)
        &&& after.method_area.class_paths() == self.method_area.class_paths()
        &&& after.object_heap.limit() == self.object_heap.limit()
        &&& after.static_area.static_object_heap.limit()
            == self.static_area.static_object_heap.limit()
        &&& after.object_heap.words().len() >= self.object_heap.words().len()
        &&& after.static_area.static_object_heap.words().len()
            >= self.static_area.static_object_heap.words().len()
        &&& forall|text: Seq<char>|
            self.static_area.string_of(text) is Some ==> after.static_area.string_of(text)
                == self.static_area.string_of(text)
        &&& forall|name: Seq<char>|
            self.static_area.mirror_of(name) is Some ==> after.static_area.mirror_of(name)
                == self.static_area.mirror_of(name)
        &&& after.native_method_area == self.native_method_area
    }

    /// Whether `after` is this machine as it is: the same classes,
    /// class paths, heaps, static area and native methods.
    pub open spec fn unchanged(&self, after: &VirtualMachine) -> bool {
        &&& after.method_area@ == self.method_area@
        &&& after.method_area.class_paths() == self.method_area.class_paths()
        &&& after.object_heap == self.object_heap
        &&& after.static_area == self.static_area
        &&& after.native_method_area == self.native_method_area
    }

    pub proof fn lemma_advances_reflexive(&self)
        requires
            self.wf(),
        ensures
            self.advances(self),
    {
    }

    pub proof fn lemma_advances_transitive(&self, middle: &VirtualMachine, after: &VirtualMachine)
        requires
            self.advances(middle),
            middle.advances(after),
        ensures
            self.advances(after),
    {
        lemma_evolved_transitive(self.method_area@, middle.method_area@, after.method_area@);
    }

    /// A machine with a heap of `heap_size` bytes, without classes and
    /// class paths, and with the native methods that every machine has.
    pub fn new(heap_size: usize) -> (r: VirtualMachine)
        ensures
            r.wf(),
            r.method_area@.len() == 0,
            r.method_area.class_paths() == 0,
            r.object_heap.words().len() == 0,
            r.object_heap.limit() == heap_size,
            r.static_area.static_object_heap.limit() == STATIC_HEAP_SIZE,
            forall|text: Seq<char>| r.static_area.string_of(text) is None,
            forall|name: Seq<char>| r.static_area.mirror_of(name) is None,
            r.native_method_area@ == crate::native_method_area::default_natives(),
    {
        VirtualMachine {
            method_area: MethodArea::new(),
            object_heap: ObjectHeap::new(heap_size),
            static_area: StaticArea::new(STATIC_HEAP_SIZE),
            native_method_area: NativeMethodArea::new_with_default_native(),
        }
    }

    /// Adds a class path behind those that are asked already.
    pub fn add_class_path(&mut self, class_path: Box<dyn ClassPath>)
        requires
            old(self).wf(),
        ensures
            final(self).wf(),
            final(self).method_area@ == old(self).method_area@,
            final(self).method_area.class_paths() == old(self).method_area.class_paths() + 1,
            final(self).method_area.paths().drop_last() == old(self).method_area.paths(),
            final(self).object_heap == old(self).object_heap,
            final(self).static_area == old(self).static_area,
            final(self).native_method_area == old(self).native_method_area,
    {
        self.method_area.add_class_path(class_path);
    }

    /// An empty call stack for this machine.
    pub fn allocate_call_stack(&mut self) -> (r: CallStack)
        ensures
            *final(self) == *old(self),
            r.wf(),
            r.frames@.len() == 0,
    {
        CallStack::new()
    }

    /// Whether a frame executes a method of the machine within the
    /// limits of that method: the method has code, the operand stack of
    /// the frame has room for as many values as the method allows, and
    /// the frame has as many local variables as the method has.
    pub open spec fn frame_fits(&self, frame: crate::stack_frame::StackFrame) -> bool {
        &&& frame.wf()
        &&& frame.class_ref < self.method_area@.len()
        &&& frame.method_ref < self.method_area@[frame.class_ref as int].methods@.len()
        &&& self.method_area@[frame.class_ref as int].methods@[frame.method_ref as int].code matches Some(
            code,
        ) && frame.op_stack.capacity() == code.max_stack && frame.local_var_table@.len()
            == code.max_locals
    }

    /// Whether every frame of a call stack fits, and the stack is sound.
    pub open spec fn stack_fits(&self, stack: &CallStack) -> bool {
        &&& stack.wf()
        &&& forall|i: int|
            0 <= i < stack.frames@.len() ==> self.frame_fits(#[trigger] stack.frames@[i])
    }

    /// A frame that fits goes on fitting while the machine advances.
    pub proof fn lemma_fits_preserved(&self, after: &VirtualMachine, frame: crate::stack_frame::StackFrame)
        requires
            self.advances(after),
            self.frame_fits(frame),
        ensures
            after.frame_fits(frame),
    {
        let c = frame.class_ref as int;
        assert(after.method_area@[c] == (Class {
            status: after.method_area@[c].status,
            ..self.method_area@[c]
        }));
    }

    /// A call stack that fits goes on fitting while the machine
    /// advances.
    pub proof fn lemma_stack_fits_preserved(&self, after: &VirtualMachine, stack: &CallStack)
        requires
            self.advances(after),
            self.stack_fits(stack),
        ensures
            after.stack_fits(stack),
    {
        assert forall|i: int| 0 <= i < stack.frames@.len() implies after.frame_fits(
            #[trigger] stack.frames@[i],
        ) by {
            self.lemma_fits_preserved(after, stack.frames@[i]);
        }
    }

    /// Whether a class can be handed to the operations of the machine:
    /// it is loaded and linking is complete.
    pub open spec fn usable(&self, class_ref: ClassRef) -> bool {
        class_ref < self.method_area@.len() && self.method_area@[class_ref as int].status.is_linked()
    }

    /// The class under `class_ref`, if it can be used. A handle of no
    /// class is refused with `ClassFormatError`, a class that is not
    /// linked with `NoClassDefFoundError` and its name.
    pub fn usable_class(&self, class_ref: ClassRef) -> (r: VmExecResult<&Class>)
        ensures
            self.usable(class_ref) ==> r is Ok && *r->Ok_0 == self.method_area@[class_ref as int],
            !self.usable(class_ref) ==> r is Err,
            class_ref >= self.method_area@.len() ==> r is Err && r->Err_0
                == VmError::ClassFormatError,
            class_ref < self.method_area@.len() && !self.usable(class_ref) ==> (r matches Err(
                VmError::NoClassDefFoundError(n),
            ) && n@ == self.method_area@[class_ref as int].name@),
    {
        match self.method_area.get(class_ref) {
            None => Err(VmError::ClassFormatError),
            Some(class) => {
                if class.status.linked() {
                    Ok(class)
                } else {
                    Err(VmError::NoClassDefFoundError(class.name.clone()))
                }
            },
        }
    }

    /// The heap on which `address` lies.
    pub open spec fn heap_of(&self, address: u64) -> ObjectHeap {
        if address % 8 == STATIC_REGION {
            self.static_area.static_object_heap
        } else {
            self.object_heap
        }
    }

    /// The heap on which `address` does not lie.
    pub open spec fn other_heap_of(&self, address: u64) -> ObjectHeap {
        if address % 8 == STATIC_REGION {
            self.object_heap
        } else {
            self.static_area.static_object_heap
        }
    }

    fn heap_for(&self, address: u64) -> (r: &ObjectHeap)
        requires
            self.wf(),
        ensures
            *r == self.heap_of(address),
            r.wf(),
    {
        if self.static_area.static_object_heap.covers(address) {
            &self.static_area.static_object_heap
        } else {
            &self.object_heap
        }
    }

    /// The class of an object.
    pub fn get_class_of(&self, object: &ObjectReference) -> (r: VmExecResult<ClassRef>)
        requires
            self.wf(),
        ensures
            match self.heap_of(object.address).class_word(*object) {
                Some(c) => r == Ok::<_, VmError>(c as usize),
                None => r == Err::<ClassRef, _>(VmError::IndexOutOfBounds),
            },
    {
        self.heap_for(object.address).get_class(object)
    }

    /// The element type and the length of an array.
    pub fn get_array_header(&self, array: &ArrayReference) -> (r: VmExecResult<ArrayHeader>)
        requires
            self.wf(),
        ensures
            match self.heap_of(array.address).array_shape(*array) {
                Some((element, length)) => r matches Ok(h) && h.element == element && h.array_size
                    == length,
                None => r matches Err(e) && e == VmError::IndexOutOfBounds,
            },
    {
        self.heap_for(array.address).get_array_header(array)
    }

    /// The element at position `index` of an array, read as the element
    /// type of the array says. What is no array on a heap, and a
    /// position outside the array, give `IndexOutOfBounds`.
    pub open spec fn element_at(&self, array: ArrayReference, index: int) -> VmExecResult<Value> {
        match self.heap_of(array.address).array_shape(array) {
            None => Err(VmError::IndexOutOfBounds),
            Some((element, length)) => match self.heap_of(array.address).slot_position(
                array.address,
                ReferenceValueType::Array,
                index,
            ) {
                Some(p) => slot_value(element_kind(element), self.heap_of(array.address).words()[p]),
                None => Err(VmError::IndexOutOfBounds),
            },
        }
    }

    /// Reads an element of an array.
    pub fn array_get(&self, array: &ArrayReference, index: usize) -> (r: VmExecResult<Value>)
        requires
            self.wf(),
        ensures
            r == self.element_at(*array, index as int),
    {
        self.heap_for(array.address).get_field_by_offset(array, index)
    }

    /// Whether `r` and the machine `after` are what writing `value` to
    /// the element at position `index` of an array comes to. What is
    /// no array on a heap, and a position outside the array, give
    /// `IndexOutOfBounds`, and a value that the elements cannot hold
    /// `ValueTypeMissMatch`; then no word of a heap changes. Else the
    /// slot of the element holds the value, and no other word changes.
    /// The classes, the static fields and what is interned stay as
    /// they are.
    pub open spec fn element_written(
        &self,
        array: ArrayReference,
        index: int,
        value: Value,
        after: &VirtualMachine,
        r: VmExecResult<()>,
    ) -> bool {
        &&& after.method_area == self.method_area
        &&& self.same_interned(after)
        &&& after.native_method_area == self.native_method_area
        &&& after.other_heap_of(array.address) == self.other_heap_of(array.address)
        &&& after.heap_of(array.address).limit() == self.heap_of(array.address).limit()
        &&& after.heap_of(array.address).region() == self.heap_of(array.address).region()
        &&& r is Err ==> after.heap_of(array.address).words() == self.heap_of(
            array.address,
        ).words()
        &&& match self.heap_of(array.address).array_shape(array) {
            None => r == Err::<(), _>(VmError::IndexOutOfBounds),
            Some((element, length)) => match self.heap_of(array.address).slot_position(
                array.address,
                ReferenceValueType::Array,
                index,
            ) {
                None => r == Err::<(), _>(VmError::IndexOutOfBounds),
                Some(p) => match slot_word(element_kind(element), value) {
                    Err(e) => r == Err::<(), _>(e),
                    Ok(word) => r is Ok && after.heap_of(array.address).words() == self.heap_of(
                        array.address,
                    ).words().update(p, word),
                },
            },
        }
    }

    /// Writes an element of an array.
    pub fn array_set(&mut self, array: &ArrayReference, index: usize, value: &Value) -> (r:
        VmExecResult<()>)
        requires
            old(self).wf(),
        ensures
            old(self).advances(final(self)),
            final(self).method_area == old(self).method_area,
            old(self).same_interned(final(self)),
            old(self).element_written(*array, index as int, *value, final(self), r),
            final(self).other_heap_of(array.address) == old(self).other_heap_of(array.address),
            r is Err ==> final(self).object_heap.words() == old(self).object_heap.words() && final(self).static_area.static_object_heap.words() == old(self).static_area.static_object_heap.words(),
    {
        if self.static_area.static_object_heap.covers(array.address) {
            self.static_area.static_object_heap.set_field_by_offset(array, index, value)
        } else {
            self.object_heap.set_field_by_offset(array, index, value)
        }
    }

    /// What stays as it was where only heaps change: the static fields
    /// and what is interned.
    pub open spec fn same_interned(&self, after: &VirtualMachine) -> bool {
        &&& after.static_area.fields == self.static_area.fields
        &&& after.static_area.string_constant_pool == self.static_area.string_constant_pool
        &&& after.static_area.class_constant_pool == self.static_area.class_constant_pool
    }

    /// Reads the slot of an instance field.
    pub fn read_field(&self, object: &ObjectReference, offset: usize, descriptor: &str) -> (r:
        VmExecResult<Value>)
        requires
            self.wf(),
        ensures
            offset == 0 ==> r == Err::<Value, _>(VmError::IndexOutOfBounds),
            offset > 0 ==> (match self.heap_of(object.address).slot_position(
                object.address,
                ReferenceValueType::Object,
                offset - 1,
            ) {
                Some(p) => r == slot_value(
                    descriptor_kind(descriptor@),
                    self.heap_of(object.address).words()[p],
                ),
                None => r == Err::<Value, _>(VmError::IndexOutOfBounds),
            }),
    {
        self.heap_for(object.address).read_value_at_offset(object, offset, descriptor)
    }

    /// Writes the slot of an instance field.
    pub fn write_field(
        &mut self,
        object: &ObjectReference,
        offset: usize,
        descriptor: &str,
        value: &Value,
    ) -> (r: VmExecResult<()>)
        requires
            old(self).wf(),
        ensures
            old(self).advances(final(self)),
            final(self).method_area == old(self).method_area,
            old(self).same_interned(final(self)),
            offset == 0 ==> r == Err::<(), _>(VmError::IndexOutOfBounds),
            offset > 0 ==> (match old(self).heap_of(object.address).slot_position(
                object.address,
                ReferenceValueType::Object,
                offset - 1,
            ) {
                None => r == Err::<(), _>(VmError::IndexOutOfBounds),
                Some(p) => match slot_word(descriptor_kind(descriptor@), *value) {
                    Err(e) => r == Err::<(), _>(e),
                    Ok(word) => r is Ok && final(self).heap_of(object.address).words() == old(self).heap_of(object.address).words().update(p, word),
                },
            }),
            r is Err ==> final(self).object_heap.words() == old(self).object_heap.words() && final(self).static_area.static_object_heap.words() == old(self).static_area.static_object_heap.words(),
    {
        if self.static_area.static_object_heap.covers(object.address) {
            self.static_area.static_object_heap.write_value_at_offset(
                object,
                offset,
                descriptor,
                value,
            )
        } else {
            self.object_heap.write_value_at_offset(object, offset, descriptor, value)
        }
    }

    /// The class that declares the instance field `name` of an object,
    /// and the position of the field among the fields of that class.
    /// The field is looked for in the class of the object and then in
    /// its super classes.
    pub open spec fn field_of(&self, object: ObjectReference, name: Seq<char>) -> Option<
        crate::method_area::FieldSite,
    > {
        match self.heap_of(object.address).class_word(object) {
            None => None,
            Some(c) => field_site(self.method_area@, c as int, name),
        }
    }

    /// The position, among the words of its heap, of the slot of an
    /// instance field of an object, where the object has the slot.
    pub open spec fn field_slot(&self, object: ObjectReference, name: Seq<char>) -> Option<
        int,
    > {
        match self.field_of(object, name) {
            None => None,
            Some(site) => {
                let field = self.method_area@[site.class as int].fields@[site.field as int];
                if field.offset > 0 {
                    self.heap_of(object.address).slot_position(
                        object.address,
                        ReferenceValueType::Object,
                        field.offset - 1,
                    )
                } else {
                    None
                }
            },
        }
    }

    /// How the slot of an instance field of an object is read and
    /// written: as the descriptor of the field says.
    pub open spec fn field_kind(&self, object: ObjectReference, name: Seq<char>) -> crate::object_heap::SlotKind {
        let site = self.field_of(object, name)->0;
        descriptor_kind(self.method_area@[site.class as int].fields@[site.field as int].descriptor@)
    }

    /// The value of the instance field `name` of an object, where the
    /// object has the field and the slot of the field holds a value of
    /// the type of the field.
    pub open spec fn field_value(&self, object: ObjectReference, name: Seq<char>) -> Option<Value> {
        match self.field_slot(object, name) {
            Some(p) => match slot_value(
                self.field_kind(object, name),
                self.heap_of(object.address).words()[p],
            ) {
                Ok(value) => Some(value),
                Err(_) => None,
            },
            None => None,
        }
    }

    /// Reading a field gives the value of the field, and fails where
    /// the field has none.
    pub proof fn lemma_field_read(&self, object: ObjectReference, name: Seq<char>, r: VmExecResult<
        Value,
    >)
        requires
            self.field_read(object, name, r),
        ensures
            match r {
                Ok(value) => self.field_value(object, name) == Some(value),
                Err(_) => self.field_value(object, name) is None,
            },
    {
    }

    /// Whether `r` is what reading the instance field `name` of an
    /// object comes to: what is not an object on a heap gives
    /// `IndexOutOfBounds`, a class without such a field
    /// `FieldNotFoundException` with the name, and an object without the
    /// slot of the field `IndexOutOfBounds`; else the value is that of
    /// the slot.
    pub open spec fn field_read(&self, object: ObjectReference, name: Seq<char>, r: VmExecResult<
        Value,
    >) -> bool {
        if self.heap_of(object.address).class_word(object) is None {
            r == Err::<Value, _>(VmError::IndexOutOfBounds)
        } else if self.field_of(object, name) is None {
            r matches Err(VmError::FieldNotFoundException(n)) && n@ == name
        } else {
            match self.field_slot(object, name) {
                None => r == Err::<Value, _>(VmError::IndexOutOfBounds),
                Some(p) => r == slot_value(
                    self.field_kind(object, name),
                    self.heap_of(object.address).words()[p],
                ),
            }
        }
    }

    /// Reads the instance field `name` of an object; the field is looked
    /// for in the class of the object and then in its super classes.
    pub fn get_field_by_name(&self, object: &ObjectReference, name: &str) -> (r: VmExecResult<
        Value,
    >)
        requires
            self.wf(),
        ensures
            self.field_read(*object, name@, r),
    {
        let class = self.get_class_of(object)?;
        let (owner, field) = self.method_area.get_field_by_name(class, name)?;
        let info = &self.method_area.class(owner).fields[field];
        self.read_field(object, info.offset, info.descriptor.as_str())
    }

    /// Whether `r` and the machine `after` are what writing `value` to
    /// the instance field `name` of an object comes to. The errors are
    /// those of reading the field, and `ValueTypeMissMatch` for a value
    /// that the field cannot hold; then no word of a heap changes. Else
    /// the slot of the field holds the value, and no other word
    /// changes.
    pub open spec fn field_written(
        &self,
        object: ObjectReference,
        name: Seq<char>,
        value: Value,
        after: &VirtualMachine,
        r: VmExecResult<()>,
    ) -> bool {
        &&& r is Err ==> after.object_heap.words() == self.object_heap.words()
            && after.static_area.static_object_heap.words()
            == self.static_area.static_object_heap.words()
        &&& if self.heap_of(object.address).class_word(object) is None {
            r == Err::<(), _>(VmError::IndexOutOfBounds)
        } else if self.field_of(object, name) is None {
            r matches Err(VmError::FieldNotFoundException(n)) && n@ == name
        } else {
            match self.field_slot(object, name) {
                None => r == Err::<(), _>(VmError::IndexOutOfBounds),
                Some(p) => match slot_word(self.field_kind(object, name), value) {
                    Err(e) => r == Err::<(), _>(e),
                    Ok(word) => r is Ok && after.heap_of(object.address).words() == self.heap_of(
                        object.address,
                    ).words().update(p, word) && after.other_heap_of(object.address)
                        == self.other_heap_of(object.address),
                },
            }
        }
    }

    /// Writes the instance field `name` of an object.
    pub fn set_field_by_name(&mut self, object: &ObjectReference, name: &str, value: &Value) -> (r:
        VmExecResult<()>)
        requires
            old(self).wf(),
        ensures
            old(self).advances(final(self)),
            final(self).method_area == old(self).method_area,
            old(self).same_interned(final(self)),
            old(self).field_written(*object, name@, *value, final(self), r),
    {
        let class = self.get_class_of(object)?;
        let (owner, field) = self.method_area.get_field_by_name(class, name)?;
        let info = &self.method_area.class(owner).fields[field];
        let offset = info.offset;
        let kind = crate::object_heap::kind_of_descriptor(info.descriptor.as_str());
        if offset == 0 {
            return Err(VmError::IndexOutOfBounds);
        }
        if self.static_area.static_object_heap.covers(object.address) {
            self.static_area.static_object_heap.write_slot(
                object.address,
                ReferenceValueType::Object,
                offset - 1,
                kind,
                value,
            )
        } else {
            self.object_heap.write_slot(
                object.address,
                ReferenceValueType::Object,
                offset - 1,
                kind,
                value,
            )
        }
    }

    /// The address of the next object or array that is allocated.
    pub open spec fn next_address(&self) -> u64 {
        (8 * self.object_heap.words().len() + 8) as u64
    }

    /// Whether `after` is this machine with one more object on its
    /// heap, behind everything else: an object of the class under
    /// `class_ref`, with all its slots zero.
    pub open spec fn object_allocated(&self, class_ref: ClassRef, after: &VirtualMachine) -> bool {
        let slots = self.method_area@[class_ref as int].total_num_of_fields;
        &&& after.method_area@ == self.method_area@
        &&& after.static_area == self.static_area
        &&& after.object_heap.words() == self.object_heap.words() + seq![
            crate::jvm_values::header_word(ReferenceValueType::Object, 16 + 8 * slots),
            class_ref as u64,
        ] + crate::object_heap::zeros(slots as int)
    }

    /// Whether `after` is this machine with one more array on its heap,
    /// behind everything else: an array of `length` elements of the
    /// type `element`, all of them zero.
    pub open spec fn array_allocated(
        &self,
        element: ArrayElement,
        length: int,
        after: &VirtualMachine,
    ) -> bool {
        &&& after.method_area@ == self.method_area@
        &&& after.static_area == self.static_area
        &&& after.object_heap.words() == self.object_heap.words() + seq![
            crate::jvm_values::header_word(ReferenceValueType::Array, 24 + 8 * length),
            element.code() as u64,
            length as u64,
        ] + crate::object_heap::zeros(length)
    }

    /// Whether `after` is this machine with the same classes, static
    /// area and words on its heap.
    pub open spec fn nothing_allocated(&self, after: &VirtualMachine) -> bool {
        &&& after.method_area@ == self.method_area@
        &&& after.static_area == self.static_area
        &&& after.object_heap.words() == self.object_heap.words()
    }

    /// Allocates an object of a class that is linked. A class that is
    /// not is refused; a full heap gives `OutOfMemory`.
    pub fn new_object(&mut self, class_ref: ClassRef) -> (r: VmExecResult<ObjectReference>)
        requires
            old(self).wf(),
        ensures
            old(self).advances(final(self)),
            final(self).method_area == old(self).method_area,
            final(self).static_area == old(self).static_area,
            !old(self).usable(class_ref) ==> r is Err && final(self).object_heap == old(self).object_heap,
            old(self).usable(class_ref) ==> ({
                let slots = old(self).method_area@[class_ref as int].total_num_of_fields;
                if old(self).object_heap.object_fits(slots as int) {
                    r matches Ok(object) && object.address == 8 * old(self).object_heap.words().len() + 8 + MAIN_REGION && final(self).object_heap.words() == old(self).object_heap.words() + seq![
                        crate::jvm_values::header_word(ReferenceValueType::Object, 16 + 8 * slots),
                        class_ref as u64,
                    ] + crate::object_heap::zeros(slots as int) && final(self).heap_of(
                        object.address,
                    ).class_word(object) == Some(class_ref as u64)
                } else {
                    r == Err::<ObjectReference, _>(VmError::OutOfMemory) && final(self).object_heap.words() == old(self).object_heap.words()
                }
            }),
    {
        let slots = self.usable_class(class_ref)?.total_num_of_fields;
        match self.object_heap.allocate_object(class_ref, slots) {
            Some(object) => {
                proof {
                    let first = old(self).object_heap.words().len() as int;
                    assert(self.object_heap.first_word(object.address) == first);
                    assert(self.object_heap.words()[first] == crate::jvm_values::header_word(
                        ReferenceValueType::Object,
                        16 + 8 * slots,
                    ));
                    assert(self.object_heap.words()[first + 1] == class_ref as u64);
                    crate::jvm_values::lemma_header_round_trip(
                        ReferenceValueType::Object,
                        16 + 8 * slots,
                    );
                }
                Ok(object)
            },
            None => Err(VmError::OutOfMemory),
        }
    }

    /// Allocates an array. A full heap, and an element type that no
    /// array header can record, give `OutOfMemory`.
    pub fn new_array(&mut self, array_element: &ArrayElement, length: usize) -> (r: VmExecResult<
        ArrayReference,
    >)
        requires
            old(self).wf(),
        ensures
            old(self).advances(final(self)),
            final(self).method_area == old(self).method_area,
            final(self).static_area == old(self).static_area,
            old(self).object_heap.array_fits(*array_element, length as int) ==> (r matches Ok(array)
                && array.address == 8 * old(self).object_heap.words().len() + 8 + MAIN_REGION)
                && final(self).object_heap.words() == old(self).object_heap.words() + seq![
                crate::jvm_values::header_word(ReferenceValueType::Array, 24 + 8 * length),
                array_element.code() as u64,
                length as u64,
            ] + crate::object_heap::zeros(length as int),
            r matches Ok(array) ==> array.address % 8 == 0 && final(self).object_heap.array_shape(
                array,
            ) == Some((*array_element, length)),
            !old(self).object_heap.array_fits(*array_element, length as int) ==> r == Err::<
                ArrayReference,
                _,
            >(VmError::OutOfMemory) && final(self).object_heap.words() == old(self).object_heap.words(),
    {
        match self.object_heap.allocate_array(array_element, length) {
            Some(array) => {
                proof {
                    let first = old(self).object_heap.words().len() as int;
                    assert(self.object_heap.first_word(array.address) == first);
                    assert(self.object_heap.words()[first] == crate::jvm_values::header_word(
                        ReferenceValueType::Array,
                        24 + 8 * length,
                    ));
                    assert(self.object_heap.words()[first + 1] == array_element.code() as u64);
                    assert(self.object_heap.words()[first + 2] == length as u64);
                    crate::jvm_values::lemma_header_round_trip(
                        ReferenceValueType::Array,
                        24 + 8 * length,
                    );
                    crate::jvm_values::lemma_element_round_trip(*array_element);
                }
                Ok(array)
            },
            None => Err(VmError::OutOfMemory),
        }
    }

    /// The value of a static field of a class.
    pub fn get_static(&self, class_ref: ClassRef, field_name: &str) -> (r: Option<Value>)
        ensures
            r == self.static_area.value_of(class_ref, field_name@),
    {
        self.static_area.get_static_field(class_ref, field_name)
    }

    /// Whether `after` is this machine with the value `value` in the
    /// static field `name` of a class, and everything else as it is.
    pub open spec fn static_written(
        &self,
        class_ref: ClassRef,
        name: Seq<char>,
        value: Value,
        after: &VirtualMachine,
    ) -> bool {
        &&& after.method_area@ == self.method_area@
        &&& after.method_area.class_paths() == self.method_area.class_paths()
        &&& after.object_heap == self.object_heap
        &&& after.native_method_area == self.native_method_area
        &&& after.static_area.static_object_heap == self.static_area.static_object_heap
        &&& after.static_area.string_constant_pool == self.static_area.string_constant_pool
        &&& after.static_area.class_constant_pool == self.static_area.class_constant_pool
        &&& after.static_area.value_of(class_ref, name) == Some(value)
        &&& forall|class: ClassRef, other: Seq<char>|
            !(class == class_ref && other == name) ==> after.static_area.value_of(class, other)
                == self.static_area.value_of(class, other)
    }

    /// Gives a static field of a linked class a value.
    pub fn set_static(&mut self, class_ref: ClassRef, field_name: &str, value: Value) -> (r:
        VmExecResult<()>)
        requires
            old(self).wf(),
        ensures
            old(self).advances(final(self)),
            final(self).method_area == old(self).method_area,
            final(self).object_heap == old(self).object_heap,
            r is Ok <==> old(self).usable(class_ref),
            r is Ok ==> old(self).static_written(class_ref, field_name@, value, final(self)),
            r is Err ==> final(self).static_area == old(self).static_area,
    {
        self.usable_class(class_ref)?;
        self.static_area.set_static_field(class_ref, field_name, value);
        Ok(())
    }
}


/// A UTF-16 code unit that is stored as an integer comes back as it
/// went in.
pub proof fn lemma_unit_kept(unit: u16)
    ensures
        slot_word(crate::object_heap::SlotKind::Char, Value::Int(unit as i32)) == Ok::<
            _,
            VmError,
        >(unit as u64),
        slot_value(crate::object_heap::SlotKind::Char, unit as u64) == Ok::<_, VmError>(
            Value::Int(unit as i32),
        ),
        (unit as i32) as u16 == unit,
{
    assert(((unit as i32) as u16) as i32 == unit as i32);
    assert(((unit as u64) as u32) as i32 == unit as i32);
}

impl VirtualMachine {
    /// Whether a string object can be made for `text`, where the class
    /// of strings is the class under `string_class`: the heap has room
    /// for an array of its UTF-16 code units, the heap of the static
    /// area has room for a string object, and string objects have a
    /// slot for a field `hash` that holds an integer and for a field
    /// `value` that holds the array.
    pub open spec fn string_fits(&self, string_class: ClassRef, text: Seq<char>) -> bool {
        &&& self.object_heap.array_fits(
            ArrayElement::PrimaryValue(PrimaryType::Char),
            utf16_of(text).len() as int,
        )
        &&& self.static_area.static_object_heap.object_fits(
            self.method_area@[string_class as int].total_num_of_fields as int,
        )
        &&& self.field_takes(string_class, "hash"@, Value::Int(0))
        &&& self.field_takes(
            string_class,
            "value"@,
            Value::ArrayRef(ArrayReference { address: self.next_address() }),
        )
    }

    /// Whether `after` is this machine with a new string object for a
    /// text of `units` UTF-16 code units: the array of the units is
    /// allocated next on the heap, and the string object, of the class
    /// under `string_class`, next on the heap of the static area; its
    /// field `value` is the array.
    pub open spec fn string_made(
        &self,
        string_class: ClassRef,
        units: int,
        after: &VirtualMachine,
        object: ObjectReference,
    ) -> bool {
        &&& object.address == 8 * self.static_area.static_object_heap.words().len() + 8
            + STATIC_REGION
        &&& after.object_heap.words().len() == self.object_heap.words().len() + 3 + units
        &&& after.static_area.static_object_heap.words().len()
            == self.static_area.static_object_heap.words().len() + 2
            + self.method_area@[string_class as int].total_num_of_fields
        &&& after.field_value(object, "value"@) == Some(
            Value::ArrayRef(ArrayReference { address: self.next_address() }),
        )
        &&& after.heap_of(object.address).class_word(object) == Some(string_class as u64)
        &&& after.static_area.static_object_heap.words().subrange(
            0,
            self.static_area.static_object_heap.words().len() as int,
        ) == self.static_area.static_object_heap.words()
        &&& after.object_heap.words().subrange(0, self.object_heap.words().len() as int)
            == self.object_heap.words()
    }

    /// The class `java/lang/Class`, where it is loaded.
    pub open spec fn mirror_class(&self) -> ClassRef {
        class_position(self.method_area@, "java/lang/Class"@, 0)->0 as usize
    }

    /// The string object of the name of a class for the mirror of the
    /// class: the one that is interned for the name, and else the one
    /// that is made behind the mirror on the heap of the static area.
    pub open spec fn mirror_text(&self, name: Seq<char>) -> ObjectReference {
        match self.static_area.string_of(name) {
            Some(known) => known,
            None => ObjectReference {
                address: (8 * (self.static_area.static_object_heap.words().len() + 2
                    + self.method_area@[self.mirror_class() as int].total_num_of_fields) + 8
                    + STATIC_REGION) as u64,
            },
        }
    }

    /// Whether a mirror can be made for the class called `name`
    /// without loading or linking a class: the classes
    /// `java/lang/Class` and, where the name is not interned,
    /// `java/lang/String` are linked; the heaps have room for the
    /// mirror and for the string of the name, where that is to be made;
    /// and mirrors have a slot for a field `name` that holds the
    /// string.
    pub open spec fn can_mirror(&self, name: Seq<char>) -> bool {
        let mirror_slots = self.method_area@[self.mirror_class() as int].total_num_of_fields;
        let string_slots = self.method_area@[self.string_class() as int].total_num_of_fields;
        let statics = self.static_area.static_object_heap;
        &&& class_position(self.method_area@, "java/lang/Class"@, 0) matches Some(c)
            && self.method_area@[c].status.is_linked()
        &&& statics.object_fits(mirror_slots as int)
        &&& self.static_area.string_of(name) is None ==> {
            &&& self.string_class_linked()
            &&& self.object_heap.array_fits(
                ArrayElement::PrimaryValue(PrimaryType::Char),
                utf16_of(name).len() as int,
            )
            &&& 16 + 8 * string_slots <= crate::jvm_values::MAX_ALLOCATION
            &&& 8 * (statics.words().len() + 2 + mirror_slots) + 16 + 8 * string_slots
                <= statics.limit()
            &&& self.field_takes(self.string_class(), "hash"@, Value::Int(0))
            &&& self.field_takes(
                self.string_class(),
                "value"@,
                Value::ArrayRef(ArrayReference { address: self.next_address() }),
            )
        }
        &&& self.field_takes(
            self.mirror_class(),
            "name"@,
            Value::ObjectRef(self.mirror_text(name)),
        )
    }

    /// The class `java/lang/String`, where it is loaded.
    pub open spec fn string_class(&self) -> ClassRef {
        class_position(self.method_area@, "java/lang/String"@, 0)->0 as usize
    }

    /// Whether a string object can be made for `text` without loading
    /// or linking a class: the class `java/lang/String` is linked, and
    /// the heaps and the class have room for it, as `string_fits` says.
    pub open spec fn can_intern(&self, text: Seq<char>) -> bool {
        self.string_class_linked() && self.string_fits(self.string_class(), text)
    }

    /// Whether the class `java/lang/String` is loaded and linked.
    pub open spec fn string_class_linked(&self) -> bool {
        class_position(self.method_area@, "java/lang/String"@, 0) matches Some(c)
            && self.method_area@[c].status.is_linked()
    }

    /// Whether the heap holds, at the address of `object`, an object of
    /// the class under `class` with `slots` slots.
    pub open spec fn holds_object(&self, object: ObjectReference, class: ClassRef, slots: int) -> bool {
        let heap = self.heap_of(object.address);
        let first = heap.first_word(object.address);
        &&& heap.is_here(object.address)
        &&& 0 <= slots
        &&& 16 + 8 * slots <= crate::jvm_values::MAX_ALLOCATION
        &&& first + 2 + slots <= heap.words().len()
        &&& heap.words()[first] == crate::jvm_values::header_word(
            ReferenceValueType::Object,
            16 + 8 * slots,
        )
        &&& heap.words()[first + 1] == class as u64
    }

    /// An object that the heap holds has its class and its slots.
    pub proof fn lemma_object_held(&self, object: ObjectReference, class: ClassRef, slots: int, index: int)
        requires
            self.holds_object(object, class, slots),
            0 <= index < slots,
        ensures
            self.heap_of(object.address).class_word(object) == Some(class as u64),
            self.heap_of(object.address).slot_position(
                object.address,
                ReferenceValueType::Object,
                index,
            ) == Some(self.heap_of(object.address).first_word(object.address) + 2 + index),
    {
        crate::jvm_values::lemma_header_round_trip(ReferenceValueType::Object, 16 + 8 * slots);
    }

    /// An object that comes behind the words `earlier` of its heap has
    /// its slots behind them.
    pub proof fn lemma_held_is_apart(
        &self,
        object: ObjectReference,
        class: ClassRef,
        slots: int,
        earlier: Seq<u64>,
    )
        requires
            self.holds_object(object, class, slots),
            self.heap_of(object.address).first_word(object.address) == earlier.len(),
        ensures
            forall|index: int|
                0 <= index < slots ==> self.heap_of(object.address).slot_position(
                    object.address,
                    ReferenceValueType::Object,
                    index,
                ) == Some(earlier.len() + 2 + index),
    {
        assert forall|index: int| 0 <= index < slots implies self.heap_of(
            object.address,
        ).slot_position(object.address, ReferenceValueType::Object, index) == Some(
            earlier.len() + 2 + index,
        ) by {
            self.lemma_object_held(object, class, slots, index);
        }
    }

    /// Writing a field of an object that comes behind the words
    /// `earlier` of its heap leaves these words and the number of words
    /// as they are.
    pub proof fn lemma_field_kept(
        &self,
        after: &VirtualMachine,
        object: ObjectReference,
        class: ClassRef,
        slots: int,
        name: Seq<char>,
        value: Value,
        earlier: Seq<u64>,
    )
        requires
            self.holds_object(object, class, slots),
            self.heap_of(object.address).first_word(object.address) == earlier.len(),
            self.heap_of(object.address).words().subrange(0, earlier.len() as int) == earlier,
            self.field_written(object, name, value, after, Ok(())),
        ensures
            after.heap_of(object.address).words().len() == self.heap_of(
                object.address,
            ).words().len(),
            after.heap_of(object.address).words().subrange(0, earlier.len() as int) == earlier,
    {
        let heap = self.heap_of(object.address);
        let p = self.field_slot(object, name)->0;
        assert(p >= earlier.len() + 2);
        assert(after.heap_of(object.address).words().subrange(0, earlier.len() as int)
            =~= heap.words().subrange(0, earlier.len() as int));
    }

    /// Whether the objects of the class under `class` have a slot for
    /// an instance field called `name`, and the slot holds `value`.
    pub open spec fn field_takes(&self, class: ClassRef, name: Seq<char>, value: Value) -> bool {
        match field_site(self.method_area@, class as int, name) {
            Some(site) => {
                let field = self.method_area@[site.class as int].fields@[site.field as int];
                0 < field.offset <= self.method_area@[class as int].total_num_of_fields && slot_word(
                    descriptor_kind(field.descriptor@),
                    value,
                ) is Ok
            },
            None => false,
        }
    }

    /// Writing a field succeeds on an object that the heap holds and
    /// whose class has a slot for the field that holds the value; the
    /// heap holds the object afterwards too.
    pub proof fn lemma_field_taken(
        &self,
        after: &VirtualMachine,
        object: ObjectReference,
        class: ClassRef,
        name: Seq<char>,
        value: Value,
        r: VmExecResult<()>,
    )
        requires
            class < self.method_area@.len(),
            self.holds_object(
                object,
                class,
                self.method_area@[class as int].total_num_of_fields as int,
            ),
            self.field_takes(class, name, value),
            self.field_written(object, name, value, after, r),
            after.method_area@ == self.method_area@,
            after.heap_of(object.address).region() == self.heap_of(object.address).region(),
        ensures
            r is Ok,
            after.holds_object(
                object,
                class,
                self.method_area@[class as int].total_num_of_fields as int,
            ),
    {
        let slots = self.method_area@[class as int].total_num_of_fields as int;
        let site = field_site(self.method_area@, class as int, name)->0;
        let field = self.method_area@[site.class as int].fields@[site.field as int];
        self.lemma_object_held(object, class, slots, field.offset - 1);
    }

    /// The element type of an array on a heap.
    pub open spec fn element_type(&self, array: ArrayReference) -> ArrayElement {
        let shape = self.heap_of(array.address).array_shape(array)->0;
        shape.0
    }

    /// Writing an element of an array leaves the array with its shape
    /// and with all its other elements, and the element with the value
    /// that was written, as the slot holds it.
    pub proof fn lemma_element_written(
        &self,
        after: &VirtualMachine,
        array: ArrayReference,
        index: int,
        value: Value,
    )
        requires
            self.heap_of(array.address).array_shape(array) matches Some((element, _))
                && self.heap_of(array.address).slot_position(
                array.address,
                ReferenceValueType::Array,
                index,
            ) matches Some(p) && slot_word(element_kind(element), value) matches Ok(word)
                && after.heap_of(array.address).words() == self.heap_of(
                array.address,
            ).words().update(p, word),
            after.heap_of(array.address).region() == self.heap_of(array.address).region(),
        ensures
            after.heap_of(array.address).array_shape(array) == self.heap_of(
                array.address,
            ).array_shape(array),
            after.element_at(array, index) == slot_value(
                element_kind(self.element_type(array)),
                slot_word(element_kind(self.element_type(array)), value)->Ok_0,
            ),
            forall|j: int| j != index ==> after.element_at(array, j) == self.element_at(array, j),
    {
        let before = self.heap_of(array.address);
        let heap = after.heap_of(array.address);
        let first = before.first_word(array.address);
        assert(heap.first_word(array.address) == first);
        assert(heap.words()[first] == before.words()[first]);
        assert(heap.words()[first + 1] == before.words()[first + 1]);
        assert(heap.words()[first + 2] == before.words()[first + 2]);
        assert(heap.array_words(array) == before.array_words(array));
        assert forall|j: int| j != index implies after.element_at(array, j) == self.element_at(
            array,
            j,
        ) by {
            assert(heap.slot_position(array.address, ReferenceValueType::Array, j)
                == before.slot_position(array.address, ReferenceValueType::Array, j));
        }
        assert(heap.slot_position(array.address, ReferenceValueType::Array, index)
            == before.slot_position(array.address, ReferenceValueType::Array, index));
    }

    /// Writing a field of an object leaves the object with its class,
    /// and the field with the value that was written, where the slot
    /// gives the value back.
    pub proof fn lemma_field_written(
        &self,
        after: &VirtualMachine,
        object: ObjectReference,
        name: Seq<char>,
        value: Value,
    )
        requires
            self.field_written(object, name, value, after, Ok(())),
            after.method_area@ == self.method_area@,
            after.heap_of(object.address).region() == self.heap_of(object.address).region(),
        ensures
            after.heap_of(object.address).class_word(object) == self.heap_of(
                object.address,
            ).class_word(object),
            after.other_heap_of(object.address) == self.other_heap_of(object.address),
            after.field_slot(object, name) == self.field_slot(object, name),
            slot_value(
                self.field_kind(object, name),
                slot_word(self.field_kind(object, name), value)->Ok_0,
            ) matches Ok(back) ==> after.field_value(object, name) == Some(back),
    {
        let before = self.heap_of(object.address);
        let heap = after.heap_of(object.address);
        let first = before.first_word(object.address);
        assert(heap.first_word(object.address) == first);
        assert(heap.words()[first] == before.words()[first]);
        assert(heap.words()[first + 1] == before.words()[first + 1]);
    }

    /// The elements of an array that hold the code units `units` are
    /// read as these units.
    pub proof fn lemma_units_filled(
        &self,
        array: ArrayReference,
        from: int,
        units: Seq<u16>,
        read: Seq<u16>,
    )
        requires
            0 <= from <= units.len(),
            forall|j: int|
                0 <= j < units.len() ==> #[trigger] self.element_at(array, j) == Ok::<_, VmError>(
                    Value::Int(units[j] as i32),
                ),
        ensures
            self.units_from(array, from, units.len() as int, read) == Some(
                read + units.subrange(from, units.len() as int),
            ),
        decreases units.len() - from,
    {
        if from < units.len() {
            lemma_unit_kept(units[from]);
            self.lemma_units_filled(array, from + 1, units, read.push(units[from]));
            assert(read.push(units[from]) + units.subrange(from + 1, units.len() as int) =~= read
                + units.subrange(from, units.len() as int));
        } else {
            assert(read + units.subrange(from, units.len() as int) =~= read);
        }
    }

    /// Machines with the same heap read the same units from an array.
    pub proof fn lemma_same_units(
        &self,
        other: &VirtualMachine,
        array: ArrayReference,
        from: int,
        length: int,
        read: Seq<u16>,
    )
        requires
            self.heap_of(array.address) == other.heap_of(array.address),
        ensures
            self.units_from(array, from, length, read) == other.units_from(
                array,
                from,
                length,
                read,
            ),
        decreases length - from,
    {
        if from < length {
            if let Ok(Value::Int(unit)) = self.element_at(array, from) {
                self.lemma_same_units(other, array, from + 1, length, read.push(unit as u16));
            }
        }
    }
}

/// What a request to prepare a class for use comes to.
pub enum Prepared {
    /// The class is initialized, or is being initialized further down on
    /// the call stack: it can be used under this handle.
    Ready(ClassRef),
    /// The class has an initializer that has not run. This is the frame
    /// that runs it; the class can be used once it has returned.
    Started(crate::stack_frame::StackFrame),
}

/// The value that linking gives a static field: its constant where it
/// has one that is not a string, null where its constant is a string,
/// which is interned after linking, and else the zero of its descriptor.
pub open spec fn link_value(field: crate::runtime_field_info::RuntimeFieldView) -> Value {
    match field.constant_value {
        Some(ConstantValueView::Int(v)) => Value::Int(v),
        Some(ConstantValueView::Float(v)) => Value::Float(v),
        Some(ConstantValueView::Long(v)) => Value::Long(v),
        Some(ConstantValueView::Double(v)) => Value::Double(v),
        Some(ConstantValueView::String(_)) => Value::Null,
        None => descriptor_zero(field.descriptor),
    }
}

/// The value that linking gives the static field called `name`: that of
/// the last static field of that name among `fields[..upto]`.
pub open spec fn linked_value(
    fields: Seq<crate::runtime_field_info::RuntimeFieldView>,
    name: Seq<char>,
    upto: int,
) -> Option<Value>
    decreases upto,
{
    if upto <= 0 || upto > fields.len() {
        None
    } else if fields[upto - 1].is_static() && fields[upto - 1].name == name {
        Some(link_value(fields[upto - 1]))
    } else {
        linked_value(fields, name, upto - 1)
    }
}

/// The string constant of the static field called `name`: that of the
/// last static field of that name with a string constant among
/// `fields[..upto]`.
pub open spec fn string_constant_of(
    fields: Seq<crate::runtime_field_info::RuntimeFieldView>,
    name: Seq<char>,
    upto: int,
) -> Option<Seq<char>>
    decreases upto,
{
    if upto <= 0 || upto > fields.len() {
        None
    } else {
        match fields[upto - 1].constant_value {
            Some(ConstantValueView::String(text)) => if fields[upto - 1].is_static()
                && fields[upto - 1].name == name {
                Some(text)
            } else {
                string_constant_of(fields, name, upto - 1)
            },
            _ => string_constant_of(fields, name, upto - 1),
        }
    }
}

/// What interning a string comes to, whatever the heap has room for: a
/// text that is interned gives the object it has, and nothing changes;
/// an object that is returned is interned for the text from then on. An
/// object that is made for the text, where the class of strings is
/// linked, is a string object whose array holds the UTF-16 code units
/// of the text. Where the class of strings is linked and a string
/// object can be made for a text that is not interned, as `can_intern`
/// says, one is made, as `string_made` says.
pub open spec fn interns(
    before: VirtualMachine,
    text: Seq<char>,
    after: VirtualMachine,
    r: VmExecResult<ObjectReference>,
) -> bool {
    &&& before.static_area.string_of(text) matches Some(known) ==> r == Ok::<_, VmError>(known)
        && before.unchanged(&after)
    &&& r matches Ok(object) ==> after.static_area.string_of(text) == Some(object)
    &&& before.static_area.string_of(text) is None && before.string_class_linked() ==> (
    r matches Ok(object) ==> after.string_units(Value::ObjectRef(object)) == Some(
        utf16_of(text),
    ))
    &&& before.static_area.string_of(text) is None && before.can_intern(text) ==> (
    r matches Ok(object) && before.string_made(
        before.string_class(),
        utf16_of(text).len() as int,
        &after,
        object,
    ))
}

/// Interning the same text twice gives the same object, and the second
/// time changes nothing.
pub proof fn lemma_interning_twice(
    start: VirtualMachine,
    text: Seq<char>,
    middle: VirtualMachine,
    first: ObjectReference,
    end: VirtualMachine,
    second: VmExecResult<ObjectReference>,
)
    requires
        interns(start, text, middle, Ok(first)),
        interns(middle, text, end, second),
    ensures
        second == Ok::<_, VmError>(first),
        middle.unchanged(&end),
{
}

/// What making a class mirror comes to: as `interns`, for the mirrors.
/// The field `name` of a mirror that is made is the interned string of
/// the name of the class. Where a mirror can be made for a class that
/// has none, as `can_mirror` says, one is made: it is allocated next on
/// the heap of the static area, before the string of the name where
/// that is made too.
pub open spec fn mirrors(
    before: VirtualMachine,
    name: Seq<char>,
    after: VirtualMachine,
    r: VmExecResult<ObjectReference>,
) -> bool {
    &&& before.static_area.mirror_of(name) matches Some(known) ==> r == Ok::<_, VmError>(known)
        && before.unchanged(&after)
    &&& r matches Ok(object) ==> after.static_area.mirror_of(name) == Some(object)
    &&& before.static_area.mirror_of(name) is None ==> (r matches Ok(object)
        ==> after.static_area.string_of(name) matches Some(text) && after.field_value(
        object,
        "name"@,
    ) == Some(Value::ObjectRef(text)))
    &&& before.static_area.mirror_of(name) is None && before.can_mirror(name) ==> (
    r matches Ok(object) && object.address == 8
        * before.static_area.static_object_heap.words().len() + 8 + STATIC_REGION
        && after.heap_of(object.address).class_word(object) == Some(
        before.mirror_class() as u64,
    ) && after.static_area.string_of(name) == Some(before.mirror_text(name)))
}

/// Asking twice for the mirror of the same class gives the same object,
/// and the second time changes nothing.
pub proof fn lemma_mirror_twice(
    start: VirtualMachine,
    name: Seq<char>,
    middle: VirtualMachine,
    first: ObjectReference,
    end: VirtualMachine,
    second: VmExecResult<ObjectReference>,
)
    requires
        mirrors(start, name, middle, Ok(first)),
        mirrors(middle, name, end, second),
    ensures
        second == Ok::<_, VmError>(first),
        middle.unchanged(&end),
{
}

fn constant_of_field(field: &crate::runtime_field_info::RuntimeFieldInfo) -> (r: Value)
    ensures
        r == link_value(field@),
{
    match &field.constant_value {
        Some(ConstantValueAttribute::Int(i)) => Value::Int(*i),
        Some(ConstantValueAttribute::Float(f)) => Value::Float(*f),
        Some(ConstantValueAttribute::Long(l)) => Value::Long(*l),
        Some(ConstantValueAttribute::Double(d)) => Value::Double(*d),
        Some(ConstantValueAttribute::String(_)) => Value::Null,
        None => zero_of_descriptor(field.descriptor.as_str()),
    }
}

impl VirtualMachine {
    /// Gives the static fields of a loaded class their first values and
    /// makes the class `Linked`. String constants are left null.
    fn init_static_fields(&mut self, class_ref: ClassRef)
        requires
            old(self).wf(),
            class_ref < old(self).method_area@.len(),
        ensures
            old(self).advances(final(self)),
            final(self).method_area == old(self).method_area,
            final(self).object_heap == old(self).object_heap,
            final(self).static_area.static_object_heap == old(self).static_area.static_object_heap,
            final(self).static_area.string_constant_pool == old(self).static_area.string_constant_pool,
            final(self).static_area.class_constant_pool == old(self).static_area.class_constant_pool,
            forall|name: Seq<char>|
                final(self).static_area.value_of(class_ref, name) == (match linked_value(
                    views(old(self).method_area@[class_ref as int].fields@),
                    name,
                    old(self).method_area@[class_ref as int].fields@.len() as int,
                ) {
                    Some(v) => Some(v),
                    None => old(self).static_area.value_of(class_ref, name),
                }),
            forall|class: ClassRef, name: Seq<char>|
                class != class_ref ==> final(self).static_area.value_of(class, name) == old(self).static_area.value_of(class, name),
    {
        let count = self.method_area.class(class_ref).fields.len();
        let ghost fields = views(self.method_area@[class_ref as int].fields@);
        let mut i: usize = 0;
        while i < count
            invariant
                i <= count,
                self.wf(),
                class_ref < self.method_area@.len(),
                self.method_area == old(self).method_area,
                self.object_heap == old(self).object_heap,
                self.native_method_area == old(self).native_method_area,
                self.static_area.static_object_heap == old(self).static_area.static_object_heap,
                self.static_area.string_constant_pool == old(self).static_area.string_constant_pool,
                self.static_area.class_constant_pool == old(self).static_area.class_constant_pool,
                fields == views(self.method_area@[class_ref as int].fields@),
                count == fields.len(),
                forall|name: Seq<char>|
                    self.static_area.value_of(class_ref, name) == (match linked_value(
                        fields,
                        name,
                        i as int,
                    ) {
                        Some(v) => Some(v),
                        None => old(self).static_area.value_of(class_ref, name),
                    }),
                forall|class: ClassRef, name: Seq<char>|
                    class != class_ref ==> self.static_area.value_of(class, name) == old(self).static_area.value_of(class, name),
            decreases count - i,
        {
            let field = &self.method_area.class(class_ref).fields[i];
            assert(fields[i as int] == field@);
            if field.is_static() {
                let value = constant_of_field(field);
                self.static_area.set_static_field(class_ref, field.name.as_str(), value);
            }
            i += 1;
        }
    }

    /// The value that the static field `name` of a class has once the
    /// string constants among `fields[..upto]` are interned: for the
    /// last static field of that name with a string constant, the
    /// string object that is interned for the constant in `after`; and
    /// else the value that the field has in this machine.
    pub open spec fn value_with_strings(
        &self,
        after: &VirtualMachine,
        class_ref: ClassRef,
        name: Seq<char>,
        upto: int,
    ) -> Option<Value> {
        match string_constant_of(
            views(self.method_area@[class_ref as int].fields@),
            name,
            upto,
        ) {
            Some(text) => match after.static_area.string_of(text) {
                Some(object) => Some(Value::ObjectRef(object)),
                None => None,
            },
            None => self.static_area.value_of(class_ref, name),
        }
    }

    /// Whether the string constants of the static fields of a class
    /// are interned.
    pub open spec fn string_constants_interned(&self, class_ref: ClassRef) -> bool {
        let fields = self.method_area@[class_ref as int].fields@;
        forall|i: int|
            0 <= i < fields.len() && (#[trigger] fields[i])@.is_static() ==> (
            fields[i].constant_value matches Some(ConstantValueAttribute::String(text))
                ==> self.static_area.string_of(text@) is Some)
    }

    /// Interns the string constants of the static fields of a class,
    /// and gives each of these fields the string object of its
    /// constant. `string_class` is the class of strings, which is
    /// linked. Where the constants are interned already, and so where
    /// there are none, this succeeds, and nothing but the values of
    /// these fields changes; else it fails where a string object cannot
    /// be made.
    fn link_strings(&mut self, class_ref: ClassRef, string_class: ClassRef) -> (r: VmExecResult<
        (),
    >)
        requires
            old(self).wf(),
            old(self).usable(class_ref),
            old(self).usable(string_class),
            old(self).method_area@[string_class as int].name@ == "java/lang/String"@,
        ensures
            old(self).advances(final(self)),
            final(self).method_area == old(self).method_area,
            final(self).static_area.class_constant_pool == old(self).static_area.class_constant_pool,
            forall|class: ClassRef, name: Seq<char>|
                class != class_ref ==> final(self).static_area.value_of(class, name)
                    == old(self).static_area.value_of(class, name),
            r is Ok ==> forall|name: Seq<char>|
                final(self).static_area.value_of(class_ref, name) == old(self).value_with_strings(
                    final(self),
                    class_ref,
                    name,
                    old(self).method_area@[class_ref as int].fields@.len() as int,
                ),
            old(self).string_constants_interned(class_ref) ==> r is Ok && final(self).object_heap
                == old(self).object_heap && final(self).static_area.static_object_heap
                == old(self).static_area.static_object_heap
                && final(self).static_area.string_constant_pool
                == old(self).static_area.string_constant_pool && final(self).native_method_area
                == old(self).native_method_area,
    {
        let count = self.method_area.class(class_ref).fields.len();
        let ghost fields = views(self.method_area@[class_ref as int].fields@);
        let mut i: usize = 0;
        while i < count
            invariant
                i <= count,
                old(self).advances(self),
                self.method_area == old(self).method_area,
                self.method_area@[string_class as int].name@ == "java/lang/String"@,
                self.static_area.class_constant_pool == old(self).static_area.class_constant_pool,
                self.usable(class_ref),
                self.usable(string_class),
                count == self.method_area@[class_ref as int].fields@.len(),
                fields == views(old(self).method_area@[class_ref as int].fields@),
                old(self).string_constants_interned(class_ref) ==> self.object_heap
                    == old(self).object_heap && self.static_area.static_object_heap
                    == old(self).static_area.static_object_heap
                    && self.static_area.string_constant_pool
                    == old(self).static_area.string_constant_pool && self.native_method_area
                    == old(self).native_method_area,
                forall|class: ClassRef, name: Seq<char>|
                    class != class_ref ==> self.static_area.value_of(class, name)
                        == old(self).static_area.value_of(class, name),
                forall|name: Seq<char>|
                    self.static_area.value_of(class_ref, name) == old(self).value_with_strings(
                        self,
                        class_ref,
                        name,
                        i as int,
                    ),
                forall|name: Seq<char>|
                    string_constant_of(fields, name, i as int) is Some
                        ==> self.static_area.string_of(
                        string_constant_of(fields, name, i as int)->0,
                    ) is Some,
            decreases count - i,
        {
            let ghost before = *self;
            let field = &self.method_area.class(class_ref).fields[i];
            assert(fields[i as int] == field@);
            if field.is_static() {
                if let Some(ConstantValueAttribute::String(text)) = &field.constant_value {
                    let text = text.clone();
                    let name = field.name.clone();
                    assert(old(self).method_area@[class_ref as int].fields@[i as int] == *field);
                    let object = match self.intern_with(string_class, text.as_str()) {
                        Ok(object) => object,
                        Err(e) => {
                            return Err(e);
                        },
                    };
                    let ghost interned = *self;
                    self.static_area.set_static_field(
                        class_ref,
                        name.as_str(),
                        Value::ObjectRef(object),
                    );
                    proof {
                        let next: int = i + 1;
                        assert(before.advances(&interned));
                        assert forall|other: Seq<char>|
                            string_constant_of(fields, other, next)
                                is Some implies self.static_area.string_of(
                            string_constant_of(fields, other, next)->0,
                        ) is Some by {
                            if other != name@ {
                                assert(string_constant_of(fields, other, next)
                                    == string_constant_of(fields, other, i as int));
                            }
                        }
                    }
                }
            }
            proof {
                old(self).lemma_advances_transitive(&before, self);
                let next: int = i + 1;
                assert forall|other: Seq<char>|
                    string_constant_of(fields, other, next)
                        is Some implies self.static_area.string_of(
                    string_constant_of(fields, other, next)->0,
                ) is Some by {
                    if string_constant_of(fields, other, next) == string_constant_of(
                        fields,
                        other,
                        i as int,
                    ) {
                        assert(before.static_area.string_of(
                            string_constant_of(fields, other, i as int)->0,
                        ) is Some);
                    }
                }
            }
            i += 1;
        }
        Ok(())
    }

    /// Whether a class has a static field with a string constant.
    pub open spec fn with_string_constants(&self, class_ref: ClassRef) -> bool {
        let fields = self.method_area@[class_ref as int].fields@;
        exists|i: int|
            0 <= i < fields.len() && (#[trigger] fields[i])@.is_static()
                && fields[i].constant_value matches Some(ConstantValueAttribute::String(_))
    }

    /// Whether `after` is this machine with the class under `class_ref`
    /// linked: the class is `Linked`, its static fields have their
    /// first values, as `linked_value` says, and everything else is as
    /// it was.
    pub open spec fn linked_plainly(&self, class_ref: ClassRef, after: &VirtualMachine) -> bool {
        let class = self.method_area@[class_ref as int];
        &&& after.method_area@ == self.method_area@.update(
            class_ref as int,
            Class { status: ClassStatus::Linked, ..class },
        )
        &&& after.method_area.class_paths() == self.method_area.class_paths()
        &&& after.object_heap == self.object_heap
        &&& after.native_method_area == self.native_method_area
        &&& after.static_area.static_object_heap == self.static_area.static_object_heap
        &&& after.static_area.string_constant_pool == self.static_area.string_constant_pool
        &&& after.static_area.class_constant_pool == self.static_area.class_constant_pool
        &&& forall|name: Seq<char>|
            after.static_area.value_of(class_ref, name) == (match linked_value(
                views(class.fields@),
                name,
                class.fields@.len() as int,
            ) {
                Some(v) => Some(v),
                None => self.static_area.value_of(class_ref, name),
            })
        &&& forall|other: ClassRef, name: Seq<char>|
            other != class_ref ==> after.static_area.value_of(other, name)
                == self.static_area.value_of(other, name)
    }

    fn has_string_constants(&self, class_ref: ClassRef) -> (r: bool)
        requires
            class_ref < self.method_area@.len(),
        ensures
            r == self.with_string_constants(class_ref),
    {
        let class = self.method_area.class(class_ref);
        let mut i: usize = 0;
        while i < class.fields.len()
            invariant
                i <= class.fields.len(),
                *class == self.method_area@[class_ref as int],
                forall|j: int|
                    0 <= j < i ==> !((#[trigger] class.fields@[j])@.is_static()
                        && class.fields@[j].constant_value matches Some(
                        ConstantValueAttribute::String(_),
                    )),
            decreases class.fields.len() - i,
        {
            let field = &class.fields[i];
            if field.is_static() {
                if let Some(ConstantValueAttribute::String(_)) = &field.constant_value {
                    return true;
                }
            }
            i += 1;
        }
        false
    }

    /// The value that the static field `name` of a class has once the
    /// class is linked: the string object that is interned in `after`
    /// for its string constant, where it has one; else its first value,
    /// as `linked_value` says; and the value that it has in this
    /// machine where the class declares no static field of that name.
    pub open spec fn linked_static(
        &self,
        after: &VirtualMachine,
        class_ref: ClassRef,
        name: Seq<char>,
    ) -> Option<Value> {
        let fields = views(self.method_area@[class_ref as int].fields@);
        match string_constant_of(fields, name, fields.len() as int) {
            Some(text) => match after.static_area.string_of(text) {
                Some(object) => Some(Value::ObjectRef(object)),
                None => None,
            },
            None => match linked_value(fields, name, fields.len() as int) {
                Some(v) => Some(v),
                None => self.static_area.value_of(class_ref, name),
            },
        }
    }

    /// A class without string constants has none for any name.
    pub proof fn lemma_no_string_constants(&self, class_ref: ClassRef, name: Seq<char>, upto: int)
        requires
            !self.with_string_constants(class_ref),
            0 <= upto <= self.method_area@[class_ref as int].fields@.len(),
        ensures
            string_constant_of(views(self.method_area@[class_ref as int].fields@), name, upto)
                is None,
        decreases upto,
    {
        if upto > 0 {
            let fields = self.method_area@[class_ref as int].fields@;
            assert(views(fields)[upto - 1] == fields[upto - 1]@);
            assert(!(fields[upto - 1]@.is_static() && fields[upto - 1].constant_value matches Some(
                ConstantValueAttribute::String(_),
            )));
            self.lemma_no_string_constants(class_ref, name, upto - 1);
        }
    }

    /// Links a class that is loaded: its static fields get their first
    /// values, the string constants among them are interned, and the
    /// class becomes `Linked`. A class that is further on is left as it
    /// is.
    pub fn link_class(&mut self, class_ref: ClassRef) -> (r: VmExecResult<()>)
        requires
            old(self).wf(),
            class_ref < old(self).method_area@.len(),
        ensures
            old(self).advances(final(self)),
            final(self).static_area.class_constant_pool == old(self).static_area.class_constant_pool,
            old(self).method_area@[class_ref as int].status != ClassStatus::Loaded ==> r is Ok
                && *final(self) == *old(self),
            r is Ok && old(self).method_area@[class_ref as int].status == ClassStatus::Loaded
                ==> final(self).method_area@[class_ref as int].status == ClassStatus::Linked,
            old(self).method_area@[class_ref as int].status == ClassStatus::Loaded
                && !old(self).with_string_constants(class_ref) ==> r is Ok
                && old(self).linked_plainly(class_ref, final(self)),
            r is Ok && old(self).method_area@[class_ref as int].status == ClassStatus::Loaded
                ==> forall|name: Seq<char>|
                final(self).static_area.value_of(class_ref, name) == old(self).linked_static(
                    final(self),
                    class_ref,
                    name,
                ),
    {
        match self.method_area.class(class_ref).status {
            ClassStatus::Loaded => {},
            _ => {
                return Ok(());
            },
        }
        let ghost start = *self;
        self.method_area.advance_status(class_ref, ClassStatus::Linking);
        let ghost linking = *self;
        self.init_static_fields(class_ref);
        self.method_area.advance_status(class_ref, ClassStatus::Linked);
        let ghost linked = *self;
        assert(start.advances(&linked));
        proof {
            assert(linking.method_area@[class_ref as int].fields == start.method_area@[class_ref as int].fields);
            assert(linked.method_area@[class_ref as int].fields == start.method_area@[class_ref as int].fields);
            assert(linked.method_area@ =~= start.method_area@.update(
                class_ref as int,
                Class { status: ClassStatus::Linked, ..start.method_area@[class_ref as int] },
            ));
            assert(start.linked_plainly(class_ref, &linked));
        }
        if self.has_string_constants(class_ref) {
            let string_class = match self.method_area.load_class("java/lang/String") {
                Ok(c) => c,
                Err(e) => {
                    assert(linked.advances(self)) by {
                        lemma_extension_evolves(linked.method_area@, self.method_area@);
                    }
                    proof {
                        start.lemma_advances_transitive(&linked, self);
                    }
                    return Err(e);
                },
            };
            let ghost loaded = *self;
            assert(linked.advances(&loaded)) by {
                lemma_extension_evolves(linked.method_area@, loaded.method_area@);
            }
            proof {
                start.lemma_advances_transitive(&linked, &loaded);
            }
            let fresh = match self.method_area.class(string_class).status {
                ClassStatus::Loaded => true,
                _ => false,
            };
            if fresh {
                self.method_area.advance_status(string_class, ClassStatus::Linking);
                self.init_static_fields(string_class);
                self.method_area.advance_status(string_class, ClassStatus::Linked);
            }
            let ghost ready = *self;
            assert(start.advances(&ready)) by {
                assert(loaded.advances(&ready));
                start.lemma_advances_transitive(&loaded, &ready);
            }
            assert(forall|name: Seq<char>|
                ready.static_area.value_of(class_ref, name) == linked.static_area.value_of(
                    class_ref,
                    name,
                ));
            if !self.method_area.class(string_class).status.linked() {
                return Err(VmError::ClassFormatError);
            }
            if fresh && string_class != class_ref {
                let done = self.link_strings(string_class, string_class);
                proof {
                    start.lemma_advances_transitive(&ready, self);
                }
                done?;
            }
            let ghost strings = *self;
            assert(forall|name: Seq<char>|
                strings.static_area.value_of(class_ref, name) == linked.static_area.value_of(
                    class_ref,
                    name,
                ));
            assert(strings.method_area@[class_ref as int].fields
                == start.method_area@[class_ref as int].fields);
            let done = self.link_strings(class_ref, string_class);
            proof {
                start.lemma_advances_transitive(&strings, self);
            }
            done?;
        } else {
            proof {
                assert(linked.with_string_constants(class_ref) == start.with_string_constants(
                    class_ref,
                ));
                assert forall|name: Seq<char>|
                    self.static_area.value_of(class_ref, name) == start.linked_static(
                        self,
                        class_ref,
                        name,
                    ) by {
                    start.lemma_no_string_constants(
                        class_ref,
                        name,
                        start.method_area@[class_ref as int].fields@.len() as int,
                    );
                }
            }
        }
        Ok(())
    }

    /// Allocates an array of chars that holds the UTF-16 code units
    /// `units`. A full heap gives `OutOfMemory`, and then nothing is
    /// allocated.
    fn char_array(&mut self, units: &Vec<u16>) -> (r: VmExecResult<ArrayReference>)
        requires
            old(self).wf(),
        ensures
            old(self).advances(final(self)),
            final(self).method_area == old(self).method_area,
            final(self).static_area == old(self).static_area,
            old(self).object_heap.array_fits(
                ArrayElement::PrimaryValue(PrimaryType::Char),
                units@.len() as int,
            ) ==> (r matches Ok(array) && array.address == old(self).next_address()),
            !old(self).object_heap.array_fits(
                ArrayElement::PrimaryValue(PrimaryType::Char),
                units@.len() as int,
            ) ==> r == Err::<ArrayReference, _>(VmError::OutOfMemory) && final(self).object_heap.words()
                == old(self).object_heap.words(),
            r matches Ok(array) ==> {
                &&& array.address % 8 == 0
                &&& final(self).object_heap.array_shape(array) == Some(
                    (ArrayElement::PrimaryValue(PrimaryType::Char), units@.len() as usize),
                )
                &&& forall|j: int|
                    0 <= j < units@.len() ==> #[trigger] final(self).element_at(array, j) == Ok::<
                        _,
                        VmError,
                    >(Value::Int(units@[j] as i32))
                &&& final(self).object_heap.words().len() == old(self).object_heap.words().len() + 3
                    + units@.len()
                &&& final(self).object_heap.words().subrange(
                    0,
                    old(self).object_heap.words().len() as int,
                ) == old(self).object_heap.words()
            },
    {
        let element = ArrayElement::PrimaryValue(PrimaryType::Char);
        let ghost first = self.object_heap.words().len() as int;
        let array = match self.new_array(&element, units.len()) {
            Ok(array) => array,
            Err(e) => {
                return Err(e);
            },
        };
        proof {
            assert(self.object_heap.first_word(array.address) == first);
            assert(self.object_heap.words().subrange(0, first) =~= old(self).object_heap.words());
        }
        let mut i: usize = 0;
        while i < units.len()
            invariant
                i <= units.len(),
                first == old(self).object_heap.words().len(),
                array.address == old(self).next_address(),
                self.object_heap.first_word(array.address) == first,
                self.object_heap.words().len() == first + 3 + units.len(),
                self.object_heap.words().subrange(0, first) == old(self).object_heap.words(),
                self.static_area == old(self).static_area,
                self.wf(),
                old(self).advances(self),
                self.method_area == old(self).method_area,
                element == ArrayElement::PrimaryValue(PrimaryType::Char),
                array.address % 8 == 0,
                self.object_heap.array_shape(array) == Some((element, units.len())),
                forall|j: int|
                    0 <= j < i ==> #[trigger] self.element_at(array, j) == Ok::<_, VmError>(
                        Value::Int(units@[j] as i32),
                    ),
            decreases units.len() - i,
        {
            let ghost before = *self;
            let done = self.array_set(&array, i, &Value::Int(units[i] as i32));
            proof {
                old(self).lemma_advances_transitive(&before, self);
                lemma_unit_kept(units[i as int]);
                assert(before.object_heap.slot_position(
                    array.address,
                    ReferenceValueType::Array,
                    i as int,
                ) == Some(first + 3 + i));
                assert(done is Ok);
                before.lemma_element_written(
                    self,
                    array,
                    i as int,
                    Value::Int(units[i as int] as i32),
                );
                assert(self.object_heap.words().subrange(0, first)
                    =~= before.object_heap.words().subrange(0, first));
            }
            match done {
                Ok(_) => {},
                Err(e) => {
                    return Err(e);
                },
            }
            i += 1;
        }
        Ok(array)
    }

    /// Whether string objects can be made around the array `array`,
    /// where the class of strings is the class under `string_class`:
    /// the heap of the static area has room for a string object, and
    /// string objects have a slot for a field `hash` that holds an
    /// integer and for a field `value` that holds the array.
    pub open spec fn string_object_fits(&self, string_class: ClassRef, array: ArrayReference) -> bool {
        &&& self.static_area.static_object_heap.object_fits(
            self.method_area@[string_class as int].total_num_of_fields as int,
        )
        &&& self.field_takes(string_class, "hash"@, Value::Int(0))
        &&& self.field_takes(string_class, "value"@, Value::ArrayRef(array))
    }

    /// Allocates a string object on the heap of the static area: its
    /// field `hash` is 0 and its field `value` is the array `array`.
    fn string_object(&mut self, string_class: ClassRef, array: ArrayReference) -> (r:
        VmExecResult<ObjectReference>)
        requires
            old(self).wf(),
            old(self).usable(string_class),
        ensures
            old(self).advances(final(self)),
            final(self).method_area == old(self).method_area,
            old(self).same_interned(final(self)),
            final(self).object_heap.words() == old(self).object_heap.words(),
            r is Ok ==> final(self).object_heap == old(self).object_heap,
            old(self).string_object_fits(string_class, array) ==> r is Ok,
            r matches Ok(object) ==> {
                &&& object.address == 8 * old(self).static_area.static_object_heap.words().len()
                    + 8 + STATIC_REGION
                &&& final(self).static_area.static_object_heap.words().len()
                    == old(self).static_area.static_object_heap.words().len() + 2
                    + old(self).method_area@[string_class as int].total_num_of_fields
                &&& final(self).static_area.static_object_heap.words().subrange(
                    0,
                    old(self).static_area.static_object_heap.words().len() as int,
                ) == old(self).static_area.static_object_heap.words()
                &&& final(self).field_value(object, "value"@) == Some(Value::ArrayRef(array))
                &&& final(self).heap_of(object.address).class_word(object) == Some(
                    string_class as u64,
                )
            },
    {
        let slots = self.method_area.class(string_class).total_num_of_fields;
        let ghost statics = self.static_area.static_object_heap.words();
        let object = match self.static_area.new_object(string_class, slots) {
            Some(object) => object,
            None => {
                return Err(VmError::OutOfMemory);
            },
        };
        let ghost made = *self;
        assert(old(self).advances(&made));
        proof {
            let first = statics.len() as int;
            assert(made.static_area.static_object_heap.first_word(object.address) == first);
            assert(made.static_area.static_object_heap.words()[first]
                == crate::jvm_values::header_word(ReferenceValueType::Object, 16 + 8 * slots));
            assert(made.static_area.static_object_heap.words()[first + 1] == string_class as u64);
            assert(made.holds_object(object, string_class, slots as int));
            made.lemma_held_is_apart(object, string_class, slots as int, statics);
            assert(made.static_area.static_object_heap.words().subrange(0, first) =~= statics);
            assert(object.address % 8 == STATIC_REGION);
        }
        let done = self.set_field_by_name(&object, "hash", &Value::Int(0));
        proof {
            old(self).lemma_advances_transitive(&made, self);
            if old(self).string_object_fits(string_class, array) {
                made.lemma_field_taken(self, object, string_class, "hash"@, Value::Int(0), done);
            }
            if done is Ok {
                made.lemma_field_written(self, object, "hash"@, Value::Int(0));
                made.lemma_field_kept(self, object, string_class, slots as int, "hash"@, Value::Int(0), statics);
            }
        }
        match done {
            Ok(_) => {},
            Err(e) => {
                return Err(e);
            },
        }
        let ghost hashed = *self;
        let done = self.set_field_by_name(&object, "value", &Value::ArrayRef(array));
        proof {
            old(self).lemma_advances_transitive(&hashed, self);
            if old(self).string_object_fits(string_class, array) {
                hashed.lemma_field_taken(
                    self,
                    object,
                    string_class,
                    "value"@,
                    Value::ArrayRef(array),
                    done,
                );
            }
            if done is Ok {
                hashed.lemma_field_written(self, object, "value"@, Value::ArrayRef(array));
                hashed.lemma_field_kept(self, object, string_class, slots as int, "value"@, Value::ArrayRef(array), statics);
            }
        }
        match done {
            Ok(_) => Ok(object),
            Err(e) => Err(e),
        }
    }

    /// Makes the string object for `text` from a char array with its
    /// UTF-16 code units, and interns it, unless the text is interned.
    /// `string_class` is the class of strings, which is linked.
    fn intern_with(&mut self, string_class: ClassRef, text: &str) -> (r: VmExecResult<
        ObjectReference,
    >)
        requires
            old(self).wf(),
            old(self).usable(string_class),
            old(self).method_area@[string_class as int].name@ == "java/lang/String"@,
        ensures
            old(self).advances(final(self)),
            final(self).method_area == old(self).method_area,
            final(self).static_area.class_constant_pool == old(self).static_area.class_constant_pool,
            forall|class: ClassRef, name: Seq<char>|
                final(self).static_area.value_of(class, name) == old(self).static_area.value_of(
                    class,
                    name,
                ),
            interns(*old(self), text@, *final(self), r),
            old(self).static_area.string_of(text@) is None && old(self).string_fits(
                string_class,
                text@,
            ) ==> (r matches Ok(object) && old(self).string_made(
                string_class,
                utf16_of(text@).len() as int,
                final(self),
                object,
            )),
            old(self).static_area.string_of(text@) is None && !old(self).object_heap.array_fits(
                ArrayElement::PrimaryValue(PrimaryType::Char),
                utf16_of(text@).len() as int,
            ) ==> r == Err::<ObjectReference, _>(VmError::OutOfMemory),
    {
        proof {
            crate::method_area::lemma_class_found(self.method_area@, string_class as int);
        }
        if let Some(known) = self.static_area.find_string(text) {
            return Ok(known);
        }
        let units = utf16_units(text);
        let array = match self.char_array(&units) {
            Ok(array) => array,
            Err(e) => {
                return Err(e);
            },
        };
        let ghost filled = *self;
        let made = self.string_object(string_class, array);
        proof {
            old(self).lemma_advances_transitive(&filled, self);
            if old(self).string_fits(string_class, text@) {
                assert(array == ArrayReference { address: old(self).next_address() });
                assert(filled.string_object_fits(string_class, array));
            }
        }
        let object = match made {
            Ok(object) => object,
            Err(e) => {
                return Err(e);
            },
        };
        let ghost valued = *self;
        self.static_area.intern_string(text, object);
        proof {
            assert(self.object_heap == filled.object_heap);
            assert(self.static_area.static_object_heap == valued.static_area.static_object_heap);
            assert(self.field_value(object, "value"@) == Some(Value::ArrayRef(array)));
            filled.lemma_units_filled(array, 0, units@, Seq::empty());
            assert(Seq::<u16>::empty() + units@.subrange(0, units@.len() as int) =~= units@);
            filled.lemma_same_units(self, array, 0, units@.len() as int, Seq::empty());
            assert(self.string_units(Value::ObjectRef(object)) == Some(utf16_of(text@)));
        }
        Ok(object)
    }

    /// The interned string object for `value`. It is made, with the
    /// class `java/lang/String` loaded and linked for it, where the text
    /// is not interned yet.
    pub fn new_java_lang_string_object(&mut self, value: &str) -> (r: VmExecResult<
        ObjectReference,
    >)
        requires
            old(self).wf(),
        ensures
            old(self).advances(final(self)),
            final(self).static_area.class_constant_pool == old(self).static_area.class_constant_pool,
            interns(*old(self), value@, *final(self), r),
            old(self).string_class_linked() ==> final(self).method_area@
                == old(self).method_area@,
    {
        proof {
            crate::method_area::lemma_class_position(self.method_area@, "java/lang/String"@, 0);
        }
        if let Some(known) = self.static_area.find_string(value) {
            return Ok(known);
        }
        let string_class = self.linked_class("java/lang/String")?;
        let ghost linked = *self;
        let r = self.intern_with(string_class, value);
        proof {
            old(self).lemma_advances_transitive(&linked, self);
        }
        r
    }

    /// Loads and links the class called `name`.
    pub fn linked_class(&mut self, name: &str) -> (r: VmExecResult<ClassRef>)
        requires
            old(self).wf(),
        ensures
            old(self).advances(final(self)),
            final(self).static_area.class_constant_pool == old(self).static_area.class_constant_pool,
            r matches Ok(c) ==> final(self).usable(c) && final(self).method_area@[c as int].name@
                == name@,
            class_position(old(self).method_area@, name@, 0) matches Some(c) ==> (old(self).method_area@[c].status.is_linked() ==> r == Ok::<_, VmError>(c as usize) && old(self).unchanged(final(self)) && *final(self) == *old(self)),
            r matches Ok(c) ==> final(self).method_area@[c as int].status == ClassStatus::Linked || (
            c < old(self).method_area@.len() && final(self).method_area@[c as int].status
                == old(self).method_area@[c as int].status),
    {
        proof {
            crate::method_area::lemma_class_position(self.method_area@, name@, 0);
        }
        let loaded = self.method_area.load_class(name);
        assert(old(self).advances(self)) by {
            lemma_extension_evolves(old(self).method_area@, self.method_area@);
        }
        let class_ref = loaded?;
        let ghost after_load = *self;
        let linked = self.link_class(class_ref);
        proof {
            old(self).lemma_advances_transitive(&after_load, self);
        }
        linked?;
        if !self.method_area.class(class_ref).status.linked() {
            return Err(VmError::ClassFormatError);
        }
        Ok(class_ref)
    }

    /// The interned mirror of the class called `class_name`: an object
    /// of `java/lang/Class` whose field `name` is the interned string of
    /// the name. It is made where the class has no mirror yet.
    #[verifier::spinoff_prover]
    #[verifier::rlimit(100)]
    pub fn new_java_lang_class_object(&mut self, class_name: &str) -> (r: VmExecResult<
        ObjectReference,
    >)
        requires
            old(self).wf(),
        ensures
            old(self).advances(final(self)),
            mirrors(*old(self), class_name@, *final(self), r),
    {
        proof {
            crate::method_area::lemma_class_position(self.method_area@, "java/lang/Class"@, 0);
        }
        if let Some(known) = self.static_area.find_mirror(class_name) {
            return Ok(known);
        }
        let mirror_class = self.linked_class("java/lang/Class")?;
        let ghost linked = *self;
        let slots = self.method_area.class(mirror_class).total_num_of_fields;
        let object = match self.static_area.new_object(mirror_class, slots) {
            Some(object) => object,
            None => {
                return Err(VmError::OutOfMemory);
            },
        };
        let ghost made = *self;
        assert(linked.advances(&made));
        proof {
            old(self).lemma_advances_transitive(&linked, &made);
            if old(self).can_mirror(class_name@) {
                old(self).lemma_mirror_allocated(&made, class_name@, object);
            }
        }
        let string = self.new_java_lang_string_object(class_name);
        proof {
            old(self).lemma_advances_transitive(&made, self);
        }
        let string = string?;
        let ghost named = *self;
        proof {
            if old(self).can_mirror(class_name@) {
                old(self).lemma_mirror_kept(&made, &named, class_name@, object, string);
            }
        }
        let r = self.name_mirror(mirror_class, object, string, class_name);
        proof {
            old(self).lemma_advances_transitive(&named, self);
        }
        r
    }

    /// Gives the mirror `object` its name and interns it.
    fn name_mirror(
        &mut self,
        mirror_class: ClassRef,
        object: ObjectReference,
        string: ObjectReference,
        class_name: &str,
    ) -> (r: VmExecResult<ObjectReference>)
        requires
            old(self).wf(),
            old(self).static_area.mirror_of(class_name@) is None,
        ensures
            old(self).advances(final(self)),
            final(self).method_area == old(self).method_area,
            forall|text: Seq<char>|
                final(self).static_area.string_of(text) == old(self).static_area.string_of(text),
            r matches Ok(made) ==> made == object && final(self).static_area.mirror_of(
                class_name@,
            ) == Some(object) && final(self).field_value(object, "name"@) == Some(
                Value::ObjectRef(string),
            ) && final(self).heap_of(object.address).class_word(object) == old(self).heap_of(
                object.address,
            ).class_word(object),
            mirror_class < old(self).method_area@.len() && old(self).holds_object(
                object,
                mirror_class,
                old(self).method_area@[mirror_class as int].total_num_of_fields as int,
            ) && old(self).field_takes(mirror_class, "name"@, Value::ObjectRef(string)) ==> r is Ok,
    {
        let done = self.set_field_by_name(&object, "name", &Value::ObjectRef(string));
        proof {
            if mirror_class < old(self).method_area@.len() && old(self).holds_object(
                object,
                mirror_class,
                old(self).method_area@[mirror_class as int].total_num_of_fields as int,
            ) && old(self).field_takes(mirror_class, "name"@, Value::ObjectRef(string)) {
                old(self).lemma_field_taken(
                    self,
                    object,
                    mirror_class,
                    "name"@,
                    Value::ObjectRef(string),
                    done,
                );
            }
            if done is Ok {
                old(self).lemma_field_written(self, object, "name"@, Value::ObjectRef(string));
            }
        }
        match done {
            Ok(_) => {},
            Err(e) => {
                return Err(e);
            },
        }
        let ghost written = *self;
        self.static_area.intern_mirror(class_name, object);
        proof {
            assert(self.static_area.static_object_heap == written.static_area.static_object_heap);
            assert(self.field_value(object, "name"@) == written.field_value(object, "name"@));
        }
        Ok(object)
    }

    /// Once the mirror is allocated, the heap of the static area holds
    /// it, and the string of the name can be made where it has to be.
    pub proof fn lemma_mirror_allocated(
        &self,
        made: &VirtualMachine,
        name: Seq<char>,
        object: ObjectReference,
    )
        requires
            self.wf(),
            self.can_mirror(name),
            made.method_area@ == self.method_area@,
            made.object_heap == self.object_heap,
            made.static_area.string_constant_pool == self.static_area.string_constant_pool,
            made.static_area.static_object_heap.limit()
                == self.static_area.static_object_heap.limit(),
            ({
                let slots = self.method_area@[self.mirror_class() as int].total_num_of_fields;
                &&& object.address == 8 * self.static_area.static_object_heap.words().len() + 8
                    + STATIC_REGION
                &&& made.static_area.static_object_heap.words()
                    == self.static_area.static_object_heap.words() + seq![
                    crate::jvm_values::header_word(ReferenceValueType::Object, 16 + 8 * slots),
                    self.mirror_class() as u64,
                ] + crate::object_heap::zeros(slots as int)
                &&& made.static_area.static_object_heap.region() == STATIC_REGION
            }),
        ensures
            made.holds_object(
                object,
                self.mirror_class(),
                self.method_area@[self.mirror_class() as int].total_num_of_fields as int,
            ),
            self.static_area.string_of(name) is None ==> made.can_intern(name),
    {
        let first = self.static_area.static_object_heap.words().len() as int;
        assert(made.static_area.static_object_heap.first_word(object.address) == first);
    }

    /// Making the string of the name leaves the mirror where it is, and
    /// the string is the one that the mirror is to get.
    pub proof fn lemma_mirror_kept(
        &self,
        made: &VirtualMachine,
        named: &VirtualMachine,
        name: Seq<char>,
        object: ObjectReference,
        string: ObjectReference,
    )
        requires
            self.can_mirror(name),
            made.method_area@ == self.method_area@,
            named.method_area@ == self.method_area@,
            made.object_heap == self.object_heap,
            made.static_area.string_constant_pool == self.static_area.string_constant_pool,
            made.static_area.static_object_heap.words().len()
                == self.static_area.static_object_heap.words().len() + 2
                + self.method_area@[self.mirror_class() as int].total_num_of_fields,
            object.address % 8 == STATIC_REGION,
            made.holds_object(
                object,
                self.mirror_class(),
                self.method_area@[self.mirror_class() as int].total_num_of_fields as int,
            ),
            named.static_area.static_object_heap.region()
                == made.static_area.static_object_heap.region(),
            interns(*made, name, *named, Ok(string)),
            self.static_area.string_of(name) is None ==> made.can_intern(name),
        ensures
            named.holds_object(
                object,
                self.mirror_class(),
                self.method_area@[self.mirror_class() as int].total_num_of_fields as int,
            ),
            string == self.mirror_text(name),
            named.field_takes(self.mirror_class(), "name"@, Value::ObjectRef(string)),
    {
        let earlier = made.static_area.static_object_heap.words();
        let later = named.static_area.static_object_heap.words();
        let first = made.static_area.static_object_heap.first_word(object.address);
        if self.static_area.string_of(name) is None {
            assert(later.subrange(0, earlier.len() as int) == earlier);
            assert(later[first] == later.subrange(0, earlier.len() as int)[first]);
            assert(later[first + 1] == later.subrange(0, earlier.len() as int)[first + 1]);
        }
    }
}

/// Classes that were extended by loading have evolved.
pub proof fn lemma_extension_evolves(before: Seq<Class>, after: Seq<Class>)
    requires
        before.len() <= after.len(),
        forall|i: int| 0 <= i < before.len() ==> after[i] == before[i],
    ensures
        evolved(before, after),
{
}

} // verus!
