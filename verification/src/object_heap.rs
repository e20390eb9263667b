//! The managed heap: objects and arrays laid out in a memory chunk, and
//! checked access to their slots.
//!
//! An object is an allocation header, an object header with the handle
//! of its class, and one word for each slot. An array is an allocation
//! header, an array header of two words, the element type and the
//! length, and one word for each element.
use vstd::prelude::*;
use crate::jvm_error::{VmError, VmExecResult};
use crate::jvm_values::{
    element_of_code, header_kind, header_size, header_word, lemma_header_parts, size_of_array, size_of_object,
    AllocateHeader, ArrayElement, ArrayHeader, ArrayReference, ObjectReference, PrimaryType,
    ReferenceValueType, Value, MAX_ALLOCATION,
};
use crate::loaded_class::ClassRef;
use crate::memory_trunk::MemoryChunk;
use crate::text::{begins_with, starts_with_char, str_eq};

verus! {

/// The region of the heap on which the program allocates.
pub const MAIN_REGION: u64 = 0;
/// The region of the heap that holds interned strings and class mirrors.
pub const STATIC_REGION: u64 = 2;

/// How a slot is read and written.
#[derive(Debug, Clone, Copy, PartialEq, Eq, Structural)]
pub enum SlotKind {
    Byte,
    Char,
    Short,
    Boolean,
    Int,
    Long,
    Float,
    Double,
    /// A reference to an object, or null.
    Object,
    /// A reference to an array, or null.
    Array,
    /// A reference to an object or to an array, or null.
    Reference,
}

/// The integer `v` as a slot of kind `kind` holds it: a byte or a short
/// keeps its low bits and their sign, a char its low 16 bits, a boolean
/// its lowest bit.
pub open spec fn narrowed(kind: SlotKind, v: i32) -> i32 {
    match kind {
        SlotKind::Byte => (v as i8) as i32,
        SlotKind::Char => (v as u16) as i32,
        SlotKind::Short => (v as i16) as i32,
        SlotKind::Boolean => v & 1,
        _ => v,
    }
}

pub fn narrow(kind: SlotKind, v: i32) -> (r: i32)
    ensures
        r == narrowed(kind, v),
{
    match kind {
        SlotKind::Byte => (#[verifier::truncate] (v as i8)) as i32,
        SlotKind::Char => (#[verifier::truncate] (v as u16)) as i32,
        SlotKind::Short => (#[verifier::truncate] (v as i16)) as i32,
        SlotKind::Boolean => v & 1,
        _ => v,
    }
}

/// The value that a slot of kind `kind` holds when its word is `word`.
/// A zero word in a reference slot is null; another word is a reference
/// to an object where it is even and to an array where it is odd.
pub open spec fn slot_value(kind: SlotKind, word: u64) -> Result<Value, VmError> {
    match kind {
        SlotKind::Long => Ok(Value::Long(word as i64)),
        SlotKind::Float => Ok(Value::Float(word as u32)),
        SlotKind::Double => Ok(Value::Double(word)),
        SlotKind::Object => if word == 0 {
            Ok(Value::Null)
        } else if word % 2 == 0 {
            Ok(Value::ObjectRef(ObjectReference { address: word }))
        } else {
            Err(VmError::ValueTypeMissMatch)
        },
        SlotKind::Array => if word == 0 {
            Ok(Value::Null)
        } else if word % 2 == 1 {
            Ok(Value::ArrayRef(ArrayReference { address: (word - 1) as u64 }))
        } else {
            Err(VmError::ValueTypeMissMatch)
        },
        SlotKind::Reference => if word == 0 {
            Ok(Value::Null)
        } else if word % 2 == 0 {
            Ok(Value::ObjectRef(ObjectReference { address: word }))
        } else {
            Ok(Value::ArrayRef(ArrayReference { address: (word - 1) as u64 }))
        },
        _ => Ok(Value::Int(narrowed(kind, (word as u32) as i32))),
    }
}

/// Whether `address` can be the address of an allocation: not zero and a
/// multiple of two, so that the lowest bit is free to mark arrays.
pub open spec fn plausible(address: u64) -> bool {
    address != 0 && address % 2 == 0
}

/// The word that stores `value` in a slot of kind `kind`, or
/// `ValueTypeMissMatch` where such a slot cannot hold the value.
pub open spec fn slot_word(kind: SlotKind, value: Value) -> Result<u64, VmError> {
    match (kind, value) {
        (SlotKind::Long, Value::Long(v)) => Ok(v as u64),
        (SlotKind::Float, Value::Float(v)) => Ok(v as u64),
        (SlotKind::Double, Value::Double(v)) => Ok(v),
        (SlotKind::Object, Value::Null) => Ok(0),
        (SlotKind::Array, Value::Null) => Ok(0),
        (SlotKind::Reference, Value::Null) => Ok(0),
        (SlotKind::Object, Value::ObjectRef(o)) => if plausible(o.address) {
            Ok(o.address)
        } else {
            Err(VmError::ValueTypeMissMatch)
        },
        (SlotKind::Reference, Value::ObjectRef(o)) => if plausible(o.address) {
            Ok(o.address)
        } else {
            Err(VmError::ValueTypeMissMatch)
        },
        (SlotKind::Array, Value::ArrayRef(a)) => if plausible(a.address) {
            Ok((a.address + 1) as u64)
        } else {
            Err(VmError::ValueTypeMissMatch)
        },
        (SlotKind::Reference, Value::ArrayRef(a)) => if plausible(a.address) {
            Ok((a.address + 1) as u64)
        } else {
            Err(VmError::ValueTypeMissMatch)
        },
        (SlotKind::Byte, Value::Int(v)) => Ok((narrowed(kind, v) as u32) as u64),
        (SlotKind::Char, Value::Int(v)) => Ok((narrowed(kind, v) as u32) as u64),
        (SlotKind::Short, Value::Int(v)) => Ok((narrowed(kind, v) as u32) as u64),
        (SlotKind::Boolean, Value::Int(v)) => Ok((narrowed(kind, v) as u32) as u64),
        (SlotKind::Int, Value::Int(v)) => Ok((narrowed(kind, v) as u32) as u64),
        _ => Err(VmError::ValueTypeMissMatch),
    }
}

/// Reads a slot word as a value.
pub fn value_from_word(kind: SlotKind, word: u64) -> (r: VmExecResult<Value>)
    ensures
        r == slot_value(kind, word),
{
    match kind {
        SlotKind::Long => Ok(Value::Long(#[verifier::truncate] (word as i64))),
        SlotKind::Float => Ok(Value::Float(#[verifier::truncate] (word as u32))),
        SlotKind::Double => Ok(Value::Double(word)),
        SlotKind::Object => if word == 0 {
            Ok(Value::Null)
        } else if word % 2 == 0 {
            Ok(Value::ObjectRef(ObjectReference { address: word }))
        } else {
            Err(VmError::ValueTypeMissMatch)
        },
        SlotKind::Array => if word == 0 {
            Ok(Value::Null)
        } else if word % 2 == 1 {
            Ok(Value::ArrayRef(ArrayReference { address: word - 1 }))
        } else {
            Err(VmError::ValueTypeMissMatch)
        },
        SlotKind::Reference => if word == 0 {
            Ok(Value::Null)
        } else if word % 2 == 0 {
            Ok(Value::ObjectRef(ObjectReference { address: word }))
        } else {
            Ok(Value::ArrayRef(ArrayReference { address: word - 1 }))
        },
        _ => {
            let low: u32 = #[verifier::truncate] (word as u32);
            let v: i32 = #[verifier::truncate] (low as i32);
            Ok(Value::Int(narrow(kind, v)))
        },
    }
}

fn int_word(kind: SlotKind, v: i32) -> (r: u64)
    ensures
        r == (narrowed(kind, v) as u32) as u64,
{
    let n = narrow(kind, v);
    let low: u32 = #[verifier::truncate] (n as u32);
    low as u64
}

/// Makes the slot word for a value.
pub fn word_from_value(kind: SlotKind, value: &Value) -> (r: VmExecResult<u64>)
    ensures
        r == slot_word(kind, *value),
{
    match (kind, value) {
        (SlotKind::Long, Value::Long(v)) => Ok(#[verifier::truncate] (*v as u64)),
        (SlotKind::Float, Value::Float(v)) => Ok(*v as u64),
        (SlotKind::Double, Value::Double(v)) => Ok(*v),
        (SlotKind::Object, Value::Null) => Ok(0),
        (SlotKind::Array, Value::Null) => Ok(0),
        (SlotKind::Reference, Value::Null) => Ok(0),
        (SlotKind::Object, Value::ObjectRef(o)) | (SlotKind::Reference, Value::ObjectRef(o)) => {
            if o.address != 0 && o.address % 2 == 0 {
                Ok(o.address)
            } else {
                Err(VmError::ValueTypeMissMatch)
            }
        },
        (SlotKind::Array, Value::ArrayRef(a)) | (SlotKind::Reference, Value::ArrayRef(a)) => {
            if a.address != 0 && a.address % 2 == 0 {
                Ok(a.address + 1)
            } else {
                Err(VmError::ValueTypeMissMatch)
            }
        },
        (SlotKind::Byte, Value::Int(v)) => Ok(int_word(kind, *v)),
        (SlotKind::Char, Value::Int(v)) => Ok(int_word(kind, *v)),
        (SlotKind::Short, Value::Int(v)) => Ok(int_word(kind, *v)),
        (SlotKind::Boolean, Value::Int(v)) => Ok(int_word(kind, *v)),
        (SlotKind::Int, Value::Int(v)) => Ok(int_word(kind, *v)),
        _ => Err(VmError::ValueTypeMissMatch),
    }
}

/// A reference that was stored in a slot that takes every reference
/// comes back as it went in.
pub proof fn lemma_reference_round_trip(value: Value)
    requires
        value.is_reference(),
        slot_word(SlotKind::Reference, value) is Ok,
    ensures
        slot_value(SlotKind::Reference, slot_word(SlotKind::Reference, value)->Ok_0) == Ok::<
            _,
            VmError,
        >(value),
{
}

/// How the elements of an array of this element type are read and written.
pub open spec fn element_kind(element: ArrayElement) -> SlotKind {
    match element {
        ArrayElement::PrimaryValue(PrimaryType::Byte) => SlotKind::Byte,
        ArrayElement::PrimaryValue(PrimaryType::Char) => SlotKind::Char,
        ArrayElement::PrimaryValue(PrimaryType::Short) => SlotKind::Short,
        ArrayElement::PrimaryValue(PrimaryType::Boolean) => SlotKind::Boolean,
        ArrayElement::PrimaryValue(PrimaryType::Int) => SlotKind::Int,
        ArrayElement::PrimaryValue(PrimaryType::Long) => SlotKind::Long,
        ArrayElement::PrimaryValue(PrimaryType::Float) => SlotKind::Float,
        ArrayElement::PrimaryValue(PrimaryType::Double) => SlotKind::Double,
        ArrayElement::ClassReference(_) => SlotKind::Reference,
        ArrayElement::Array(_) => SlotKind::Array,
    }
}

pub fn kind_of_element(element: &ArrayElement) -> (r: SlotKind)
    ensures
        r == element_kind(*element),
{
    match element {
        ArrayElement::PrimaryValue(PrimaryType::Byte) => SlotKind::Byte,
        ArrayElement::PrimaryValue(PrimaryType::Char) => SlotKind::Char,
        ArrayElement::PrimaryValue(PrimaryType::Short) => SlotKind::Short,
        ArrayElement::PrimaryValue(PrimaryType::Boolean) => SlotKind::Boolean,
        ArrayElement::PrimaryValue(PrimaryType::Int) => SlotKind::Int,
        ArrayElement::PrimaryValue(PrimaryType::Long) => SlotKind::Long,
        ArrayElement::PrimaryValue(PrimaryType::Float) => SlotKind::Float,
        ArrayElement::PrimaryValue(PrimaryType::Double) => SlotKind::Double,
        ArrayElement::ClassReference(_) => SlotKind::Reference,
        ArrayElement::Array(_) => SlotKind::Array,
    }
}

/// How a field with this descriptor is read and written: the primitive
/// letters by their type, `Ljava/lang/Object;` as any reference, an
/// array descriptor as an array reference, and any other as an object
/// reference.
pub open spec fn descriptor_kind(descriptor: Seq<char>) -> SlotKind {
    if descriptor == "B"@ {
        SlotKind::Byte
    } else if descriptor == "C"@ {
        SlotKind::Char
    } else if descriptor == "D"@ {
        SlotKind::Double
    } else if descriptor == "F"@ {
        SlotKind::Float
    } else if descriptor == "I"@ {
        SlotKind::Int
    } else if descriptor == "J"@ {
        SlotKind::Long
    } else if descriptor == "S"@ {
        SlotKind::Short
    } else if descriptor == "Z"@ {
        SlotKind::Boolean
    } else if descriptor == "Ljava/lang/Object;"@ {
        SlotKind::Reference
    } else if begins_with(descriptor, '[') {
        SlotKind::Array
    } else {
        SlotKind::Object
    }
}

pub fn kind_of_descriptor(descriptor: &str) -> (r: SlotKind)
    ensures
        r == descriptor_kind(descriptor@),
{
    if str_eq(descriptor, "B") {
        SlotKind::Byte
    } else if str_eq(descriptor, "C") {
        SlotKind::Char
    } else if str_eq(descriptor, "D") {
        SlotKind::Double
    } else if str_eq(descriptor, "F") {
        SlotKind::Float
    } else if str_eq(descriptor, "I") {
        SlotKind::Int
    } else if str_eq(descriptor, "J") {
        SlotKind::Long
    } else if str_eq(descriptor, "S") {
        SlotKind::Short
    } else if str_eq(descriptor, "Z") {
        SlotKind::Boolean
    } else if str_eq(descriptor, "Ljava/lang/Object;") {
        SlotKind::Reference
    } else if starts_with_char(descriptor, '[') {
        SlotKind::Array
    } else {
        SlotKind::Object
    }
}

/// The value that a static field with this descriptor has before it is
/// assigned: zero for the numeric types, null for references.
pub open spec fn descriptor_zero(descriptor: Seq<char>) -> Value {
    match descriptor_kind(descriptor) {
        SlotKind::Long => Value::Long(0),
        SlotKind::Float => Value::Float(0),
        SlotKind::Double => Value::Double(0),
        SlotKind::Object => Value::Null,
        SlotKind::Array => Value::Null,
        SlotKind::Reference => Value::Null,
        _ => Value::Int(0),
    }
}

pub fn zero_of_descriptor(descriptor: &str) -> (r: Value)
    ensures
        r == descriptor_zero(descriptor@),
{
    match kind_of_descriptor(descriptor) {
        SlotKind::Long => Value::Long(0),
        SlotKind::Float => Value::Float(0),
        SlotKind::Double => Value::Double(0),
        SlotKind::Object => Value::Null,
        SlotKind::Array => Value::Null,
        SlotKind::Reference => Value::Null,
        _ => Value::Int(0),
    }
}

pub struct ObjectHeap {
    memory: MemoryChunk,
    region: u64,
}

/// `count` words of zero.
pub open spec fn zeros(count: int) -> Seq<u64> {
    Seq::new(count as nat, |i: int| 0u64)
}

impl ObjectHeap {
    /// The invariant of the heap.
    pub closed spec fn wf(&self) -> bool {
        &&& self.memory.wf()
        &&& (self.region == MAIN_REGION || self.region == STATIC_REGION)
    }

    /// The words of the heap, in address order.
    pub closed spec fn words(&self) -> Seq<u64> {
        self.memory.words()
    }

    /// The region of the address space that the heap covers.
    pub closed spec fn region(&self) -> u64 {
        self.region
    }

    /// The number of bytes that the heap may hand out.
    pub closed spec fn limit(&self) -> int {
        self.memory.limit()
    }

    /// The position of the first word of the allocation at `address`.
    pub open spec fn first_word(&self, address: u64) -> int {
        (address - self.region() - 8) / 8
    }

    /// Whether `address` is the address of a word that this heap has
    /// handed out.
    pub open spec fn is_here(&self, address: u64) -> bool {
        &&& address >= 8 + self.region()
        &&& (address - 8 - self.region()) % 8 == 0
        &&& self.first_word(address) < self.words().len()
    }

    /// The number of slots of the allocation at `address`, read from its
    /// headers: for an object what its recorded size leaves after the
    /// two headers, for an array its recorded length.
    pub open spec fn slots(&self, address: u64) -> int {
        let first = self.first_word(address);
        if header_kind(self.words()[first]) is Array {
            if first + 2 < self.words().len() {
                self.words()[first + 2] as int
            } else {
                0
            }
        } else {
            if header_size(self.words()[first]) >= 16 {
                (header_size(self.words()[first]) - 16) / 8
            } else {
                0
            }
        }
    }

    /// The position of slot `index` of the allocation of kind `shape` at
    /// `address`, or `None` where the heap has no such allocation or the
    /// allocation no such slot.
    pub open spec fn slot_position(
        &self,
        address: u64,
        shape: ReferenceValueType,
        index: int,
    ) -> Option<int> {
        let first = self.first_word(address);
        let position = first + (if shape is Array {
            3int
        } else {
            2int
        }) + index;
        if self.is_here(address) && header_kind(self.words()[first]) == shape && 0 <= index
            < self.slots(address) && position < self.words().len() {
            Some(position)
        } else {
            None
        }
    }

    /// A heap of `size` bytes for the objects and arrays of the program.
    pub fn new(size: usize) -> (r: ObjectHeap)
        ensures
            r.wf(),
            r.words().len() == 0,
            r.limit() == size,
            r.region() == MAIN_REGION,
    {
        ObjectHeap { memory: MemoryChunk::new(size), region: MAIN_REGION }
    }

    /// A heap of `size` bytes for interned strings and class mirrors.
    pub fn new_static(size: usize) -> (r: ObjectHeap)
        ensures
            r.wf(),
            r.words().len() == 0,
            r.limit() == size,
            r.region() == STATIC_REGION,
    {
        ObjectHeap { memory: MemoryChunk::new(size), region: STATIC_REGION }
    }

    /// Whether `address` belongs to the region of this heap.
    pub fn covers(&self, address: u64) -> (r: bool)
        requires
            self.wf(),
        ensures
            r == (address % 8 == self.region()),
    {
        address % 8 == self.region
    }

    /// Whether an object with `total_num_of_fields` slots can be
    /// allocated now.
    pub open spec fn object_fits(&self, total_num_of_fields: int) -> bool {
        &&& 16 + 8 * total_num_of_fields <= MAX_ALLOCATION
        &&& 8 * self.words().len() + 16 + 8 * total_num_of_fields <= self.limit()
    }

    /// Whether an array of `length` elements of type `element` can be
    /// allocated now.
    pub open spec fn array_fits(&self, element: ArrayElement, length: int) -> bool {
        &&& element.encodable()
        &&& 24 + 8 * length <= MAX_ALLOCATION
        &&& 8 * self.words().len() + 24 + 8 * length <= self.limit()
    }

    /// Allocates an object of the class `class`, which has
    /// `total_num_of_fields` slots. The object comes behind everything
    /// that is allocated; its slots are zero. `None`, and nothing
    /// changes, where the object does not fit.
    pub fn allocate_object(&mut self, class: ClassRef, total_num_of_fields: usize) -> (r: Option<
        ObjectReference,
    >)
        requires
            old(self).wf(),
        ensures
            final(self).wf(),
            final(self).region() == old(self).region(),
            final(self).limit() == old(self).limit(),
            old(self).object_fits(total_num_of_fields as int) ==> (r matches Some(object)
                && object.address == 8 * old(self).words().len() + 8 + old(self).region()) && final(self).words() == old(self).words() + seq![
                header_word(ReferenceValueType::Object, 16 + 8 * total_num_of_fields),
                class as u64,
            ] + zeros(total_num_of_fields as int),
            !old(self).object_fits(total_num_of_fields as int) ==> r is None && final(self).words()
                == old(self).words(),
    {
        if total_num_of_fields > (MAX_ALLOCATION - 16) / 8 {
            return None;
        }
        let size = size_of_object(total_num_of_fields);
        let ghost before = self.memory.words();
        proof {
            self.memory.lemma_bounds();
        }
        match self.memory.allocate(size) {
            None => None,
            Some((offset, size)) => {
                let first: usize = offset / 8;
                let header = AllocateHeader::new().with_kind(ReferenceValueType::Object).with_size(
                    size,
                );
                proof {
                    lemma_header_parts(header@);
                    assert(header@ == header_word(
                        ReferenceValueType::Object,
                        16 + 8 * total_num_of_fields,
                    ));
                    assert(size / 8 == 2 + total_num_of_fields);
                    assert(first == before.len());
                }
                self.memory.write(first, header.into_bits());
                self.memory.write(first + 1, class as u64);
                assert(self.memory.words() =~= before + seq![
                    header_word(ReferenceValueType::Object, 16 + 8 * total_num_of_fields),
                    class as u64,
                ] + zeros(total_num_of_fields as int));
                Some(ObjectReference { address: (offset as u64) + 8 + self.region })
            },
        }
    }

    /// Allocates an array of `length` elements of type `array_element`.
    /// The array comes behind everything that is allocated; its elements
    /// are zero. `None`, and nothing changes, where the array does not
    /// fit or its element type cannot be recorded.
    pub fn allocate_array(&mut self, array_element: &ArrayElement, length: usize) -> (r: Option<
        ArrayReference,
    >)
        requires
            old(self).wf(),
        ensures
            final(self).wf(),
            final(self).region() == old(self).region(),
            final(self).limit() == old(self).limit(),
            old(self).array_fits(*array_element, length as int) ==> (r matches Some(array)
                && array.address == 8 * old(self).words().len() + 8 + old(self).region()) && final(self).words() == old(self).words() + seq![
                header_word(ReferenceValueType::Array, 24 + 8 * length),
                array_element.code() as u64,
                length as u64,
            ] + zeros(length as int),
            !old(self).array_fits(*array_element, length as int) ==> r is None && final(self).words() == old(self).words(),
    {
        let code = match array_element.encode() {
            Some(code) => code,
            None => {
                return None;
            },
        };
        if length > (MAX_ALLOCATION - 24) / 8 {
            return None;
        }
        let size = size_of_array(length);
        let ghost before = self.memory.words();
        proof {
            self.memory.lemma_bounds();
        }
        match self.memory.allocate(size) {
            None => None,
            Some((offset, size)) => {
                let first: usize = offset / 8;
                let header = AllocateHeader::new().with_kind(ReferenceValueType::Array).with_size(
                    size,
                );
                proof {
                    lemma_header_parts(header@);
                    array_element.lemma_code_shape();
                    assert(header@ == header_word(ReferenceValueType::Array, 24 + 8 * length));
                    assert(size / 8 == 3 + length);
                    assert(first == before.len());
                }
                self.memory.write(first, header.into_bits());
                self.memory.write(first + 1, code);
                self.memory.write(first + 2, length as u64);
                assert(self.memory.words() =~= before + seq![
                    header_word(ReferenceValueType::Array, 24 + 8 * length),
                    array_element.code() as u64,
                    length as u64,
                ] + zeros(length as int));
                Some(ArrayReference { address: (offset as u64) + 8 + self.region })
            },
        }
    }

    /// The position of the first word of the allocation at `address`.
    fn locate(&self, address: u64) -> (r: Option<usize>)
        requires
            self.wf(),
        ensures
            match r {
                Some(first) => self.is_here(address) && first == self.first_word(address),
                None => !self.is_here(address),
            },
    {
        if address < 8 + self.region {
            return None;
        }
        let offset: u64 = address - 8 - self.region;
        if offset % 8 != 0 {
            return None;
        }
        let first: u64 = offset / 8;
        let used = self.memory.used();
        if first < (used / 8) as u64 {
            Some(first as usize)
        } else {
            None
        }
    }

    /// The allocation header of the allocation at `address`.
    pub fn get_header(&self, address: u64) -> (r: VmExecResult<AllocateHeader>)
        requires
            self.wf(),
        ensures
            self.is_here(address) ==> r is Ok && r->Ok_0@ == self.words()[self.first_word(address)],
            !self.is_here(address) ==> r == Err::<AllocateHeader, _>(VmError::IndexOutOfBounds),
    {
        match self.locate(address) {
            None => Err(VmError::IndexOutOfBounds),
            Some(first) => match self.memory.read(first) {
                Some(bits) => Ok(AllocateHeader::from_bits(bits)),
                None => Err(VmError::IndexOutOfBounds),
            },
        }
    }

    /// The class handle that the object header of `object` records.
    pub open spec fn class_word(&self, object: ObjectReference) -> Option<u64> {
        let first = self.first_word(object.address);
        if self.is_here(object.address) && header_kind(self.words()[first]) is Object && first + 1
            < self.words().len() && self.words()[first + 1] <= usize::MAX {
            Some(self.words()[first + 1])
        } else {
            None
        }
    }

    /// The class of an object.
    pub fn get_class(&self, object: &ObjectReference) -> (r: VmExecResult<ClassRef>)
        requires
            self.wf(),
        ensures
            match self.class_word(*object) {
                Some(c) => r == Ok::<_, VmError>(c as usize),
                None => r == Err::<ClassRef, _>(VmError::IndexOutOfBounds),
            },
    {
        let first = match self.locate(object.address) {
            Some(first) => first,
            None => {
                return Err(VmError::IndexOutOfBounds);
            },
        };
        let header = self.get_header(object.address)?;
        match header.kind() {
            ReferenceValueType::Array => Err(VmError::IndexOutOfBounds),
            ReferenceValueType::Object => {
                proof {
                    self.memory.lemma_bounds();
                }
                match self.memory.read(first + 1) {
                    Some(class) => if class <= usize::MAX as u64 {
                        Ok(class as usize)
                    } else {
                        Err(VmError::IndexOutOfBounds)
                    },
                    None => Err(VmError::IndexOutOfBounds),
                }
            },
        }
    }

    /// The two words of the array header of `array`: the code of the
    /// element type and the length.
    pub open spec fn array_words(&self, array: ArrayReference) -> Option<(u64, u64)> {
        let first = self.first_word(array.address);
        if self.is_here(array.address) && header_kind(self.words()[first]) is Array && first + 2
            < self.words().len() {
            Some((self.words()[first + 1], self.words()[first + 2]))
        } else {
            None
        }
    }

    /// The element type and the length that the array header of `array`
    /// records, where the heap has such an array and its header is sound.
    pub open spec fn array_shape(&self, array: ArrayReference) -> Option<(ArrayElement, usize)> {
        match self.array_words(array) {
            Some((code, length)) => match element_of_code(code) {
                Some(element) => if length <= usize::MAX {
                    Some((element, length as usize))
                } else {
                    None
                },
                None => None,
            },
            None => None,
        }
    }

    /// The header of an array: its element type and its length.
    pub fn get_array_header(&self, array: &ArrayReference) -> (r: VmExecResult<ArrayHeader>)
        requires
            self.wf(),
        ensures
            match self.array_shape(*array) {
                Some((element, length)) => r matches Ok(h) && h.element == element && h.array_size
                    == length,
                None => r matches Err(e) && e == VmError::IndexOutOfBounds,
            },
    {
        let first = match self.locate(array.address) {
            Some(first) => first,
            None => {
                return Err(VmError::IndexOutOfBounds);
            },
        };
        let header = self.get_header(array.address)?;
        match header.kind() {
            ReferenceValueType::Object => Err(VmError::IndexOutOfBounds),
            ReferenceValueType::Array => {
                let used = self.memory.used();
                if first >= used / 8 || used / 8 - first <= 2 {
                    return Err(VmError::IndexOutOfBounds);
                }
                let code = self.memory.read(first + 1);
                let length = self.memory.read(first + 2);
                match (code, length) {
                    (Some(code), Some(length)) => {
                        if length > usize::MAX as u64 {
                            return Err(VmError::IndexOutOfBounds);
                        }
                        match ArrayElement::decode(code) {
                            Some(element) => Ok(
                                ArrayHeader { element, array_size: length as usize },
                            ),
                            None => Err(VmError::IndexOutOfBounds),
                        }
                    },
                    _ => Err(VmError::IndexOutOfBounds),
                }
            },
        }
    }

    /// The number of slots of the allocation of kind `shape` at `address`.
    pub fn get_data_length(&self, address: u64, shape: ReferenceValueType) -> (r: VmExecResult<
        usize,
    >)
        requires
            self.wf(),
        ensures
            self.is_here(address) && header_kind(self.words()[self.first_word(address)]) == shape
                && self.slots(address) <= usize::MAX ==> r == Ok::<_, VmError>(
                self.slots(address) as usize,
            ),
            !(self.is_here(address) && header_kind(self.words()[self.first_word(address)]) == shape
                && self.slots(address) <= usize::MAX) ==> r == Err::<usize, _>(
                VmError::IndexOutOfBounds,
            ),
    {
        let first = match self.locate(address) {
            Some(first) => first,
            None => {
                return Err(VmError::IndexOutOfBounds);
            },
        };
        let header = self.get_header(address)?;
        if header.kind() != shape {
            return Err(VmError::IndexOutOfBounds);
        }
        match shape {
            ReferenceValueType::Object => {
                let size = header.size();
                if size >= 16 {
                    Ok((size - 16) / 8)
                } else {
                    Ok(0)
                }
            },
            ReferenceValueType::Array => {
                let used = self.memory.used();
                if used / 8 - first <= 2 {
                    return Ok(0);
                }
                match self.memory.read(first + 2) {
                    Some(length) => if length <= usize::MAX as u64 {
                        Ok(length as usize)
                    } else {
                        Err(VmError::IndexOutOfBounds)
                    },
                    None => Ok(0),
                }
            },
        }
    }

    /// The position of a slot.
    fn slot(&self, address: u64, shape: ReferenceValueType, index: usize) -> (r: Option<usize>)
        requires
            self.wf(),
        ensures
            match r {
                Some(p) => self.slot_position(address, shape, index as int) == Some(p as int) && p
                    < self.words().len(),
                None => self.slot_position(address, shape, index as int) is None,
            },
    {
        proof {
            self.memory.lemma_bounds();
        }
        let first = match self.locate(address) {
            Some(first) => first,
            None => {
                return None;
            },
        };
        let header = match self.memory.read(first) {
            Some(bits) => AllocateHeader::from_bits(bits),
            None => {
                return None;
            },
        };
        if header.kind() != shape {
            return None;
        }
        let words: usize = self.memory.used() / 8;
        let room: usize = words - first;
        let (skip, count): (usize, u64) = match shape {
            ReferenceValueType::Array => {
                if room <= 2 {
                    return None;
                }
                match self.memory.read(first + 2) {
                    Some(length) => (3, length),
                    None => {
                        return None;
                    },
                }
            },
            ReferenceValueType::Object => {
                let size = header.size();
                if size >= 16 {
                    (2, ((size - 16) / 8) as u64)
                } else {
                    (2, 0)
                }
            },
        };
        if index as u64 >= count {
            return None;
        }
        if room <= skip || index >= room - skip {
            return None;
        }
        Some(first + skip + index)
    }

    /// Reads slot `index` of the allocation of kind `shape` at `address`
    /// as a value of kind `kind`. A slot that does not exist is refused
    /// with `IndexOutOfBounds`.
    pub fn read_slot(&self, address: u64, shape: ReferenceValueType, index: usize, kind: SlotKind) -> (r:
        VmExecResult<Value>)
        requires
            self.wf(),
        ensures
            match self.slot_position(address, shape, index as int) {
                Some(p) => r == slot_value(kind, self.words()[p]),
                None => r == Err::<Value, _>(VmError::IndexOutOfBounds),
            },
    {
        match self.slot(address, shape, index) {
            None => Err(VmError::IndexOutOfBounds),
            Some(position) => match self.memory.read(position) {
                Some(word) => value_from_word(kind, word),
                None => Err(VmError::IndexOutOfBounds),
            },
        }
    }

    /// Writes `value` to slot `index` of the allocation of kind `shape`
    /// at `address`, as a value of kind `kind`. A slot that does not
    /// exist is refused with `IndexOutOfBounds`, a value that the slot
    /// cannot hold with `ValueTypeMissMatch`; then nothing changes.
    pub fn write_slot(
        &mut self,
        address: u64,
        shape: ReferenceValueType,
        index: usize,
        kind: SlotKind,
        value: &Value,
    ) -> (r: VmExecResult<()>)
        requires
            old(self).wf(),
        ensures
            final(self).wf(),
            final(self).region() == old(self).region(),
            final(self).limit() == old(self).limit(),
            match old(self).slot_position(address, shape, index as int) {
                None => r == Err::<(), _>(VmError::IndexOutOfBounds) && final(self).words() == old(self).words(),
                Some(p) => match slot_word(kind, *value) {
                    Err(e) => r == Err::<(), _>(e) && final(self).words() == old(self).words(),
                    Ok(word) => r is Ok && final(self).words() == old(self).words().update(p, word),
                },
            },
    {
        match self.slot(address, shape, index) {
            None => Err(VmError::IndexOutOfBounds),
            Some(position) => {
                let word = word_from_value(kind, value)?;
                self.memory.write(position, word);
                Ok(())
            },
        }
    }

    /// Reads element `offset` of an array, as its element type says.
    pub fn get_field_by_offset(&self, array: &ArrayReference, offset: usize) -> (r: VmExecResult<
        Value,
    >)
        requires
            self.wf(),
        ensures
            match self.array_shape(*array) {
                None => r == Err::<Value, _>(VmError::IndexOutOfBounds),
                Some((element, length)) => match self.slot_position(
                    array.address,
                    ReferenceValueType::Array,
                    offset as int,
                ) {
                    Some(p) => r == slot_value(element_kind(element), self.words()[p]),
                    None => r == Err::<Value, _>(VmError::IndexOutOfBounds),
                },
            },
    {
        let header = self.get_array_header(array)?;
        let kind = kind_of_element(&header.element);
        self.read_slot(array.address, ReferenceValueType::Array, offset, kind)
    }

    /// Writes element `offset` of an array, as its element type says.
    pub fn set_field_by_offset(&mut self, array: &ArrayReference, offset: usize, value: &Value) -> (r:
        VmExecResult<()>)
        requires
            old(self).wf(),
        ensures
            final(self).wf(),
            final(self).region() == old(self).region(),
            final(self).limit() == old(self).limit(),
            match old(self).array_shape(*array) {
                None => r == Err::<(), _>(VmError::IndexOutOfBounds) && final(self).words() == old(self).words(),
                Some((element, length)) => match old(self).slot_position(
                    array.address,
                    ReferenceValueType::Array,
                    offset as int,
                ) {
                    None => r == Err::<(), _>(VmError::IndexOutOfBounds) && final(self).words()
                        == old(self).words(),
                    Some(p) => match slot_word(element_kind(element), *value) {
                        Err(e) => r == Err::<(), _>(e) && final(self).words() == old(self).words(),
                        Ok(word) => r is Ok && final(self).words() == old(self).words().update(
                            p,
                            word,
                        ),
                    },
                },
            },
    {
        let header = match self.get_array_header(array) {
            Ok(header) => header,
            Err(e) => {
                return Err(e);
            },
        };
        let kind = kind_of_element(&header.element);
        self.write_slot(array.address, ReferenceValueType::Array, offset, kind, value)
    }

    /// Reads the slot of an instance field with the given 1-based slot
    /// number and descriptor.
    pub fn read_value_at_offset(&self, object: &ObjectReference, offset: usize, descriptor: &str) -> (r:
        VmExecResult<Value>)
        requires
            self.wf(),
        ensures
            offset == 0 ==> r == Err::<Value, _>(VmError::IndexOutOfBounds),
            offset > 0 ==> (match self.slot_position(
                object.address,
                ReferenceValueType::Object,
                offset - 1,
            ) {
                Some(p) => r == slot_value(descriptor_kind(descriptor@), self.words()[p]),
                None => r == Err::<Value, _>(VmError::IndexOutOfBounds),
            }),
    {
        if offset == 0 {
            return Err(VmError::IndexOutOfBounds);
        }
        let kind = kind_of_descriptor(descriptor);
        self.read_slot(object.address, ReferenceValueType::Object, offset - 1, kind)
    }

    /// Writes the slot of an instance field with the given 1-based slot
    /// number and descriptor.
    pub fn write_value_at_offset(
        &mut self,
        object: &ObjectReference,
        offset: usize,
        descriptor: &str,
        value: &Value,
    ) -> (r: VmExecResult<()>)
        requires
            old(self).wf(),
        ensures
            final(self).wf(),
            final(self).region() == old(self).region(),
            final(self).limit() == old(self).limit(),
            offset == 0 ==> r == Err::<(), _>(VmError::IndexOutOfBounds) && final(self).words()
                == old(self).words(),
            offset > 0 ==> (match old(self).slot_position(
                object.address,
                ReferenceValueType::Object,
                offset - 1,
            ) {
                None => r == Err::<(), _>(VmError::IndexOutOfBounds) && final(self).words() == old(self).words(),
                Some(p) => match slot_word(descriptor_kind(descriptor@), *value) {
                    Err(e) => r == Err::<(), _>(e) && final(self).words() == old(self).words(),
                    Ok(word) => r is Ok && final(self).words() == old(self).words().update(p, word),
                },
            }),
    {
        if offset == 0 {
            return Err(VmError::IndexOutOfBounds);
        }
        let kind = kind_of_descriptor(descriptor);
        self.write_slot(object.address, ReferenceValueType::Object, offset - 1, kind, value)
    }
}

} // verus!
