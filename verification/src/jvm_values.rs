//! The values the machine computes with, and the types that describe them.
use vstd::prelude::*;
use crate::jvm_error::{VmError, VmExecResult};
use crate::loaded_class::ClassRef;

verus! {

/// Bytes of the header that every allocation starts with.
pub const ALLOC_HEADER_SIZE: usize = 8;
/// Bytes of the header of an object, behind the allocation header.
pub const OBJECT_HEADER_SIZE: usize = 8;
/// Bytes of the header of an array, behind the allocation header.
pub const ARRAY_HEADER_SIZE: usize = 16;
/// The largest size that an allocation header can record.
pub const MAX_ALLOCATION: usize = 0xFFFF_FFF8;

/// `n` rounded up to the next multiple of eight.
pub open spec fn aligned8(n: int) -> int {
    if n % 8 == 0 {
        n
    } else {
        n + (8 - n % 8)
    }
}

pub fn align_to_8_bytes(required_size: usize) -> (r: usize)
    requires
        required_size <= usize::MAX - 7,
    ensures
        r == aligned8(required_size as int),
        r % 8 == 0,
        required_size <= r < required_size + 8,
{
    let rem: usize = required_size % 8;
    if rem == 0 {
        required_size
    } else {
        required_size + (8 - rem)
    }
}

/// The bytes of an object with `total_num_of_fields` slots: the two
/// headers and eight bytes for each slot.
pub fn size_of_object(total_num_of_fields: usize) -> (r: usize)
    requires
        16 + 8 * total_num_of_fields <= usize::MAX,
    ensures
        r == 16 + 8 * total_num_of_fields,
{
    ALLOC_HEADER_SIZE + OBJECT_HEADER_SIZE + 8 * total_num_of_fields
}

/// The bytes of an array of `length` elements: the two headers and eight
/// bytes for each element.
pub fn size_of_array(length: usize) -> (r: usize)
    requires
        24 + 8 * length <= usize::MAX,
    ensures
        r == 24 + 8 * length,
{
    ALLOC_HEADER_SIZE + ARRAY_HEADER_SIZE + length * 8
}

/// A reference to an object on a heap.
#[derive(PartialEq, Eq, Clone, Copy, Debug, Structural)]
pub struct ObjectReference {
    pub address: u64,
}

/// A reference to an array on a heap.
#[derive(PartialEq, Eq, Clone, Copy, Debug, Structural)]
pub struct ArrayReference {
    pub address: u64,
}

impl ObjectReference {
    /// An integer that stays the same for the object: the low 32 bits of
    /// its address.
    pub fn hash_code(&self) -> (r: i32)
        ensures
            r == self.address as i32,
    {
        #[verifier::truncate]
        (self.address as i32)
    }

    pub fn as_value(&self) -> (r: Value)
        ensures
            r == Value::ObjectRef(*self),
    {
        Value::ObjectRef(*self)
    }
}

impl ArrayReference {
    /// An integer that stays the same for the array: the low 32 bits of
    /// its address.
    pub fn hash_code(&self) -> (r: i32)
        ensures
            r == self.address as i32,
    {
        #[verifier::truncate]
        (self.address as i32)
    }

    pub fn as_value(&self) -> (r: Value)
        ensures
            r == Value::ArrayRef(*self),
    {
        Value::ArrayRef(*self)
    }
}

/// A value on the operand stack, in a local variable or in a slot.
/// `Float` and `Double` hold IEEE-754 bit patterns.
#[derive(Debug, Clone, Copy, PartialEq, Eq, Structural)]
pub enum Value {
    Uninitialized,
    Int(i32),
    Long(i64),
    Float(u32),
    Double(u64),
    ReturnAddress(u32),
    ObjectRef(ObjectReference),
    ArrayRef(ArrayReference),
    Null,
}

impl Default for Value {
    fn default() -> (r: Value)
        ensures
            r == Value::Uninitialized,
    {
        Value::Uninitialized
    }
}

impl Value {
    /// Whether the value takes two local variable slots.
    pub open spec fn is_wide(self) -> bool {
        self is Long || self is Double
    }

    /// Whether the value is a reference or null.
    pub open spec fn is_reference(self) -> bool {
        self is ObjectRef || self is ArrayRef || self is Null
    }

    pub fn wide(&self) -> (r: bool)
        ensures
            r == self.is_wide(),
    {
        match self {
            Value::Long(_) | Value::Double(_) => true,
            _ => false,
        }
    }

    pub fn reference(&self) -> (r: bool)
        ensures
            r == self.is_reference(),
    {
        match self {
            Value::ObjectRef(_) | Value::ArrayRef(_) | Value::Null => true,
            _ => false,
        }
    }

    pub fn get_int(&self) -> (r: VmExecResult<i32>)
        ensures
            match *self {
                Value::Int(v) => r == Ok::<_, VmError>(v),
                _ => r == Err::<i32, _>(VmError::ValueTypeMissMatch),
            },
    {
        if let Value::Int(v) = self {
            Ok(*v)
        } else {
            Err(VmError::ValueTypeMissMatch)
        }
    }

    pub fn get_long(&self) -> (r: VmExecResult<i64>)
        ensures
            match *self {
                Value::Long(v) => r == Ok::<_, VmError>(v),
                _ => r == Err::<i64, _>(VmError::ValueTypeMissMatch),
            },
    {
        if let Value::Long(v) = self {
            Ok(*v)
        } else {
            Err(VmError::ValueTypeMissMatch)
        }
    }

    /// The bit pattern of a `Float`.
    pub fn get_float(&self) -> (r: VmExecResult<u32>)
        ensures
            match *self {
                Value::Float(v) => r == Ok::<_, VmError>(v),
                _ => r == Err::<u32, _>(VmError::ValueTypeMissMatch),
            },
    {
        if let Value::Float(v) = self {
            Ok(*v)
        } else {
            Err(VmError::ValueTypeMissMatch)
        }
    }

    /// The bit pattern of a `Double`.
    pub fn get_double(&self) -> (r: VmExecResult<u64>)
        ensures
            match *self {
                Value::Double(v) => r == Ok::<_, VmError>(v),
                _ => r == Err::<u64, _>(VmError::ValueTypeMissMatch),
            },
    {
        if let Value::Double(v) = self {
            Ok(*v)
        } else {
            Err(VmError::ValueTypeMissMatch)
        }
    }

    pub fn get_object(&self) -> (r: VmExecResult<ObjectReference>)
        ensures
            match *self {
                Value::ObjectRef(v) => r == Ok::<_, VmError>(v),
                _ => r == Err::<ObjectReference, _>(VmError::ValueTypeMissMatch),
            },
    {
        if let Value::ObjectRef(v) = self {
            Ok(*v)
        } else {
            Err(VmError::ValueTypeMissMatch)
        }
    }

    pub fn get_array(&self) -> (r: VmExecResult<ArrayReference>)
        ensures
            match *self {
                Value::ArrayRef(v) => r == Ok::<_, VmError>(v),
                _ => r == Err::<ArrayReference, _>(VmError::ValueTypeMissMatch),
            },
    {
        if let Value::ArrayRef(v) = self {
            Ok(*v)
        } else {
            Err(VmError::ValueTypeMissMatch)
        }
    }
}

/// What an allocation holds.
#[derive(PartialEq, Eq, Clone, Copy, Debug, Structural)]
pub enum ReferenceValueType {
    Object,
    Array,
}

impl ReferenceValueType {
    pub fn into_bits(self) -> (r: u64)
        ensures
            r == (if self is Array {
                1u64
            } else {
                0u64
            }),
    {
        match self {
            ReferenceValueType::Object => 0,
            ReferenceValueType::Array => 1,
        }
    }

    pub fn from_bits(value: u64) -> (r: Self)
        ensures
            r == (if value == 1 {
                ReferenceValueType::Array
            } else {
                ReferenceValueType::Object
            }),
    {
        match value {
            1 => ReferenceValueType::Array,
            _ => ReferenceValueType::Object,
        }
    }
}

/// The word that every allocation starts with: the lowest bit says what
/// the allocation holds, the next 32 bits are its size in bytes.
#[derive(PartialEq, Eq, Clone, Copy, Debug, Structural)]
pub struct AllocateHeader {
    bits: u64,
}

/// The kind that the header word `bits` records.
pub open spec fn header_kind(bits: u64) -> ReferenceValueType {
    if bits % 2 == 1 {
        ReferenceValueType::Array
    } else {
        ReferenceValueType::Object
    }
}

/// The size that the header word `bits` records.
pub open spec fn header_size(bits: u64) -> int {
    ((bits / 2) % 0x1_0000_0000) as int
}

/// The header word for a kind and a size, with no other bit set.
pub open spec fn header_word(kind: ReferenceValueType, size: int) -> u64 {
    (2 * size + (if kind is Array {
        1int
    } else {
        0int
    })) as u64
}

impl View for AllocateHeader {
    type V = u64;

    closed spec fn view(&self) -> u64 {
        self.bits
    }
}

impl AllocateHeader {
    /// The header of an object of size 0.
    pub fn new() -> (r: AllocateHeader)
        ensures
            r@ == 0,
    {
        AllocateHeader { bits: 0 }
    }

    pub fn with_kind(self, kind: ReferenceValueType) -> (r: AllocateHeader)
        ensures
            header_kind(r@) == kind,
            header_size(r@) == header_size(self@),
            r@ / 0x2_0000_0000 == self@ / 0x2_0000_0000,
    {
        let rest: u64 = self.bits - self.bits % 2;
        AllocateHeader { bits: rest + kind.into_bits() }
    }

    pub fn with_size(self, size: usize) -> (r: AllocateHeader)
        requires
            size <= 0xFFFF_FFFF,
        ensures
            header_size(r@) == size,
            header_kind(r@) == header_kind(self@),
            r@ / 0x2_0000_0000 == self@ / 0x2_0000_0000,
    {
        let kind: u64 = self.bits % 2;
        let high: u64 = self.bits / 0x2_0000_0000;
        assert(high * 0x2_0000_0000 + 2 * 0xFFFF_FFFFu64 + 1 <= u64::MAX);
        AllocateHeader { bits: high * 0x2_0000_0000 + 2 * (size as u64) + kind }
    }

    pub fn kind(&self) -> (r: ReferenceValueType)
        ensures
            r == header_kind(self@),
    {
        ReferenceValueType::from_bits(self.bits % 2)
    }

    pub fn size(&self) -> (r: usize)
        ensures
            r == header_size(self@),
    {
        ((self.bits / 2) % 0x1_0000_0000) as usize
    }

    pub fn into_bits(self) -> (r: u64)
        ensures
            r == self@,
    {
        self.bits
    }

    pub fn from_bits(bits: u64) -> (r: AllocateHeader)
        ensures
            r@ == bits,
    {
        AllocateHeader { bits }
    }
}

/// A header made from nothing but a kind and a size is the header word
/// of that kind and size, and gives both back.
pub proof fn lemma_header_round_trip(kind: ReferenceValueType, size: int)
    requires
        0 <= size <= 0xFFFF_FFFF,
    ensures
        header_kind(header_word(kind, size)) == kind,
        header_size(header_word(kind, size)) == size,
{
}

/// The number that stands for a primitive type in the `newarray`
/// instruction and in array headers.
pub open spec fn primary_tag(t: PrimaryType) -> int {
    match t {
        PrimaryType::Boolean => 4,
        PrimaryType::Char => 5,
        PrimaryType::Float => 6,
        PrimaryType::Double => 7,
        PrimaryType::Byte => 8,
        PrimaryType::Short => 9,
        PrimaryType::Int => 10,
        PrimaryType::Long => 11,
    }
}

/// The primitive type for a tag, where the tag stands for one.
pub open spec fn primary_of_tag(tag: int) -> Option<PrimaryType> {
    if tag == 4 {
        Some(PrimaryType::Boolean)
    } else if tag == 5 {
        Some(PrimaryType::Char)
    } else if tag == 6 {
        Some(PrimaryType::Float)
    } else if tag == 7 {
        Some(PrimaryType::Double)
    } else if tag == 8 {
        Some(PrimaryType::Byte)
    } else if tag == 9 {
        Some(PrimaryType::Short)
    } else if tag == 10 {
        Some(PrimaryType::Int)
    } else if tag == 11 {
        Some(PrimaryType::Long)
    } else {
        None
    }
}

impl PrimaryType {
    pub fn tag(&self) -> (r: u8)
        ensures
            r == primary_tag(*self),
    {
        match self {
            PrimaryType::Boolean => 4,
            PrimaryType::Char => 5,
            PrimaryType::Float => 6,
            PrimaryType::Double => 7,
            PrimaryType::Byte => 8,
            PrimaryType::Short => 9,
            PrimaryType::Int => 10,
            PrimaryType::Long => 11,
        }
    }

    pub fn from_tag(tag: u8) -> (r: Option<PrimaryType>)
        ensures
            r == primary_of_tag(tag as int),
    {
        match tag {
            4 => Some(PrimaryType::Boolean),
            5 => Some(PrimaryType::Char),
            6 => Some(PrimaryType::Float),
            7 => Some(PrimaryType::Double),
            8 => Some(PrimaryType::Byte),
            9 => Some(PrimaryType::Short),
            10 => Some(PrimaryType::Int),
            11 => Some(PrimaryType::Long),
            _ => None,
        }
    }
}

/// The type of the elements of an array.
#[derive(Debug, PartialEq, Eq)]
pub enum ArrayElement {
    PrimaryValue(PrimaryType),
    ClassReference(ClassRef),
    Array(Box<ArrayElement>),
}

/// The largest class handle that an array header can record.
pub const MAX_ELEMENT_CLASS: usize = 0xFFFF_FFFF;

impl ArrayElement {
    /// The number of array dimensions of the element type itself.
    pub open spec fn depth(self) -> nat
        decreases self,
    {
        match self {
            ArrayElement::Array(inner) => 1 + inner.depth(),
            _ => 0,
        }
    }

    /// Whether the class handle at the bottom of the type, if there is
    /// one, fits an array header.
    pub open spec fn base_fits(self) -> bool
        decreases self,
    {
        match self {
            ArrayElement::Array(inner) => inner.base_fits(),
            ArrayElement::ClassReference(c) => c <= MAX_ELEMENT_CLASS,
            ArrayElement::PrimaryValue(_) => true,
        }
    }

    /// Whether an array header can record the type: at most 255
    /// dimensions, and a class handle that fits.
    pub open spec fn encodable(self) -> bool {
        self.depth() <= 255 && self.base_fits()
    }

    /// 1 for a primitive type at the bottom of the type, 2 for a class.
    pub open spec fn base_kind(self) -> int
        decreases self,
    {
        match self {
            ArrayElement::PrimaryValue(_) => 1,
            ArrayElement::ClassReference(_) => 2,
            ArrayElement::Array(inner) => inner.base_kind(),
        }
    }

    /// The tag of the primitive type, or the handle of the class, at the
    /// bottom of the type.
    pub open spec fn payload(self) -> int
        decreases self,
    {
        match self {
            ArrayElement::PrimaryValue(t) => primary_tag(t),
            ArrayElement::ClassReference(c) => c as int,
            ArrayElement::Array(inner) => inner.payload(),
        }
    }

    /// The word that records the type in an array header: the lowest
    /// byte is 1 for a primitive type and 2 for a class at the bottom,
    /// the next byte is the number of dimensions, and the rest is the tag
    /// of the primitive type or the handle of the class.
    pub open spec fn code(self) -> int {
        self.base_kind() + 0x100 * self.depth() + 0x1_0000 * self.payload()
    }

    pub proof fn lemma_code_shape(self)
        requires
            self.encodable(),
        ensures
            1 <= self.base_kind() <= 2,
            0 <= self.payload() <= 0xFFFF_FFFF,
            self.code() % 0x100 == self.base_kind(),
            (self.code() / 0x100) % 0x100 == self.depth(),
            self.code() / 0x1_0000 == self.payload(),
            0 < self.code() <= 2 + 0x100 * 255 + 0x1_0000 * 0xFFFF_FFFF,
        decreases self,
    {
        match self {
            ArrayElement::Array(inner) => {
                inner.lemma_code_shape();
            },
            _ => {},
        }
        lemma_packed(self.base_kind(), self.depth() as int, self.payload());
    }

    /// The word that records the type, or `None` where no word can.
    pub fn encode(&self) -> (r: Option<u64>)
        ensures
            self.encodable() ==> r == Some(self.code() as u64),
            !self.encodable() ==> r is None,
        decreases self,
    {
        match self {
            ArrayElement::PrimaryValue(t) => Some(1 + 0x1_0000 * (t.tag() as u64)),
            ArrayElement::ClassReference(c) => {
                if *c <= MAX_ELEMENT_CLASS {
                    Some(2 + 0x1_0000 * (*c as u64))
                } else {
                    None
                }
            },
            ArrayElement::Array(inner) => {
                match inner.encode() {
                    None => None,
                    Some(code) => {
                        proof {
                            inner.lemma_code_shape();
                        }
                        if (code / 0x100) % 0x100 >= 255 {
                            None
                        } else {
                            Some(code + 0x100)
                        }
                    },
                }
            },
        }
    }

    /// The type that the word `code` of an array header records.
    pub fn decode(code: u64) -> (r: Option<ArrayElement>)
        ensures
            r == element_of_code(code),
    {
        let r = ArrayElement::decode_word(code);
        proof {
            if r is Some {
                assert(r->0.encodable() && r->0.code() == code);
                lemma_code_injective(r->0, element_of_code(code)->0);
            }
        }
        r
    }

    #[verifier::spinoff_prover]
    fn decode_word(code: u64) -> (r: Option<ArrayElement>)
        ensures
            r matches Some(e) ==> e.encodable() && e.code() == code,
            r is None ==> forall|e: ArrayElement| !(e.encodable() && e.code() == code),
        decreases (code / 0x100) % 0x100,
    {
        let kind: u64 = code % 0x100;
        let depth: u64 = (code / 0x100) % 0x100;
        let payload: u64 = code / 0x1_0000;
        if depth == 0 {
            let r = if kind == 1 {
                if payload > 11 {
                    None
                } else {
                    match PrimaryType::from_tag(payload as u8) {
                        Some(t) => Some(ArrayElement::PrimaryValue(t)),
                        None => None,
                    }
                }
            } else if kind == 2 {
                if payload <= MAX_ELEMENT_CLASS as u64 {
                    Some(ArrayElement::ClassReference(payload as usize))
                } else {
                    None
                }
            } else {
                None
            };
            proof {
                if r is Some {
                    r->0.lemma_code_shape();
                    lemma_unpacked(code as int);
                }
                if r is None {
                    assert forall|e: ArrayElement| !(e.encodable() && e.code() == code) by {
                        if e.encodable() && e.code() == code {
                            e.lemma_code_shape();
                            assert(e.depth() == 0);
                        }
                    }
                }
            }
            r
        } else {
            let inner = ArrayElement::decode_word(code - 0x100);
            proof {
                lemma_unpacked(code as int);
                lemma_unpacked(code - 0x100);
            }
            match inner {
                Some(inner) => {
                    proof {
                        inner.lemma_code_shape();
                    }
                    Some(ArrayElement::Array(Box::new(inner)))
                },
                None => {
                    proof {
                        assert forall|e: ArrayElement| !(e.encodable() && e.code() == code) by {
                            if e.encodable() && e.code() == code {
                                e.lemma_code_shape();
                                match e {
                                    ArrayElement::Array(below) => {
                                        assert(below.encodable());
                                        assert(below.code() == code - 0x100);
                                    },
                                    _ => {
                                        assert(e.depth() == 0);
                                    },
                                }
                            }
                        }
                    }
                    None
                },
            }
        }
    }
}

/// A word is packed from its lowest byte, the byte above it and the
/// rest.
pub proof fn lemma_unpacked(v: int)
    requires
        0 <= v,
    ensures
        v == v % 0x100 + 0x100 * ((v / 0x100) % 0x100) + 0x1_0000 * (v / 0x1_0000),
        v >= 0x100 && (v / 0x100) % 0x100 > 0 ==> (v - 0x100) % 0x100 == v % 0x100 && ((v - 0x100)
            / 0x100) % 0x100 == (v / 0x100) % 0x100 - 1 && (v - 0x100) / 0x1_0000 == v / 0x1_0000,
{
}

/// A word packed from a byte, a second byte and the rest gives the three
/// parts back.
pub proof fn lemma_packed(low: int, middle: int, high: int)
    requires
        0 <= low < 0x100,
        0 <= middle < 0x100,
        0 <= high,
    ensures
        (low + 0x100 * middle + 0x1_0000 * high) % 0x100 == low,
        ((low + 0x100 * middle + 0x1_0000 * high) / 0x100) % 0x100 == middle,
        (low + 0x100 * middle + 0x1_0000 * high) / 0x1_0000 == high,
{
    let v = low + 0x100 * middle + 0x1_0000 * high;
    assert(v == 0x100 * (middle + 0x100 * high) + low);
    assert(v / 0x100 == middle + 0x100 * high);
    assert(v % 0x100 == low);
    assert((middle + 0x100 * high) % 0x100 == middle);
    assert(v == 0x1_0000 * high + (low + 0x100 * middle));
}

/// A header word is made of its kind, its size and the bits above both.
pub proof fn lemma_header_parts(bits: u64)
    ensures
        bits == (bits / 0x2_0000_0000) * 0x2_0000_0000 + 2 * header_size(bits) + (if header_kind(
            bits,
        ) is Array {
            1int
        } else {
            0int
        }),
{
}

/// The element type that the word `code` records: the one type that an
/// array header can record and whose code is `code`, where there is one.
pub open spec fn element_of_code(code: u64) -> Option<ArrayElement> {
    if exists|e: ArrayElement| e.encodable() && e.code() == code {
        Some(choose|e: ArrayElement| e.encodable() && e.code() == code)
    } else {
        None
    }
}

/// Every type that an array header can record is read back from its code.
pub proof fn lemma_element_round_trip(e: ArrayElement)
    requires
        e.encodable(),
    ensures
        element_of_code(e.code() as u64) == Some(e),
{
    e.lemma_code_shape();
    let found = choose|f: ArrayElement| f.encodable() && f.code() == e.code() as u64;
    lemma_code_injective(e, found);
}

/// Two types with the same code are the same type.
pub proof fn lemma_code_injective(a: ArrayElement, b: ArrayElement)
    requires
        a.encodable(),
        b.encodable(),
        a.code() == b.code(),
    ensures
        a == b,
    decreases a,
{
    a.lemma_code_shape();
    b.lemma_code_shape();
    match (a, b) {
        (ArrayElement::Array(x), ArrayElement::Array(y)) => {
            lemma_code_injective(*x, *y);
        },
        _ => {},
    }
}

/// The header of an array, behind its allocation header.
pub struct ArrayHeader {
    pub element: ArrayElement,
    pub array_size: usize,
}

/// The header of an object, behind its allocation header.
pub struct ObjectHeader {
    pub class_ref: ClassRef,
}

/// The primitive types.
#[derive(Debug, Clone, Copy, PartialEq, Eq, Structural)]
pub enum PrimaryType {
    Byte,
    Char,
    Double,
    Float,
    Int,
    Long,
    Short,
    Boolean,
}

/// The type of a parameter or of a result.
#[derive(Debug, PartialEq)]
pub enum ValueType {
    Primary(PrimaryType),
    Object(String),
    /// Element type and number of dimensions.
    PrimaryArray(PrimaryType, usize),
    /// Element class and number of dimensions.
    ObjectArray(String, usize),
    Void,
}

/// A type as a mathematical value.
pub enum ValueTypeView {
    Primary(PrimaryType),
    Object(Seq<char>),
    PrimaryArray(PrimaryType, usize),
    ObjectArray(Seq<char>, usize),
    Void,
}

impl View for ValueType {
    type V = ValueTypeView;

    open spec fn view(&self) -> ValueTypeView {
        match self {
            ValueType::Primary(t) => ValueTypeView::Primary(*t),
            ValueType::Object(name) => ValueTypeView::Object(name@),
            ValueType::PrimaryArray(t, n) => ValueTypeView::PrimaryArray(*t, *n),
            ValueType::ObjectArray(name, n) => ValueTypeView::ObjectArray(name@, *n),
            ValueType::Void => ValueTypeView::Void,
        }
    }
}

} // verus!
