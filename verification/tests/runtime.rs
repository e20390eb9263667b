use lite_jvm::arithmetic::{
    compare_doubles, compare_longs, compare_singles, int_math, is_double_division_returning_nan,
    is_single_division_returning_nan, long_math, IntOp, DOUBLE_NAN, SINGLE_NAN,
};
use lite_jvm::class_file_error::ClassFileError;
use lite_jvm::class_finder::{ClassFinder, ClassPath, Verdict};
use lite_jvm::constant_pool::{ConstantPool, ConstantPoolEntry};
use lite_jvm::jvm_error::{VmError, VmExecResult};
use lite_jvm::jvm_values::{
    align_to_8_bytes, size_of_array, size_of_object, AllocateHeader, ArrayElement, ArrayReference,
    ObjectReference, PrimaryType, ReferenceValueType, Value,
};
use lite_jvm::memory_trunk::MemoryChunk;
use lite_jvm::native_method_area::{NativeMethod, NativeMethodArea};
use lite_jvm::object_heap::{
    kind_of_descriptor, narrow, value_from_word, word_from_value, zero_of_descriptor, ObjectHeap, SlotKind,
};
use lite_jvm::operand_stack::OperandStack;
use lite_jvm::runtime_attribute_info::{
    get_attr_as_code, get_attr_as_constant_value, get_attr_as_exception, ConstantValueAttribute,
};
use lite_jvm::runtime_constant_pool::RuntimeConstantPool;
use lite_jvm::stack::{CallStack, MAX_STACK_DEPTH};
use lite_jvm::stack_trace_element::StackTraceElement;
use lite_jvm::static_field_area::StaticArea;
use lite_jvm::text::{chars_of, decimal_text, starts_with_char, str_eq, utf16_units};

#[test]
fn memory_is_handed_out_front_to_back() {
    let mut chunk = MemoryChunk::new(40);
    assert_eq!(chunk.used(), 0);
    assert_eq!(chunk.allocate(16), Some((0, 16)));
    assert_eq!(chunk.allocate(24), Some((16, 24)));
    assert_eq!(chunk.used(), 40);
    assert_eq!(chunk.allocate(8), None);
    assert_eq!(chunk.used(), 40);
    assert_eq!(chunk.allocate(0), Some((40, 0)));
    assert_eq!(chunk.read(4), Some(0));
    assert_eq!(chunk.read(5), None);
    assert!(chunk.write(4, 77));
    assert!(!chunk.write(5, 78));
    assert_eq!(chunk.read(4), Some(77));
    assert_eq!(chunk.read(3), Some(0));
    chunk.reset();
    assert_eq!(chunk.used(), 0);
    assert_eq!(chunk.read(0), None);
    assert_eq!(chunk.allocate(40), Some((0, 40)));
    assert_eq!(chunk.read(4), Some(0));
}

#[test]
fn sizes_are_multiples_of_eight() {
    assert_eq!(align_to_8_bytes(0), 0);
    assert_eq!(align_to_8_bytes(1), 8);
    assert_eq!(align_to_8_bytes(8), 8);
    assert_eq!(align_to_8_bytes(9), 16);
    assert_eq!(size_of_object(0), 16);
    assert_eq!(size_of_object(3), 40);
    assert_eq!(size_of_array(0), 24);
    assert_eq!(size_of_array(5), 64);
}

#[test]
fn allocation_headers() {
    let header = AllocateHeader::new();
    assert_eq!(header.into_bits(), 0);
    assert_eq!(header.kind(), ReferenceValueType::Object);
    assert_eq!(header.size(), 0);
    let header = header.with_kind(ReferenceValueType::Array).with_size(48);
    assert_eq!(header.kind(), ReferenceValueType::Array);
    assert_eq!(header.size(), 48);
    assert_eq!(header.into_bits(), 97);
    let header = header.with_kind(ReferenceValueType::Object);
    assert_eq!(header.into_bits(), 96);
    let header = header.with_size(0xFFFF_FFFF);
    assert_eq!(header.size(), 0xFFFF_FFFF);
    assert_eq!(header.into_bits(), 0x1_FFFF_FFFE);
    let header = AllocateHeader::from_bits(0xABCD_0000_0000_0061);
    assert_eq!(header.size(), 48);
    assert_eq!(header.kind(), ReferenceValueType::Array);
    assert_eq!(header.with_size(8).into_bits(), 0xABCD_0000_0000_0011);
    assert_eq!(ReferenceValueType::Object.into_bits(), 0);
    assert_eq!(ReferenceValueType::Array.into_bits(), 1);
    assert_eq!(ReferenceValueType::from_bits(1), ReferenceValueType::Array);
    assert_eq!(ReferenceValueType::from_bits(0), ReferenceValueType::Object);
    assert_eq!(ReferenceValueType::from_bits(2), ReferenceValueType::Object);
}

#[test]
fn element_types_are_numbers_in_array_headers() {
    let types = [
        (ArrayElement::PrimaryValue(PrimaryType::Boolean), 4u64),
        (ArrayElement::PrimaryValue(PrimaryType::Char), 5),
        (ArrayElement::PrimaryValue(PrimaryType::Float), 6),
        (ArrayElement::PrimaryValue(PrimaryType::Double), 7),
        (ArrayElement::PrimaryValue(PrimaryType::Byte), 8),
        (ArrayElement::PrimaryValue(PrimaryType::Short), 9),
        (ArrayElement::PrimaryValue(PrimaryType::Int), 10),
        (ArrayElement::PrimaryValue(PrimaryType::Long), 11),
    ];
    for (element, tag) in types {
        assert_eq!(element.encode(), Some(1 + 0x1_0000 * tag));
        assert_eq!(ArrayElement::decode(1 + 0x1_0000 * tag), Some(element));
    }
    for tag in 4u8..12 {
        assert_eq!(PrimaryType::from_tag(tag).unwrap().tag(), tag);
    }
    assert_eq!(PrimaryType::from_tag(3), None);
    assert_eq!(PrimaryType::from_tag(12), None);
    assert_eq!(PrimaryType::Int.tag(), 10);
    let nested = ArrayElement::Array(Box::new(ArrayElement::Array(Box::new(ArrayElement::ClassReference(7)))));
    let code = nested.encode().unwrap();
    assert_eq!(code, 0x7_0202);
    assert_eq!(ArrayElement::decode(code), Some(nested));
    let class = ArrayElement::ClassReference(0);
    assert_eq!(class.encode(), Some(2));
    assert_eq!(ArrayElement::decode(2), Some(class));
    assert_eq!(ArrayElement::ClassReference(0x1_0000_0000).encode(), None);
    let ints = ArrayElement::Array(Box::new(ArrayElement::PrimaryValue(PrimaryType::Int)));
    assert_ne!(ints.encode(), ArrayElement::PrimaryValue(PrimaryType::Int).encode());
    assert_eq!(ints.encode(), Some(0xA_0101));
    assert_eq!(ArrayElement::decode(0xA_0101), Some(ints));
    assert_eq!(ArrayElement::decode(0), None);
    assert_eq!(ArrayElement::decode(3), None);
    assert_eq!(ArrayElement::decode(0x3_0001), None);
    assert_eq!(ArrayElement::decode(0xC_0001), None);
    assert_eq!(ArrayElement::decode(u64::MAX), None);
}

#[test]
fn values_know_what_they_are() {
    assert_eq!(Value::default(), Value::Uninitialized);
    assert!(Value::Long(1).wide());
    assert!(Value::Double(0).wide());
    assert!(!Value::Int(1).wide());
    assert!(!Value::Null.wide());
    assert!(Value::Null.reference());
    assert!(Value::ObjectRef(ObjectReference { address: 8 }).reference());
    assert!(Value::ArrayRef(ArrayReference { address: 8 }).reference());
    assert!(!Value::Int(0).reference());
    assert_eq!(Value::Int(-4).get_int(), Ok(-4));
    assert_eq!(Value::Long(-4).get_int(), Err(VmError::ValueTypeMissMatch));
    assert_eq!(Value::Long(1 << 40).get_long(), Ok(1 << 40));
    assert_eq!(Value::Int(1).get_long(), Err(VmError::ValueTypeMissMatch));
    assert_eq!(Value::Float(0x3f80_0000).get_float(), Ok(1f32.to_bits()));
    assert_eq!(Value::Double(7).get_float(), Err(VmError::ValueTypeMissMatch));
    assert_eq!(Value::Double(7).get_double(), Ok(7));
    assert_eq!(Value::Float(7).get_double(), Err(VmError::ValueTypeMissMatch));
    let object = ObjectReference { address: 0x1_0000_0008 };
    let array = ArrayReference { address: 24 };
    assert_eq!(object.as_value().get_object(), Ok(object));
    assert_eq!(array.as_value().get_array(), Ok(array));
    assert_eq!(array.as_value().get_object(), Err(VmError::ValueTypeMissMatch));
    assert_eq!(Value::Null.get_object(), Err(VmError::ValueTypeMissMatch));
    assert_eq!(object.as_value().get_array(), Err(VmError::ValueTypeMissMatch));
    assert_eq!(object.hash_code(), 8);
    assert_eq!(array.hash_code(), 24);
    assert_eq!(ObjectReference { address: 0xFFFF_FFF8 }.hash_code(), -8);
}

#[test]
fn slots_hold_values_as_words() {
    assert_eq!(narrow(SlotKind::Byte, 0x1ff), -1);
    assert_eq!(narrow(SlotKind::Byte, 0x7f), 127);
    assert_eq!(narrow(SlotKind::Char, -1), 0xffff);
    assert_eq!(narrow(SlotKind::Short, 0x18000), -32768);
    assert_eq!(narrow(SlotKind::Boolean, 3), 1);
    assert_eq!(narrow(SlotKind::Boolean, 2), 0);
    assert_eq!(narrow(SlotKind::Int, i32::MIN), i32::MIN);
    assert_eq!(word_from_value(SlotKind::Int, &Value::Int(-1)), Ok(0xffff_ffff));
    assert_eq!(value_from_word(SlotKind::Int, 0xffff_ffff), Ok(Value::Int(-1)));
    assert_eq!(word_from_value(SlotKind::Byte, &Value::Int(0x180)), Ok(0xffff_ff80));
    assert_eq!(value_from_word(SlotKind::Byte, 0xffff_ff80), Ok(Value::Int(-128)));
    assert_eq!(word_from_value(SlotKind::Char, &Value::Int(-1)), Ok(0xffff));
    assert_eq!(word_from_value(SlotKind::Long, &Value::Long(-2)), Ok(u64::MAX - 1));
    assert_eq!(value_from_word(SlotKind::Long, u64::MAX - 1), Ok(Value::Long(-2)));
    assert_eq!(word_from_value(SlotKind::Float, &Value::Float(0x4248_0000)), Ok(0x4248_0000));
    assert_eq!(value_from_word(SlotKind::Float, 0x4248_0000), Ok(Value::Float(50f32.to_bits())));
    assert_eq!(word_from_value(SlotKind::Double, &Value::Double(u64::MAX)), Ok(u64::MAX));
    assert_eq!(value_from_word(SlotKind::Double, 9), Ok(Value::Double(9)));
    let object = ObjectReference { address: 16 };
    let array = ArrayReference { address: 16 };
    assert_eq!(word_from_value(SlotKind::Object, &Value::ObjectRef(object)), Ok(16));
    assert_eq!(word_from_value(SlotKind::Reference, &Value::ArrayRef(array)), Ok(17));
    assert_eq!(word_from_value(SlotKind::Array, &Value::ArrayRef(array)), Ok(17));
    assert_eq!(word_from_value(SlotKind::Object, &Value::Null), Ok(0));
    assert_eq!(word_from_value(SlotKind::Object, &Value::ArrayRef(array)), Err(VmError::ValueTypeMissMatch));
    assert_eq!(word_from_value(SlotKind::Array, &Value::ObjectRef(object)), Err(VmError::ValueTypeMissMatch));
    assert_eq!(word_from_value(SlotKind::Int, &Value::Long(1)), Err(VmError::ValueTypeMissMatch));
    assert_eq!(word_from_value(SlotKind::Long, &Value::Int(1)), Err(VmError::ValueTypeMissMatch));
    assert_eq!(word_from_value(SlotKind::Reference, &Value::Int(0)), Err(VmError::ValueTypeMissMatch));
    assert_eq!(
        word_from_value(SlotKind::Object, &Value::ObjectRef(ObjectReference { address: 0 })),
        Err(VmError::ValueTypeMissMatch)
    );
    assert_eq!(value_from_word(SlotKind::Reference, 0), Ok(Value::Null));
    assert_eq!(value_from_word(SlotKind::Reference, 16), Ok(Value::ObjectRef(object)));
    assert_eq!(value_from_word(SlotKind::Reference, 17), Ok(Value::ArrayRef(array)));
    assert_eq!(value_from_word(SlotKind::Object, 17), Err(VmError::ValueTypeMissMatch));
    assert_eq!(value_from_word(SlotKind::Array, 16), Err(VmError::ValueTypeMissMatch));
    assert_eq!(kind_of_descriptor("I"), SlotKind::Int);
    assert_eq!(kind_of_descriptor("Z"), SlotKind::Boolean);
    assert_eq!(kind_of_descriptor("J"), SlotKind::Long);
    assert_eq!(kind_of_descriptor("D"), SlotKind::Double);
    assert_eq!(kind_of_descriptor("F"), SlotKind::Float);
    assert_eq!(kind_of_descriptor("B"), SlotKind::Byte);
    assert_eq!(kind_of_descriptor("C"), SlotKind::Char);
    assert_eq!(kind_of_descriptor("S"), SlotKind::Short);
    assert_eq!(kind_of_descriptor("[I"), SlotKind::Array);
    assert_eq!(kind_of_descriptor("Ljava/lang/String;"), SlotKind::Object);
    assert_eq!(kind_of_descriptor("Ljava/lang/Object;"), SlotKind::Reference);
    assert_eq!(zero_of_descriptor("I"), Value::Int(0));
    assert_eq!(zero_of_descriptor("S"), Value::Int(0));
    assert_eq!(zero_of_descriptor("J"), Value::Long(0));
    assert_eq!(zero_of_descriptor("F"), Value::Float(0));
    assert_eq!(zero_of_descriptor("D"), Value::Double(0));
    assert_eq!(zero_of_descriptor("[J"), Value::Null);
    assert_eq!(zero_of_descriptor("Ljava/lang/Object;"), Value::Null);
}

#[test]
fn objects_and_arrays_on_the_heap() {
    let mut heap = ObjectHeap::new(128);
    assert!(heap.covers(8));
    assert!(!heap.covers(10));
    let object = heap.allocate_object(5, 2).unwrap();
    assert_eq!(object.address, 8);
    let element = ArrayElement::PrimaryValue(PrimaryType::Short);
    let array = heap.allocate_array(&element, 3).unwrap();
    assert_eq!(array.address, 40);
    assert_eq!(heap.get_class(&object), Ok(5));
    assert_eq!(heap.get_header(8).unwrap().size(), 32);
    assert_eq!(heap.get_header(8).unwrap().kind(), ReferenceValueType::Object);
    assert_eq!(heap.get_header(40).unwrap().size(), 48);
    assert_eq!(heap.get_header(40).unwrap().kind(), ReferenceValueType::Array);
    assert_eq!(heap.get_header(9).err(), Some(VmError::IndexOutOfBounds));
    assert_eq!(heap.get_header(0).err(), Some(VmError::IndexOutOfBounds));
    assert_eq!(heap.get_header(88).err(), Some(VmError::IndexOutOfBounds));
    assert_eq!(heap.read_value_at_offset(&object, 1, "Ljava/lang/String;"), Ok(Value::Null));
    let header = heap.get_array_header(&array).unwrap();
    assert_eq!(header.element, element);
    assert_eq!(header.array_size, 3);
    assert_eq!(heap.get_data_length(8, ReferenceValueType::Object), Ok(2));
    assert_eq!(heap.get_data_length(40, ReferenceValueType::Array), Ok(3));
    assert!(heap.get_data_length(40, ReferenceValueType::Object).is_err());
    assert!(heap.get_data_length(8, ReferenceValueType::Array).is_err());
    assert!(heap.get_class(&ObjectReference { address: 40 }).is_err());
    assert!(heap.get_array_header(&ArrayReference { address: 8 }).is_err());
    assert_eq!(heap.get_field_by_offset(&array, 0), Ok(Value::Int(0)));
    assert_eq!(heap.set_field_by_offset(&array, 2, &Value::Int(0x12345)), Ok(()));
    assert_eq!(heap.get_field_by_offset(&array, 2), Ok(Value::Int(0x2345)));
    assert_eq!(heap.get_field_by_offset(&array, 1), Ok(Value::Int(0)));
    assert_eq!(heap.get_field_by_offset(&array, 3), Err(VmError::IndexOutOfBounds));
    assert_eq!(heap.set_field_by_offset(&array, 3, &Value::Int(1)), Err(VmError::IndexOutOfBounds));
    assert_eq!(heap.set_field_by_offset(&array, 0, &Value::Long(1)), Err(VmError::ValueTypeMissMatch));
    assert_eq!(heap.write_value_at_offset(&object, 1, "J", &Value::Long(-1)), Ok(()));
    assert_eq!(heap.write_value_at_offset(&object, 2, "[S", &Value::ArrayRef(array)), Ok(()));
    assert_eq!(heap.read_value_at_offset(&object, 1, "J"), Ok(Value::Long(-1)));
    assert_eq!(heap.read_value_at_offset(&object, 2, "[S"), Ok(Value::ArrayRef(array)));
    assert_eq!(heap.read_value_at_offset(&object, 2, "Ljava/lang/Object;"), Ok(Value::ArrayRef(array)));
    assert_eq!(heap.read_value_at_offset(&object, 0, "I"), Err(VmError::IndexOutOfBounds));
    assert_eq!(heap.read_value_at_offset(&object, 3, "I"), Err(VmError::IndexOutOfBounds));
    assert_eq!(heap.write_value_at_offset(&object, 3, "I", &Value::Int(1)), Err(VmError::IndexOutOfBounds));
    assert_eq!(heap.write_value_at_offset(&object, 1, "I", &Value::Long(1)), Err(VmError::ValueTypeMissMatch));
    assert_eq!(heap.read_slot(8, ReferenceValueType::Object, 0, SlotKind::Long), Ok(Value::Long(-1)));
    assert_eq!(heap.write_slot(40, ReferenceValueType::Array, 0, SlotKind::Short, &Value::Int(-3)), Ok(()));
    assert_eq!(heap.read_slot(40, ReferenceValueType::Array, 0, SlotKind::Short), Ok(Value::Int(-3)));
    // 80 bytes are taken; 48 are left
    assert_eq!(heap.allocate_object(1, 5), None);
    assert_eq!(heap.allocate_array(&element, 4), None);
    let last = heap.allocate_object(1, 4).unwrap();
    assert_eq!(last.address, 88);
    assert_eq!(heap.allocate_object(1, 0), None);
    let mut side = ObjectHeap::new_static(64);
    assert!(side.covers(10));
    assert_eq!(side.allocate_object(0, 0).unwrap().address, 10);
    assert_eq!(side.allocate_array(&element, 1).unwrap().address, 26);
    assert!(side.get_header(8).is_err());
    assert_eq!(side.get_class(&ObjectReference { address: 10 }), Ok(0));
}

fn stack_of(values: &[Value], capacity: usize) -> OperandStack {
    let mut stack = OperandStack::new(capacity);
    for value in values {
        stack.push(*value).unwrap();
    }
    stack
}

fn contents(stack: &mut OperandStack) -> Vec<Value> {
    let n = stack.len();
    stack.pop_n(n).unwrap()
}

#[test]
fn operand_stack_keeps_its_bounds() {
    let mut stack = OperandStack::new(2);
    assert_eq!(stack.pop(), Err(VmError::PopFromEmptyStack));
    assert_eq!(stack.peek(0), Err(VmError::PopFromEmptyStack));
    assert_eq!(stack.push(Value::Int(1)), Ok(()));
    assert_eq!(stack.push(Value::Long(2)), Ok(()));
    assert_eq!(stack.push(Value::Int(3)), Err(VmError::StackOverFlow));
    assert_eq!(stack.len(), 2);
    assert_eq!(stack.peek(0), Ok(Value::Long(2)));
    assert_eq!(stack.peek(1), Ok(Value::Int(1)));
    assert_eq!(stack.peek(2), Err(VmError::PopFromEmptyStack));
    assert_eq!(stack.pop_n(3), Err(VmError::PopFromEmptyStack));
    assert_eq!(stack.len(), 2);
    assert_eq!(stack.pop_n(2), Ok(vec![Value::Int(1), Value::Long(2)]));
    assert_eq!(stack.len(), 0);
    assert_eq!(stack.pop_n(0), Ok(vec![]));
    stack.push(Value::Null).unwrap();
    stack.clear();
    assert_eq!(stack.len(), 0);
    let mut none = OperandStack::new(0);
    assert_eq!(none.push(Value::Int(1)), Err(VmError::StackOverFlow));
}

#[test]
fn operand_stack_duplicates() {
    let (a, b, c, d) = (Value::Int(1), Value::Int(2), Value::Int(3), Value::Int(4));
    let (l, m) = (Value::Long(8), Value::Double(9));
    let mut s = stack_of(&[a, b], 8);
    assert_eq!(s.dup(), Ok(()));
    assert_eq!(contents(&mut s), vec![a, b, b]);
    let mut s = stack_of(&[a, b], 8);
    assert_eq!(s.dup_x1(), Ok(()));
    assert_eq!(contents(&mut s), vec![b, a, b]);
    let mut s = stack_of(&[a, b, c], 8);
    assert_eq!(s.dup_x2(), Ok(()));
    assert_eq!(contents(&mut s), vec![c, a, b, c]);
    let mut s = stack_of(&[a, l, c], 8);
    assert_eq!(s.dup_x2(), Ok(()));
    assert_eq!(contents(&mut s), vec![a, c, l, c]);
    let mut s = stack_of(&[a, b], 8);
    assert_eq!(s.dup2(), Ok(()));
    assert_eq!(contents(&mut s), vec![a, b, a, b]);
    let mut s = stack_of(&[a, l], 8);
    assert_eq!(s.dup2(), Ok(()));
    assert_eq!(contents(&mut s), vec![a, l, l]);
    let mut s = stack_of(&[a, b, c], 8);
    assert_eq!(s.dup2_x1(), Ok(()));
    assert_eq!(contents(&mut s), vec![b, c, a, b, c]);
    let mut s = stack_of(&[a, b, l], 8);
    assert_eq!(s.dup2_x1(), Ok(()));
    assert_eq!(contents(&mut s), vec![a, l, b, l]);
    let mut s = stack_of(&[a, b, c, d], 8);
    assert_eq!(s.dup2_x2(), Ok(()));
    assert_eq!(contents(&mut s), vec![c, d, a, b, c, d]);
    let mut s = stack_of(&[a, l, m], 8);
    assert_eq!(s.dup2_x2(), Ok(()));
    assert_eq!(contents(&mut s), vec![a, m, l, m]);
    let mut s = stack_of(&[a, b, c, l], 8);
    assert_eq!(s.dup2_x2(), Ok(()));
    assert_eq!(contents(&mut s), vec![a, l, b, c, l]);
    let mut s = stack_of(&[a, l, c, d], 8);
    assert_eq!(s.dup2_x2(), Ok(()));
    assert_eq!(contents(&mut s), vec![a, c, d, l, c, d]);
    let mut s = stack_of(&[a, b], 8);
    assert_eq!(s.swap(), Ok(()));
    assert_eq!(contents(&mut s), vec![b, a]);
}

#[test]
fn operand_stack_refuses_what_does_not_fit() {
    let (a, b) = (Value::Int(1), Value::Int(2));
    let mut s = stack_of(&[], 4);
    assert_eq!(s.dup(), Err(VmError::PopFromEmptyStack));
    assert_eq!(s.dup2(), Err(VmError::PopFromEmptyStack));
    assert_eq!(s.swap(), Err(VmError::PopFromEmptyStack));
    let mut s = stack_of(&[a], 4);
    assert_eq!(s.dup_x1(), Err(VmError::PopFromEmptyStack));
    assert_eq!(s.dup2(), Err(VmError::PopFromEmptyStack));
    assert_eq!(s.swap(), Err(VmError::PopFromEmptyStack));
    assert_eq!(contents(&mut s), vec![a]);
    let mut s = stack_of(&[a, b], 4);
    assert_eq!(s.dup_x2(), Err(VmError::PopFromEmptyStack));
    assert_eq!(s.dup2_x1(), Err(VmError::PopFromEmptyStack));
    assert_eq!(s.dup2_x2(), Err(VmError::PopFromEmptyStack));
    assert_eq!(contents(&mut s), vec![a, b]);
    let mut s = stack_of(&[a, b], 2);
    assert_eq!(s.dup(), Err(VmError::StackOverFlow));
    assert_eq!(s.dup_x1(), Err(VmError::StackOverFlow));
    assert_eq!(s.dup2(), Err(VmError::StackOverFlow));
    assert_eq!(s.swap(), Ok(()));
    assert_eq!(contents(&mut s), vec![b, a]);
    let mut s = stack_of(&[a, b], 3);
    assert_eq!(s.dup2(), Err(VmError::StackOverFlow));
    assert_eq!(s.dup(), Ok(()));
    assert_eq!(contents(&mut s), vec![a, b, b]);
}

#[test]
fn integer_operations() {
    assert_eq!(int_math(IntOp::Add, i32::MAX, 1), Some(i32::MIN));
    assert_eq!(int_math(IntOp::Sub, i32::MIN, 1), Some(i32::MAX));
    assert_eq!(int_math(IntOp::Mul, 0x10000, 0x10000), Some(0));
    assert_eq!(int_math(IntOp::Mul, -7, 6), Some(-42));
    assert_eq!(int_math(IntOp::Div, 7, 2), Some(3));
    assert_eq!(int_math(IntOp::Div, -7, 2), Some(-3));
    assert_eq!(int_math(IntOp::Div, 7, -2), Some(-3));
    assert_eq!(int_math(IntOp::Div, i32::MIN, -1), Some(i32::MIN));
    assert_eq!(int_math(IntOp::Div, 1, 0), None);
    assert_eq!(int_math(IntOp::Rem, 7, 2), Some(1));
    assert_eq!(int_math(IntOp::Rem, -7, 2), Some(-1));
    assert_eq!(int_math(IntOp::Rem, 7, -2), Some(1));
    assert_eq!(int_math(IntOp::Rem, i32::MIN, -1), Some(0));
    assert_eq!(int_math(IntOp::Rem, 1, 0), None);
    assert_eq!(int_math(IntOp::And, 0b1100, 0b1010), Some(0b1000));
    assert_eq!(int_math(IntOp::Or, 0b1100, 0b1010), Some(0b1110));
    assert_eq!(int_math(IntOp::Xor, 0b1100, 0b1010), Some(0b0110));
    assert_eq!(int_math(IntOp::Shl, 1, 33), Some(2));
    assert_eq!(int_math(IntOp::Shl, 1, 31), Some(i32::MIN));
    assert_eq!(int_math(IntOp::Shr, -16, 2), Some(-4));
    assert_eq!(int_math(IntOp::Shr, -16, 34), Some(-4));
    assert_eq!(int_math(IntOp::Ushr, -16, 28), Some(15));
    assert_eq!(int_math(IntOp::Ushr, -1, 32), Some(-1));
    assert_eq!(long_math(IntOp::Add, i64::MAX, 1), Some(i64::MIN));
    assert_eq!(long_math(IntOp::Sub, 0, i64::MIN), Some(i64::MIN));
    assert_eq!(long_math(IntOp::Mul, 1 << 32, 1 << 32), Some(0));
    assert_eq!(long_math(IntOp::Div, -7, 2), Some(-3));
    assert_eq!(long_math(IntOp::Div, i64::MIN, -1), Some(i64::MIN));
    assert_eq!(long_math(IntOp::Div, 5, 0), None);
    assert_eq!(long_math(IntOp::Rem, -7, 2), Some(-1));
    assert_eq!(long_math(IntOp::Rem, i64::MIN, -1), Some(0));
    assert_eq!(long_math(IntOp::Rem, 5, 0), None);
    assert_eq!(long_math(IntOp::And, -1, 0xff), Some(0xff));
    assert_eq!(long_math(IntOp::Or, 0xf0, 0x0f), Some(0xff));
    assert_eq!(long_math(IntOp::Xor, -1, 1), Some(-2));
    assert_eq!(long_math(IntOp::Shl, 1, 65), Some(2));
    assert_eq!(long_math(IntOp::Shr, -16, 66), Some(-4));
    assert_eq!(long_math(IntOp::Ushr, -16, 60), Some(15));
    assert_eq!(compare_longs(1, 2), -1);
    assert_eq!(compare_longs(2, 2), 0);
    assert_eq!(compare_longs(i64::MAX, i64::MIN), 1);
}

#[test]
fn floating_point_patterns() {
    let one = 1f32.to_bits();
    let zero = 0f32.to_bits();
    let minus_zero = (-0f32).to_bits();
    let infinity = f32::INFINITY.to_bits();
    assert_eq!(SINGLE_NAN, f32::NAN.to_bits());
    assert_eq!(DOUBLE_NAN, f64::NAN.to_bits());
    assert!(is_single_division_returning_nan(SINGLE_NAN, one));
    assert!(is_single_division_returning_nan(one, 0x7f80_0001));
    assert!(is_single_division_returning_nan(infinity, f32::NEG_INFINITY.to_bits()));
    assert!(is_single_division_returning_nan(zero, minus_zero));
    assert!(!is_single_division_returning_nan(one, zero));
    assert!(!is_single_division_returning_nan(infinity, one));
    assert!(!is_single_division_returning_nan(zero, infinity));
    assert!(is_double_division_returning_nan(DOUBLE_NAN, 1f64.to_bits()));
    assert!(is_double_division_returning_nan(0f64.to_bits(), (-0f64).to_bits()));
    assert!(is_double_division_returning_nan(f64::INFINITY.to_bits(), f64::INFINITY.to_bits()));
    assert!(!is_double_division_returning_nan(1f64.to_bits(), 0f64.to_bits()));
    for (a, b) in [(1.5f32, 2.5f32), (-1.0, 1.0), (-2.0, -1.0), (0.0, -0.0), (f32::NEG_INFINITY, f32::MAX), (3.0, 3.0), (f32::MIN_POSITIVE, 0.0)] {
        let expected = if a < b { -1 } else if a > b { 1 } else { 0 };
        assert_eq!(compare_singles(a.to_bits(), b.to_bits(), 1), expected, "{} {}", a, b);
        assert_eq!(compare_singles(b.to_bits(), a.to_bits(), -1), -expected, "{} {}", b, a);
        let (a, b) = (a as f64, b as f64);
        assert_eq!(compare_doubles(a.to_bits(), b.to_bits(), 1), expected, "{} {}", a, b);
        assert_eq!(compare_doubles(b.to_bits(), a.to_bits(), -1), -expected, "{} {}", b, a);
    }
    assert_eq!(compare_singles(SINGLE_NAN, one, 1), 1);
    assert_eq!(compare_singles(one, SINGLE_NAN, -1), -1);
    assert_eq!(compare_doubles(DOUBLE_NAN, DOUBLE_NAN, -1), -1);
    assert_eq!(compare_doubles(0, DOUBLE_NAN, 1), 1);
}

#[test]
fn native_methods_are_found_by_class_name_and_descriptor() {
    let mut area = NativeMethodArea::new();
    assert_eq!(area.get_method("java/lang/Object", "registerNatives", "()V"), None);
    area.registry_native_method("A", "m", "()V", NativeMethod::Nop);
    area.registry_native_method("A", "m", "()I", NativeMethod::HashCode);
    assert_eq!(area.get_method("A", "m", "()V"), Some(NativeMethod::Nop));
    assert_eq!(area.get_method("A", "m", "()I"), Some(NativeMethod::HashCode));
    assert_eq!(area.get_method("A", "n", "()I"), None);
    assert_eq!(area.get_method("B", "m", "()I"), None);
    area.registry_native_method("A", "m", "()V", NativeMethod::ArrayCopy);
    assert_eq!(area.get_method("A", "m", "()V"), Some(NativeMethod::ArrayCopy));
    assert_eq!(area.get_method("A", "m", "()I"), Some(NativeMethod::HashCode));
    let area = NativeMethodArea::new_with_default_native();
    assert_eq!(area.get_method("java/lang/System", "registerNatives", "()V"), Some(NativeMethod::SystemRegisterNative));
    assert_eq!(
        area.get_method("java/lang/Class", "getPrimitiveClass", "(Ljava/lang/String;)Ljava/lang/Class;"),
        Some(NativeMethod::GetPrimitiveClass)
    );
    assert_eq!(
        area.get_method("java/lang/Class", "desiredAssertionStatus0", "(Ljava/lang/Class;)Z"),
        Some(NativeMethod::DesiredAssertionStatus0)
    );
    assert_eq!(area.get_method("java/lang/Class", "hashCode", "()I"), Some(NativeMethod::HashCode));
    assert_eq!(area.get_method("java/lang/Class", "registerNatives", "()V"), Some(NativeMethod::Nop));
    assert_eq!(area.get_method("sun/misc/Unsafe", "registerNatives", "()V"), Some(NativeMethod::Nop));
    assert_eq!(
        area.get_method("sun/misc/Unsafe", "arrayBaseOffset", "(Ljava/lang/Class;)I"),
        Some(NativeMethod::ArrayBaseOffset)
    );
    assert_eq!(area.get_method("java/lang/Object", "registerNatives", "()V"), Some(NativeMethod::Nop));
    assert_eq!(
        area.get_method("java/lang/System", "arraycopy", "(Ljava/lang/Object;ILjava/lang/Object;II)V"),
        Some(NativeMethod::ArrayCopy)
    );
    assert_eq!(area.get_method("java/lang/Object", "hashCode", "()I"), None);
}

#[test]
fn static_fields_and_interned_objects() {
    let mut area = StaticArea::new(64);
    assert_eq!(area.get_static_field(0, "a"), None);
    area.set_static_field(0, "a", Value::Int(1));
    area.set_static_field(1, "a", Value::Long(2));
    area.set_static_field(0, "b", Value::Null);
    assert_eq!(area.get_static_field(0, "a"), Some(Value::Int(1)));
    assert_eq!(area.get_static_field(1, "a"), Some(Value::Long(2)));
    assert_eq!(area.get_static_field(0, "b"), Some(Value::Null));
    assert_eq!(area.get_static_field(1, "b"), None);
    area.set_static_field(0, "a", Value::Int(5));
    assert_eq!(area.get_static_field(0, "a"), Some(Value::Int(5)));
    assert_eq!(area.get_static_field(1, "a"), Some(Value::Long(2)));
    let first = area.new_object(3, 1).unwrap();
    let second = area.new_object(3, 1).unwrap();
    assert_eq!(first.address, 10);
    assert_eq!(second.address, 34);
    assert_eq!(area.new_object(3, 1), None);
    assert_eq!(area.find_string("x"), None);
    area.intern_string("x", first);
    area.intern_string("x", second);
    area.intern_string("y", second);
    assert_eq!(area.find_string("x"), Some(first));
    assert_eq!(area.find_string("y"), Some(second));
    assert_eq!(area.find_mirror("x"), None);
    area.intern_mirror("x", second);
    area.intern_mirror("x", first);
    assert_eq!(area.find_mirror("x"), Some(second));
    assert_eq!(area.find_string("x"), Some(first));
}

#[test]
fn stack_trace_lines() {
    let element = StackTraceElement {
        declaring_class: "pkg/Main".to_string(),
        method_name: "run".to_string(),
        file_name: Some("Main.java".to_string()),
        line_number: 42,
    };
    assert_eq!(element.describe(), "\tpkg/Main.run(Main.java:42)");
    let element = StackTraceElement {
        declaring_class: "A".to_string(),
        method_name: "<init>".to_string(),
        file_name: None,
        line_number: 0,
    };
    assert_eq!(element.describe(), "\tA.<init>(<unknown source>:0)");
    let element = StackTraceElement {
        declaring_class: String::new(),
        method_name: String::new(),
        file_name: Some(String::new()),
        line_number: 65535,
    };
    assert_eq!(element.describe(), "\t.(:65535)");
}

#[test]
fn texts() {
    assert_eq!(decimal_text(0), "0");
    assert_eq!(decimal_text(7), "7");
    assert_eq!(decimal_text(10), "10");
    assert_eq!(decimal_text(1234567890), "1234567890");
    assert_eq!(decimal_text(u64::MAX), "18446744073709551615");
    assert!(starts_with_char("[I", '['));
    assert!(!starts_with_char("I[", '['));
    assert!(!starts_with_char("", '['));
    assert!(str_eq("abc", "abc"));
    assert!(!str_eq("abc", "abd"));
    assert!(!str_eq("abc", "ab"));
    assert!(str_eq("", ""));
    assert_eq!(chars_of("a\u{10401}b"), vec!['a', '\u{10401}', 'b']);
    assert_eq!(utf16_units("a\u{e9}"), vec![0x61, 0xe9]);
    assert_eq!(utf16_units("\u{ffff}"), vec![0xffff]);
    assert_eq!(utf16_units("\u{10000}"), vec![0xd800, 0xdc00]);
    assert_eq!(utf16_units("\u{10401}"), vec![0xd801, 0xdc01]);
    assert_eq!(utf16_units("\u{10ffff}"), vec![0xdbff, 0xdfff]);
    assert_eq!(utf16_units(""), Vec::<u16>::new());
}

struct Fixed {
    name: &'static str,
    answer: VmExecResult<Option<Vec<u8>>>,
}

impl ClassPath for Fixed {
    fn find_class(&self, class_name: &str) -> VmExecResult<Option<Vec<u8>>> {
        if class_name == self.name {
            self.answer.clone()
        } else {
            Ok(None)
        }
    }
}

#[test]
fn class_paths_are_asked_in_order() {
    let mut finder = ClassFinder::new();
    assert_eq!(finder.find_class("A"), Err(VmError::ClassNotFoundException("A".to_string())));
    finder.add(Box::new(Fixed { name: "A", answer: Ok(Some(vec![1])) }));
    finder.add(Box::new(Fixed { name: "A", answer: Ok(Some(vec![2])) }));
    finder.add(Box::new(Fixed { name: "B", answer: Ok(Some(vec![3])) }));
    finder.add(Box::new(Fixed { name: "C", answer: Err(VmError::ReadJarFileError("broken".to_string())) }));
    finder.add(Box::new(Fixed { name: "C", answer: Ok(Some(vec![4])) }));
    assert_eq!(finder.find_class("A"), Ok(vec![1]));
    assert_eq!(finder.find_class("B"), Ok(vec![3]));
    assert_eq!(finder.find_class("C"), Err(VmError::ReadJarFileError("broken".to_string())));
    assert_eq!(finder.find_class("D"), Err(VmError::ClassNotFoundException("D".to_string())));
    assert!(matches!(ClassFinder::judge(Ok(None)), Verdict::AskNext));
    assert!(matches!(ClassFinder::judge(Ok(Some(vec![9]))), Verdict::Found(bytes) if bytes == vec![9]));
    assert!(matches!(ClassFinder::judge(Err(VmError::NotImplemented)), Verdict::Failed(VmError::NotImplemented)));
    assert_eq!(ClassFinder::default().find_class("A"), Err(VmError::ClassNotFoundException("A".to_string())));
}

fn attribute_pool() -> RuntimeConstantPool {
    let mut cp = ConstantPool::new();
    cp.add(ConstantPoolEntry::Utf8("LineNumberTable".to_string())); // 1
    cp.add(ConstantPoolEntry::Utf8("java/lang/Exception".to_string())); // 2
    cp.add(ConstantPoolEntry::ClassReference(2)); // 3
    cp.add(ConstantPoolEntry::Integer(-5)); // 4
    cp.add(ConstantPoolEntry::Long(1 << 40)); // 5, 6
    cp.add(ConstantPoolEntry::StringReference(2)); // 7
    cp.add(ConstantPoolEntry::Float(9)); // 8
    cp.add(ConstantPoolEntry::Double(11)); // 9, 10
    cp.add(ConstantPoolEntry::Utf8("Unheard".to_string())); // 11
    RuntimeConstantPool::from(&cp).unwrap()
}

fn code_bytes(lines: &[(u16, u16)]) -> Vec<u8> {
    let mut out: Vec<u8> = vec![0, 2, 0, 3, 0, 0, 0, 4, 0x03, 0x3c, 0x1b, 0xac];
    out.extend_from_slice(&[0, 2]);
    out.extend_from_slice(&[0, 0, 0, 2, 0, 3, 0, 3]);
    out.extend_from_slice(&[0, 1, 0, 3, 0, 2, 0, 0]);
    out.extend_from_slice(&[0, 2]);
    out.extend_from_slice(&[0, 11, 0, 0, 0, 3, 9, 9, 9]);
    out.extend_from_slice(&[0, 1]);
    out.extend_from_slice(&((2 + 4 * lines.len()) as u32).to_be_bytes());
    out.extend_from_slice(&(lines.len() as u16).to_be_bytes());
    for (start, line) in lines {
        out.extend_from_slice(&start.to_be_bytes());
        out.extend_from_slice(&line.to_be_bytes());
    }
    out
}

#[test]
fn reads_a_code_attribute() {
    let pool = attribute_pool();
    let code = get_attr_as_code(&code_bytes(&[(0, 10), (2, 11), (3, 13)]), &pool).unwrap();
    assert_eq!(code.max_stack, 2);
    assert_eq!(code.max_locals, 3);
    assert_eq!(code.code, vec![0x03, 0x3c, 0x1b, 0xac]);
    assert_eq!(code.exception_table.len(), 2);
    assert_eq!(code.exception_table[0].start_pc, 0);
    assert_eq!(code.exception_table[0].end_pc, 2);
    assert_eq!(code.exception_table[0].handler_pc, 3);
    assert_eq!(code.exception_table[0].catch_type, Some("java/lang/Exception".to_string()));
    assert_eq!(code.exception_table[1].start_pc, 1);
    assert_eq!(code.exception_table[1].catch_type, None);
    assert!(code.local_variable_table.is_empty());
    assert_eq!(code.line_number_table.len(), 3);
    assert_eq!(code.line_number_at(0), 10);
    assert_eq!(code.line_number_at(1), 10);
    assert_eq!(code.line_number_at(2), 11);
    assert_eq!(code.line_number_at(3), 13);
    assert_eq!(code.line_number_at(400), 13);
}

#[test]
fn a_repeated_line_entry_replaces_the_line_where_it_stands() {
    let pool = attribute_pool();
    let code = get_attr_as_code(&code_bytes(&[(0, 10), (4, 11), (0, 12), (2, 13)]), &pool).unwrap();
    let pairs: Vec<(u16, u16)> = code.line_number_table.iter().map(|(start, line)| (*start, *line)).collect();
    assert_eq!(pairs, vec![(0, 12), (4, 11), (2, 13)]);
    assert_eq!(code.line_number_at(0), 12);
    assert_eq!(code.line_number_at(3), 12);
    assert_eq!(code.line_number_at(4), 13);
    let none = get_attr_as_code(&code_bytes(&[]), &pool).unwrap();
    assert_eq!(none.line_number_at(0), 0);
    let late = get_attr_as_code(&code_bytes(&[(2, 7)]), &pool).unwrap();
    assert_eq!(late.line_number_at(1), 0);
    assert_eq!(late.line_number_at(2), 7);
}

#[test]
fn refuses_a_broken_code_attribute() {
    let pool = attribute_pool();
    let good = code_bytes(&[(0, 10)]);
    assert_eq!(
        get_attr_as_code(&good[..good.len() - 1].to_vec(), &pool).err(),
        Some(VmError::ReadClassBytesError(ClassFileError::UnexpectedEndOfData))
    );
    assert_eq!(
        get_attr_as_code(&Vec::new(), &pool).err(),
        Some(VmError::ReadClassBytesError(ClassFileError::UnexpectedEndOfData))
    );
    let mut catch_type = good.clone();
    catch_type[21] = 1;
    assert!(get_attr_as_code(&catch_type, &pool).is_err());
    let mut name = good.clone();
    name[33] = 40;
    assert_eq!(
        get_attr_as_code(&name, &pool).err(),
        Some(VmError::ReadClassBytesError(ClassFileError::InvalidConstantPoolIndexError(40)))
    );
}

#[test]
fn reads_constant_values_and_thrown_classes() {
    let pool = attribute_pool();
    assert!(matches!(get_attr_as_constant_value(&vec![0, 4], &pool), Ok(ConstantValueAttribute::Int(-5))));
    assert!(matches!(
        get_attr_as_constant_value(&vec![0, 5], &pool),
        Ok(ConstantValueAttribute::Long(0x100_0000_0000))
    ));
    assert!(matches!(
        get_attr_as_constant_value(&vec![0, 7], &pool),
        Ok(ConstantValueAttribute::String(text)) if text == "java/lang/Exception"
    ));
    assert!(matches!(get_attr_as_constant_value(&vec![0, 8], &pool), Ok(ConstantValueAttribute::Float(9))));
    assert!(matches!(get_attr_as_constant_value(&vec![0, 9], &pool), Ok(ConstantValueAttribute::Double(11))));
    for wrong in [vec![0u8, 1], vec![0, 3], vec![0, 6], vec![0, 99], vec![4], vec![0, 4, 0], vec![]] {
        assert_eq!(
            get_attr_as_constant_value(&wrong, &pool).err(),
            Some(VmError::InvalidAttribute("ConstantValue".to_string()))
        );
    }
    assert_eq!(
        get_attr_as_exception(&vec![0, 2, 0, 3, 0, 3], &pool),
        Ok(vec!["java/lang/Exception".to_string(), "java/lang/Exception".to_string()])
    );
    assert_eq!(get_attr_as_exception(&vec![0, 0], &pool), Ok(vec![]));
    assert_eq!(
        get_attr_as_exception(&vec![0, 1], &pool).err(),
        Some(VmError::ReadClassBytesError(ClassFileError::UnexpectedEndOfData))
    );
    assert!(get_attr_as_exception(&vec![0, 1, 0, 2], &pool).is_err());
}

#[test]
fn a_new_call_stack_is_empty() {
    let mut stack = CallStack::new();
    assert_eq!(stack.depth(), 0);
    assert!(stack.pop_frame().is_none());
    assert_eq!(MAX_STACK_DEPTH, 1024);
}

#[test]
fn a_repeated_local_variable_replaces_the_row_where_it_stands() {
    let mut cp = ConstantPool::new();
    cp.add(ConstantPoolEntry::Utf8("LocalVariableTable".to_string())); // 1
    cp.add(ConstantPoolEntry::Utf8("a".to_string())); // 2
    cp.add(ConstantPoolEntry::Utf8("b".to_string())); // 3
    cp.add(ConstantPoolEntry::Utf8("I".to_string())); // 4
    let pool = RuntimeConstantPool::from(&cp).unwrap();
    let mut bytes: Vec<u8> = vec![0, 1, 0, 2, 0, 0, 0, 1, 0xb1, 0, 0, 0, 1];
    bytes.extend_from_slice(&[0, 1]);
    bytes.extend_from_slice(&(2u32 + 3 * 10).to_be_bytes());
    bytes.extend_from_slice(&[0, 3]);
    // start, length, name, descriptor, index
    bytes.extend_from_slice(&[0, 0, 0, 1, 0, 2, 0, 4, 0, 0]);
    bytes.extend_from_slice(&[0, 0, 0, 1, 0, 3, 0, 4, 0, 1]);
    bytes.extend_from_slice(&[0, 1, 0, 0, 0, 3, 0, 4, 0, 0]);
    let code = get_attr_as_code(&bytes, &pool).unwrap();
    assert_eq!(code.local_variable_table.len(), 2);
    assert_eq!(code.local_variable_table[0].index, 0);
    assert_eq!(code.local_variable_table[0].name, "b");
    assert_eq!(code.local_variable_table[0].start_pc, 1);
    assert_eq!(code.local_variable_table[1].index, 1);
    assert_eq!(code.local_variable_table[1].name, "b");
    assert!(code.local_variable_type_table.is_empty());
}
