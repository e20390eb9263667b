use lite_jvm::byte_buffer::ByteBuffer;
use lite_jvm::class_file_error::ClassFileError;
use lite_jvm::class_file_version::ClassFileVersion;

#[test]
fn buffer_works() {
    let data = vec![0x00, 0x00, 0x00, 0x42];
    let mut buffer = ByteBuffer::new(&data);
    assert!(buffer.has_more_data());
    assert_eq!(0x42u32, buffer.read_u32().unwrap());
    assert!(!buffer.has_more_data());
    assert!(buffer.read_u32().is_err());
}

#[test]
fn can_parse_known_versions() {
    assert_eq!(ClassFileVersion::Jdk8, ClassFileVersion::new(52, 45).unwrap());
}

#[test]
fn get_version_of_known_jdk() {
    assert_eq!(ClassFileVersion::Jdk8.version(), (45, 52));
}

#[test]
fn can_parse_future_versions() {
    assert_eq!(
        Err(ClassFileError::UnsupportedVersion(99, 65535)),
        ClassFileVersion::new(99, 65535),
    );
}

use lite_jvm::access_flags::{ClassAccessFlags, FieldAccessFlags, MethodAccessFlags};
use lite_jvm::attribute_info::AttributeType;
use lite_jvm::class_file_error::ClassDataFault;
use lite_jvm::class_file_reader::read_buffer;
use lite_jvm::constant_pool::{ConstantPool, ConstantPoolEntry};
use lite_jvm::instruction::{read_one_instruction, Instruction, WideKind};
use lite_jvm::jvm_error::VmError;
use lite_jvm::jvm_values::{PrimaryType, ValueType};
use lite_jvm::runtime_constant_pool::{MethodHandlerKind, RuntimeConstantPool, RuntimeConstantPoolEntry};
use lite_jvm::runtime_method_info::{MethodDescriptor, MethodKey};

#[test]
fn constant_pool_works() {
    let mut cp = ConstantPool::new();
    cp.add(ConstantPoolEntry::Utf8("hey".to_string()));
    cp.add(ConstantPoolEntry::Integer(1));
    cp.add(ConstantPoolEntry::Float(2.1f32.to_bits()));
    cp.add(ConstantPoolEntry::Long(123));
    cp.add(ConstantPoolEntry::Double(3.56f64.to_bits()));
    cp.add(ConstantPoolEntry::ClassReference(1));
    cp.add(ConstantPoolEntry::StringReference(1));
    cp.add(ConstantPoolEntry::Utf8("joe".to_string()));
    cp.add(ConstantPoolEntry::FieldReference(1, 10));
    cp.add(ConstantPoolEntry::MethodReference(1, 10));
    cp.add(ConstantPoolEntry::InterfaceMethodReference(1, 10));
    cp.add(ConstantPoolEntry::NameAndTypeDescriptor(1, 10));

    assert_eq!(ConstantPoolEntry::Utf8("hey".to_string()), *cp.get(&1).unwrap());
    assert_eq!(ConstantPoolEntry::Integer(1), *cp.get(&2).unwrap());
    assert_eq!(ConstantPoolEntry::Float(2.1f32.to_bits()), *cp.get(&3).unwrap());
    assert_eq!(ConstantPoolEntry::Long(123i64), *cp.get(&4).unwrap());
    assert!(matches!(cp.get(&5), Err(ClassFileError::InvalidConstantPoolIndexError(5))));
    assert_eq!(ConstantPoolEntry::Double(3.56f64.to_bits()), *cp.get(&6).unwrap());
    assert_eq!(Err(ClassFileError::InvalidConstantPoolIndexError(7)), cp.get(&7));
    assert_eq!(ConstantPoolEntry::ClassReference(1), *cp.get(&8).unwrap());
    assert_eq!(ConstantPoolEntry::StringReference(1), *cp.get(&9).unwrap());
    assert_eq!(ConstantPoolEntry::Utf8("joe".to_string()), *cp.get(&10).unwrap());
    assert_eq!(ConstantPoolEntry::FieldReference(1, 10), *cp.get(&11).unwrap());
    assert_eq!(ConstantPoolEntry::MethodReference(1, 10), *cp.get(&12).unwrap());
    assert_eq!(ConstantPoolEntry::InterfaceMethodReference(1, 10), *cp.get(&13).unwrap());
    assert_eq!(ConstantPoolEntry::NameAndTypeDescriptor(1, 10), *cp.get(&14).unwrap());
}

#[test]
fn constant_pool_lookups() {
    let mut cp = ConstantPool::new();
    cp.add(ConstantPoolEntry::Utf8("hey".to_string()));
    cp.add(ConstantPoolEntry::ClassReference(1));
    cp.add(ConstantPoolEntry::Long(7));
    cp.add(ConstantPoolEntry::ClassReference(3));
    assert_eq!(cp.len(), 5);
    assert_eq!(cp.get(&0), Err(ClassFileError::InvalidConstantPoolIndexError(0)));
    assert_eq!(cp.get(&6), Err(ClassFileError::InvalidConstantPoolIndexError(6)));
    assert_eq!(cp.try_get(&0), None);
    assert_eq!(cp.try_get(&4), None);
    assert_eq!(cp.get_string(&1), Ok("hey".to_string()));
    assert_eq!(cp.get_string(&2), Err(ClassFileError::InvalidClassData(ClassDataFault::NotUtf8(2))));
    assert_eq!(cp.get_string(&4), Err(ClassFileError::InvalidConstantPoolIndexError(4)));
    assert_eq!(cp.try_get_string(&1), Some("hey".to_string()));
    assert_eq!(cp.try_get_string(&2), None);
    assert_eq!(cp.get_class_name(&2), Ok("hey".to_string()));
    assert_eq!(cp.get_class_name(&1), Err(ClassFileError::InvalidClassData(ClassDataFault::NotClassReference(1))));
    assert_eq!(cp.get_class_name(&5), Err(ClassFileError::InvalidClassData(ClassDataFault::NotUtf8(3))));
    assert_eq!(cp.try_get_class_name(&2), Some("hey".to_string()));
    assert_eq!(cp.try_get_class_name(&5), None);
    assert_eq!(cp.try_get_class_name(&0), None);
}

fn hello_world(major: u16) -> Vec<u8> {
    let mut out: Vec<u8> = Vec::new();
    out.extend_from_slice(&0xCAFEBABEu32.to_be_bytes());
    out.extend_from_slice(&0u16.to_be_bytes());
    out.extend_from_slice(&major.to_be_bytes());
    // the pool: 1 Utf8 HelloWorld, 2 Class #1, 3 Utf8 java/lang/Object, 4 Class #3,
    // 5 Utf8 <init>, 6 Utf8 ()V, 7 Utf8 main, 8 Utf8 ([Ljava/lang/String;)V, 9 Utf8 Code
    let texts = ["HelloWorld", "java/lang/Object", "<init>", "()V", "main", "([Ljava/lang/String;)V", "Code"];
    out.extend_from_slice(&10u16.to_be_bytes());
    for (i, text) in texts.iter().enumerate() {
        out.push(1);
        out.extend_from_slice(&(text.len() as u16).to_be_bytes());
        out.extend_from_slice(text.as_bytes());
        if i < 2 {
            out.push(7);
            out.extend_from_slice(&((2 * i + 1) as u16).to_be_bytes());
        }
    }
    out.extend_from_slice(&0x0021u16.to_be_bytes());
    out.extend_from_slice(&2u16.to_be_bytes());
    out.extend_from_slice(&4u16.to_be_bytes());
    out.extend_from_slice(&0u16.to_be_bytes());
    out.extend_from_slice(&0u16.to_be_bytes());
    out.extend_from_slice(&2u16.to_be_bytes());
    for (access, name, descriptor) in [(0x0001u16, 5u16, 6u16), (0x0009, 7, 8)] {
        out.extend_from_slice(&access.to_be_bytes());
        out.extend_from_slice(&name.to_be_bytes());
        out.extend_from_slice(&descriptor.to_be_bytes());
        out.extend_from_slice(&1u16.to_be_bytes());
        out.extend_from_slice(&9u16.to_be_bytes());
        out.extend_from_slice(&13u32.to_be_bytes());
        out.extend_from_slice(&[0, 0, 0, 1, 0, 0, 0, 1, 0xb1, 0, 0, 0, 0]);
    }
    out.extend_from_slice(&0u16.to_be_bytes());
    out
}

#[test]
fn test_read_class() {
    let class = read_buffer(&hello_world(65)).unwrap();
    assert_eq!(format!("{:b}", 0x0001 | 0x0020), format!("{:b}", class.access_flags.bits()));
    assert_eq!(class.version, ClassFileVersion::Jdk21);
    assert_eq!(class.this_class_name, "HelloWorld");
    assert_eq!(class.super_class_name.unwrap(), "java/lang/Object");
    assert_eq!(class.method_info.len(), 2);
}

#[test]
fn reads_the_parts_of_a_class_file() {
    let class = read_buffer(&hello_world(52)).unwrap();
    assert_eq!(class.version, ClassFileVersion::Jdk8);
    assert_eq!(class.constant_pool.len(), 9);
    assert!(class.interface_names.is_empty());
    assert!(class.field_info.is_empty());
    assert!(class.attribute_info.is_empty());
    assert_eq!(class.source_file(), Ok(None));
    let main = &class.method_info[1];
    assert_eq!(main.name, "main");
    assert_eq!(main.descriptor, "([Ljava/lang/String;)V");
    assert_eq!(main.access_flags.bits(), 0x0009);
    assert_eq!(main.attributes.len(), 1);
    assert_eq!(main.attributes[0].name, AttributeType::Code);
    assert_eq!(main.attributes[0].info, vec![0, 0, 0, 1, 0, 0, 0, 1, 0xb1, 0, 0, 0, 0]);
}

#[test]
fn refuses_what_is_not_a_class_file() {
    let good = hello_world(52);
    assert_eq!(read_buffer(&[]).err(), Some(ClassFileError::UnexpectedEndOfData));
    assert_eq!(read_buffer(&good[..good.len() - 1]).err(), Some(ClassFileError::UnexpectedEndOfData));
    let mut magic = good.clone();
    magic[3] = 0xBF;
    assert_eq!(
        read_buffer(&magic).err(),
        Some(ClassFileError::InvalidClassData(ClassDataFault::BadMagicNumber(0xCAFEBABF)))
    );
    assert_eq!(read_buffer(&hello_world(44)).err(), Some(ClassFileError::UnsupportedVersion(44, 0)));
    assert_eq!(read_buffer(&hello_world(66)).err(), Some(ClassFileError::UnsupportedVersion(66, 0)));
    let mut tag = good.clone();
    tag[10] = 2;
    assert_eq!(read_buffer(&tag).err(), Some(ClassFileError::ConstantPoolTagNotSupport(2)));
    let mut trailing = good.clone();
    trailing.push(0);
    assert_eq!(
        read_buffer(&trailing).err(),
        Some(ClassFileError::InvalidClassData(ClassDataFault::TrailingBytes))
    );
    let mut empty_pool = good.clone();
    empty_pool[8] = 0;
    empty_pool[9] = 0;
    assert_eq!(
        read_buffer(&empty_pool).err(),
        Some(ClassFileError::InvalidClassData(ClassDataFault::EmptyConstantPoolCount))
    );
    let flags_at = good.len() - 2 - 2 * 27 - 2 - 2 - 2 - 2 - 2 - 2;
    let mut flags = good.clone();
    flags[flags_at] = 0x01;
    assert_eq!(
        read_buffer(&flags).err(),
        Some(ClassFileError::InvalidClassData(ClassDataFault::BadClassFlags(0x0121)))
    );
    let mut this_class = good.clone();
    this_class[flags_at + 3] = 1;
    assert_eq!(
        read_buffer(&this_class).err(),
        Some(ClassFileError::InvalidClassData(ClassDataFault::NotClassReference(1)))
    );
    let mut method_flags = good.clone();
    method_flags[flags_at + 12] = 0x02;
    assert_eq!(
        read_buffer(&method_flags).err(),
        Some(ClassFileError::InvalidClassData(ClassDataFault::BadMethodFlags(0x0201)))
    );
    let mut method_name = good.clone();
    method_name[flags_at + 15] = 2;
    assert_eq!(
        read_buffer(&method_name).err(),
        Some(ClassFileError::InvalidClassData(ClassDataFault::NotUtf8(2)))
    );
    let mut attribute_name = good.clone();
    attribute_name[flags_at + 21] = 99;
    assert_eq!(read_buffer(&attribute_name).err(), Some(ClassFileError::InvalidConstantPoolIndexError(99)));
}

#[test]
fn reads_big_endian_values() {
    let data = [0x12, 0x34, 0x56, 0x78, 0x9a, 0xbc, 0xde, 0xf0, 0xff, 0xfe, 0x80];
    let mut buffer = ByteBuffer::new(&data);
    assert_eq!(buffer.read_u8(), Ok(0x12));
    assert_eq!(buffer.read_u16(), Ok(0x3456));
    assert_eq!(buffer.position(), 3);
    buffer.jump_to(0);
    assert_eq!(buffer.read_u32(), Ok(0x12345678));
    assert_eq!(buffer.read_i32(), Ok(0x9abcdef0u32 as i32));
    assert_eq!(buffer.read_i16(), Ok(-2));
    assert_eq!(buffer.read_i8(), Ok(-128));
    assert_eq!(buffer.read_u8(), Err(ClassFileError::UnexpectedEndOfData));
    buffer.jump_to(0);
    assert_eq!(buffer.read_i64(), Ok(0x123456789abcdef0));
    buffer.jump_to(3);
    assert_eq!(buffer.read_u64(), Ok(0x789abcdef0fffe80));
    assert_eq!(buffer.position(), 11);
    buffer.jump_to(0);
    assert_eq!(buffer.read_2_u16(), Ok((0x1234, 0x5678)));
    assert_eq!(buffer.read_u8_u16(), Ok((0x9a, 0xbcde)));
    assert_eq!(buffer.read_bytes(2), Ok(&data[7..9]));
    assert_eq!(buffer.read_bytes(3), Err(ClassFileError::UnexpectedEndOfData));
    assert_eq!(buffer.position(), 9);
    assert_eq!(buffer.skip(2), Ok(()));
    assert_eq!(buffer.skip(1), Err(ClassFileError::UnexpectedEndOfData));
    assert!(!buffer.has_more_data());
    buffer.jump_to(10);
    assert_eq!(buffer.read_2_u16(), Err(ClassFileError::UnexpectedEndOfData));
}

#[test]
fn reads_modified_utf8() {
    // "a", U+0000 as C0 80, U+10401 as a pair of surrogates
    let data = [0x61, 0xC0, 0x80, 0xED, 0xA0, 0x81, 0xED, 0xB0, 0x81];
    let mut buffer = ByteBuffer::new(&data);
    assert_eq!(buffer.read_utf8(9), Ok("a\0\u{10401}".to_string()));
    assert!(!buffer.has_more_data());
    let mut buffer = ByteBuffer::new(&data);
    assert_eq!(buffer.read_utf8(2), Err(ClassFileError::InvalidCesu8String));
    assert_eq!(buffer.read_utf8(20), Err(ClassFileError::UnexpectedEndOfData));
    let mut entry = vec![1u8, 0, 3];
    entry.extend_from_slice(&data[..3]);
    let mut buffer = ByteBuffer::new(&entry);
    assert_eq!(ConstantPoolEntry::read_from_bytes(&mut buffer), Ok(ConstantPoolEntry::Utf8("a\0".to_string())));
}

#[test]
fn writes_constants_as_they_were_read() {
    let mut bytes: Vec<u8> = Vec::new();
    bytes.extend_from_slice(&[1, 0, 9, 0x61, 0xC0, 0x80, 0xED, 0xA0, 0x81, 0xED, 0xB0, 0x81]);
    bytes.extend_from_slice(&[3, 0xff, 0xff, 0xff, 0xfe]);
    bytes.extend_from_slice(&[4, 0x7f, 0xc0, 0x00, 0x01]);
    bytes.extend_from_slice(&[5, 0x80, 0, 0, 0, 0, 0, 0, 1]);
    bytes.extend_from_slice(&[6, 0x40, 0x59, 0, 0, 0, 0, 0, 0]);
    bytes.extend_from_slice(&[7, 0, 1, 8, 0, 1, 9, 0, 8, 0, 12, 10, 0, 8, 0, 12, 11, 0, 8, 0, 12]);
    bytes.extend_from_slice(&[12, 0, 1, 0, 1, 15, 5, 0, 10, 16, 0, 1, 17, 0, 2, 0, 12, 18, 0, 3, 0, 12]);
    bytes.extend_from_slice(&[19, 0, 1, 20, 0, 1]);
    let mut buffer = ByteBuffer::new(&bytes);
    let mut pool = ConstantPool::new();
    while buffer.has_more_data() {
        pool.add(ConstantPoolEntry::read_from_bytes(&mut buffer).unwrap());
    }
    assert_eq!(pool.len(), 19);
    assert_eq!(*pool.get(&2).unwrap(), ConstantPoolEntry::Integer(-2));
    assert_eq!(*pool.get(&3).unwrap(), ConstantPoolEntry::Float(0x7fc00001));
    assert_eq!(*pool.get(&4).unwrap(), ConstantPoolEntry::Long(i64::MIN + 1));
    assert_eq!(*pool.get(&6).unwrap(), ConstantPoolEntry::Double(100f64.to_bits()));
    assert_eq!(*pool.get(&14).unwrap(), ConstantPoolEntry::MethodHandler(5, 10));
    assert_eq!(*pool.get(&19).unwrap(), ConstantPoolEntry::Package(1));
    assert_eq!(pool.to_bytes(), Some(bytes));
    let mut out = vec![9u8];
    assert!(ConstantPoolEntry::Dynamic(2, 12).write_to(&mut out));
    assert_eq!(out, vec![9, 17, 0, 2, 0, 12]);
    let long_text = "x".repeat(70000);
    assert!(!ConstantPoolEntry::Utf8(long_text).write_to(&mut out));
    assert_eq!(out.len(), 6);
}

#[test]
fn knows_the_versions() {
    assert_eq!(ClassFileVersion::new(45, 3), Ok(ClassFileVersion::Jdk1_1));
    assert_eq!(ClassFileVersion::new(65, 0), Ok(ClassFileVersion::Jdk21));
    assert_eq!(ClassFileVersion::new(61, 0), Ok(ClassFileVersion::Jdk17));
    assert_eq!(ClassFileVersion::new(44, 7), Err(ClassFileError::UnsupportedVersion(44, 7)));
    assert_eq!(ClassFileVersion::new(66, 0), Err(ClassFileError::UnsupportedVersion(66, 0)));
    assert_eq!(ClassFileVersion::Jdk1_1.version(), (45, 45));
    assert_eq!(ClassFileVersion::Jdk21.version(), (45, 65));
    assert_eq!(ClassFileVersion::default(), ClassFileVersion::Jdk8);
}

#[test]
fn knows_the_attribute_names() {
    assert_eq!(AttributeType::by_name("Code"), AttributeType::Code);
    assert_eq!(AttributeType::by_name("ConstantValue"), AttributeType::ConstantValue);
    assert_eq!(AttributeType::by_name("ModuleMainClass"), AttributeType::ModuleMainClass);
    assert_eq!(AttributeType::by_name("LineNumberTable"), AttributeType::LineNumberTable);
    assert_eq!(AttributeType::by_name("code"), AttributeType::CustomType("code".to_string()));
    assert_eq!(AttributeType::by_name(""), AttributeType::CustomType(String::new()));
}

#[test]
fn access_masks() {
    assert_eq!(ClassAccessFlags::from_bits(0x0021).unwrap().bits(), 0x0021);
    assert!(ClassAccessFlags::from_bits(0x0021).unwrap().contains(0x0020));
    assert!(!ClassAccessFlags::from_bits(0x0021).unwrap().contains(0x0200));
    assert_eq!(ClassAccessFlags::from_bits(0x0002), None);
    assert_eq!(ClassAccessFlags::from_bits(0xF631).unwrap().bits(), 0xF631);
    assert_eq!(ClassAccessFlags::default().bits(), 0);
    assert_eq!(FieldAccessFlags::from_bits(0x50DF).unwrap().bits(), 0x50DF);
    assert_eq!(FieldAccessFlags::from_bits(0x0020), None);
    assert!(FieldAccessFlags::from_bits(0x0009).unwrap().contains(0x0008));
    assert_eq!(MethodAccessFlags::from_bits(0x58FF).unwrap().bits(), 0x58FF);
    assert_eq!(MethodAccessFlags::from_bits(0x0100), None);
    assert!(MethodAccessFlags::empty().bits() == 0);
}

fn decode(bytes: &[u8]) -> Result<(Instruction, usize), ClassFileError> {
    let mut buffer = ByteBuffer::new(bytes);
    let instruction = read_one_instruction(&mut buffer)?;
    Ok((instruction, buffer.position()))
}

#[test]
fn decodes_instructions() {
    assert_eq!(decode(&[0x32]), Ok((Instruction::Aaload, 1)));
    assert_eq!(decode(&[0x00]), Ok((Instruction::Nop, 1)));
    assert_eq!(decode(&[0x60]), Ok((Instruction::Iadd, 1)));
    assert_eq!(decode(&[0xc3]), Ok((Instruction::Monitorexit, 1)));
    assert_eq!(decode(&[0x19, 7]), Ok((Instruction::Aload(7), 2)));
    assert_eq!(decode(&[0x10, 0xff]), Ok((Instruction::Bipush(0xff), 2)));
    assert_eq!(decode(&[0xbc, 10]), Ok((Instruction::Newarray(10), 2)));
    assert_eq!(decode(&[0x11, 0xff, 0xfe]), Ok((Instruction::Sipush(-2), 3)));
    assert_eq!(decode(&[0xbd, 1, 2]), Ok((Instruction::Anewarray(0x0102), 3)));
    assert_eq!(decode(&[0xc0, 0, 9]), Ok((Instruction::Checkcast(9), 3)));
    assert_eq!(decode(&[0xa7, 0xff, 0xfb]), Ok((Instruction::Goto(-5), 3)));
    assert_eq!(decode(&[0xc8, 0xff, 0xff, 0xff, 0xfb]), Ok((Instruction::Goto_w(-5), 5)));
    assert_eq!(decode(&[0xc9, 0, 0, 1, 0]), Ok((Instruction::Jsr_w(256), 5)));
    assert_eq!(decode(&[0x84, 3, 0xff]), Ok((Instruction::Iinc(3, -1), 3)));
    assert_eq!(decode(&[0xb9, 0, 5, 2, 0]), Ok((Instruction::Invokeinterface(5, 2), 5)));
    assert_eq!(decode(&[0xba, 0, 5, 0, 0]), Ok((Instruction::Invokedynamic(5), 5)));
    assert_eq!(decode(&[0xc5, 0, 5, 3]), Ok((Instruction::Multianewarray(5, 3), 4)));
    assert_eq!(decode(&[0xc4, 0x15, 1, 0]), Ok((Instruction::Wide(WideKind::Iload, 256, 0), 4)));
    assert_eq!(decode(&[0xc4, 0x84, 1, 0, 0xff, 0]), Ok((Instruction::Wide(WideKind::Iinc, 256, -256), 6)));
    assert_eq!(decode(&[0xc4, 0x60]), Err(ClassFileError::InvalidCode(0x60)));
    assert_eq!(decode(&[0xca]), Err(ClassFileError::InvalidCode(0xca)));
    assert_eq!(decode(&[0xff]), Err(ClassFileError::InvalidCode(0xff)));
    assert_eq!(decode(&[0x19]), Err(ClassFileError::UnexpectedEndOfData));
    assert_eq!(decode(&[]), Err(ClassFileError::UnexpectedEndOfData));
}

#[test]
fn decodes_switches() {
    // at position 0: three bytes of padding
    let mut table = vec![0xaa, 0, 0, 0];
    for word in [40i32, -1, 1, 10, 20, 30] {
        table.extend_from_slice(&word.to_be_bytes());
    }
    assert_eq!(decode(&table), Ok((Instruction::Tableswitch(40, -1, 1), 28)));
    assert_eq!(decode(&table[..27]), Err(ClassFileError::UnexpectedEndOfData));
    let mut reversed = vec![0xaa, 0, 0, 0];
    for word in [40i32, 2, 1] {
        reversed.extend_from_slice(&word.to_be_bytes());
    }
    assert_eq!(decode(&reversed), Err(ClassFileError::InvalidCode(0xaa)));
    let mut lookup = vec![0xab, 0, 0, 0];
    for word in [40i32, 2, 5, 10, 7, 20] {
        lookup.extend_from_slice(&word.to_be_bytes());
    }
    assert_eq!(decode(&lookup), Ok((Instruction::Lookupswitch(40, 2), 28)));
    let mut negative = vec![0xab, 0, 0, 0];
    for word in [40i32, -1] {
        negative.extend_from_slice(&word.to_be_bytes());
    }
    assert_eq!(decode(&negative), Err(ClassFileError::InvalidCode(0xab)));
    // at position 3 there is no padding
    let mut shifted = vec![0, 0, 0, 0xaa];
    for word in [40i32, 0, 0, 10] {
        shifted.extend_from_slice(&word.to_be_bytes());
    }
    let mut buffer = ByteBuffer::new(&shifted);
    buffer.jump_to(3);
    assert_eq!(read_one_instruction(&mut buffer), Ok(Instruction::Tableswitch(40, 0, 0)));
    assert_eq!(buffer.position(), 20);
}

#[test]
fn parses_method_descriptors() {
    let descriptor = MethodDescriptor::new("(I[JLjava/lang/String;[[Ljava/lang/Object;D)V").unwrap();
    assert_eq!(
        descriptor.args,
        vec![
            ValueType::Primary(PrimaryType::Int),
            ValueType::PrimaryArray(PrimaryType::Long, 1),
            ValueType::Object("java/lang/String".to_string()),
            ValueType::ObjectArray("java/lang/Object".to_string(), 2),
            ValueType::Primary(PrimaryType::Double),
        ]
    );
    assert_eq!(descriptor.ret, ValueType::Void);
    let descriptor = MethodDescriptor::new("()[Z").unwrap();
    assert!(descriptor.args.is_empty());
    assert_eq!(descriptor.ret, ValueType::PrimaryArray(PrimaryType::Boolean, 1));
    assert_eq!(MethodDescriptor::new("(BCSF)Ljava/lang/Object;").unwrap().args.len(), 4);
    for wrong in ["", "I", "()", "(", "(I", "(V)V", "(Ljava/lang/String)V", "()VV", "()II", "(Q)V", "()[", "(I)V "] {
        assert_eq!(MethodDescriptor::new(wrong), Err(VmError::ValueTypeMissMatch), "{:?}", wrong);
    }
    let mut count = 2usize;
    assert_eq!(
        MethodDescriptor::construct_primary_type(&mut count, PrimaryType::Int),
        ValueType::PrimaryArray(PrimaryType::Int, 2)
    );
    assert_eq!(count, 0);
    assert_eq!(
        MethodDescriptor::construct_object_type(&mut count, "A".to_string()),
        ValueType::Object("A".to_string())
    );
    let key = MethodKey::new("main", "()V");
    assert_eq!((key.0, key.1), ("main", "()V"));
}

#[test]
fn resolves_the_constant_pool() {
    let mut cp = ConstantPool::new();
    cp.add(ConstantPoolEntry::Utf8("Owner".to_string())); // 1
    cp.add(ConstantPoolEntry::ClassReference(1)); // 2
    cp.add(ConstantPoolEntry::Utf8("name".to_string())); // 3
    cp.add(ConstantPoolEntry::Utf8("I".to_string())); // 4
    cp.add(ConstantPoolEntry::NameAndTypeDescriptor(3, 4)); // 5
    cp.add(ConstantPoolEntry::FieldReference(2, 5)); // 6
    cp.add(ConstantPoolEntry::Long(9)); // 7, 8
    cp.add(ConstantPoolEntry::StringReference(3)); // 9
    cp.add(ConstantPoolEntry::MethodHandler(6, 6)); // 10
    let pool = RuntimeConstantPool::from(&cp).unwrap();
    assert_eq!(pool.get_class_name(2), Ok("Owner"));
    assert_eq!(pool.get_field_name(6), Ok(("Owner", "name", "I")));
    assert_eq!(pool.get_string(9), Ok("name".to_string()));
    assert_eq!(pool.get_utf8_string(4), Ok("I".to_string()));
    assert!(matches!(pool.get(7), Ok(RuntimeConstantPoolEntry::Long(9))));
    assert!(matches!(
        pool.get(10),
        Ok(RuntimeConstantPoolEntry::MethodHandler(MethodHandlerKind::InvokeSpecial, _, _, _))
    ));
    for index in [0u16, 8, 11] {
        assert_eq!(
            pool.get(index).err(),
            Some(VmError::ReadClassBytesError(ClassFileError::InvalidConstantPoolIndexError(index)))
        );
    }
    assert_eq!(
        pool.get_class_name(1),
        Err(VmError::ReadClassBytesError(ClassFileError::InvalidClassData(ClassDataFault::NotClassReference(1))))
    );
    assert_eq!(
        pool.get_utf8_string(2),
        Err(VmError::ReadClassBytesError(ClassFileError::InvalidClassData(ClassDataFault::NotUtf8(2))))
    );
    // references that lead nowhere
    let mut cp = ConstantPool::new();
    cp.add(ConstantPoolEntry::ClassReference(7));
    assert_eq!(
        RuntimeConstantPool::from(&cp).err(),
        Some(VmError::ReadClassBytesError(ClassFileError::InvalidConstantPoolIndexError(7)))
    );
    let mut cp = ConstantPool::new();
    cp.add(ConstantPoolEntry::Utf8("x".to_string()));
    cp.add(ConstantPoolEntry::FieldReference(1, 1));
    assert_eq!(
        RuntimeConstantPool::from(&cp).err(),
        Some(VmError::ReadClassBytesError(ClassFileError::InvalidClassData(ClassDataFault::NotClassReference(1))))
    );
    let mut cp = ConstantPool::new();
    cp.add(ConstantPoolEntry::Utf8("x".to_string()));
    cp.add(ConstantPoolEntry::Dynamic(0, 1));
    assert_eq!(
        RuntimeConstantPool::from(&cp).err(),
        Some(VmError::ReadClassBytesError(ClassFileError::InvalidClassData(ClassDataFault::NotNameAndType(1))))
    );
    let mut cp = ConstantPool::new();
    cp.add(ConstantPoolEntry::Utf8("x".to_string()));
    cp.add(ConstantPoolEntry::MethodHandler(1, 1));
    assert_eq!(
        RuntimeConstantPool::from(&cp).err(),
        Some(VmError::ReadClassBytesError(ClassFileError::InvalidClassData(ClassDataFault::NotMemberReference(1))))
    );
    assert_eq!(MethodHandlerKind::new(1), Ok(MethodHandlerKind::GetField));
    assert_eq!(MethodHandlerKind::new(8), Ok(MethodHandlerKind::InvokeInterface));
    assert_eq!(
        MethodHandlerKind::new(9),
        Err(VmError::ReadClassBytesError(ClassFileError::InvalidMethodHandlerKind(9)))
    );
}

#[test]
fn errors_in_words() {
    assert_eq!(ClassFileError::UnsupportedVersion(66, 3).describe(), "unsupported class file version 66.3");
    assert_eq!(ClassFileError::InvalidConstantPoolIndexError(7).describe(), "invalid const pool index 7");
    assert_eq!(ClassFileError::InvalidMethodHandlerKind(12).describe(), "invalid method handler kind 12");
    assert_eq!(ClassFileError::UnexpectedEndOfData.describe(), "unexpected end of data");
    assert_eq!(ClassFileError::InvalidCesu8String.describe(), "invalid cesu8 string");
    assert_eq!(ClassFileError::ConstantPoolTagNotSupport(2).describe(), "constant pool tag not support: 2");
    assert_eq!(ClassFileError::InvalidCode(202).describe(), "invalid code : 202");
    assert_eq!(
        ClassFileError::InvalidClassData(ClassDataFault::NotUtf8(3)).describe(),
        "invalid class data: not a Utf8 constant: 3"
    );
    assert_eq!(VmError::ClassNotFoundException("A".to_string()).describe(), "ClassNotFoundException A");
    assert_eq!(
        VmError::MethodNotFoundException("m".to_string(), "()V".to_string()).describe(),
        "MethodNotFoundException m ()V"
    );
    assert_eq!(VmError::StackOverFlow.describe(), "stack over flow");
    assert_eq!(
        VmError::ReadClassBytesError(ClassFileError::UnexpectedEndOfData).describe(),
        "ReadClassBytesError unexpected end of data"
    );
    assert_eq!(MethodHandlerKind::GetField.describe(), "getfield C.f:T");
    assert_eq!(MethodHandlerKind::NewInvokeSpecial.describe(), "new C; dup; invokespecial C.<init>:(A*)V");
}

#[test]
fn constants_in_words() {
    let mut cp = ConstantPool::new();
    cp.add(ConstantPoolEntry::Utf8("Owner".to_string())); // 1
    cp.add(ConstantPoolEntry::ClassReference(1)); // 2
    cp.add(ConstantPoolEntry::Utf8("name".to_string())); // 3
    cp.add(ConstantPoolEntry::Utf8("I".to_string())); // 4
    cp.add(ConstantPoolEntry::NameAndTypeDescriptor(3, 4)); // 5
    cp.add(ConstantPoolEntry::FieldReference(2, 5)); // 6
    cp.add(ConstantPoolEntry::Long(-9)); // 7, 8
    cp.add(ConstantPoolEntry::Integer(i32::MIN)); // 9
    cp.add(ConstantPoolEntry::ClassReference(10)); // 10
    assert_eq!(cp.fmt_entry(&1), Ok("String: \"Owner\"".to_string()));
    assert_eq!(cp.fmt_entry(&2), Ok("ClassReference: 1 => (String: \"Owner\")".to_string()));
    assert_eq!(
        cp.fmt_entry(&6),
        Ok("FieldReference: 2, 5 => (ClassReference: 1 => (String: \"Owner\")), (NameAndTypeDescriptor: 3, 4 => (String: \"name\"), (String: \"I\"))".to_string())
    );
    assert_eq!(cp.fmt_entry(&7), Ok("Long: -9".to_string()));
    assert_eq!(cp.fmt_entry(&9), Ok("Integer: -2147483648".to_string()));
    assert_eq!(cp.fmt_entry(&8), Err(ClassFileError::InvalidConstantPoolIndexError(8)));
    assert_eq!(cp.fmt_entry(&0), Err(ClassFileError::InvalidConstantPoolIndexError(0)));
    assert_eq!(cp.fmt_entry(&10), Err(ClassFileError::InvalidConstantPoolIndexError(10)));
    assert_eq!(cp.describe(), Err(ClassFileError::InvalidConstantPoolIndexError(10)));
    let mut small = ConstantPool::new();
    small.add(ConstantPoolEntry::Long(5));
    small.add(ConstantPoolEntry::Utf8("x".to_string()));
    assert_eq!(
        small.describe(),
        Ok("Constant pool: (size: 3)\n    1, Long: 5\n    3, String: \"x\"\n".to_string())
    );
    let pool = RuntimeConstantPool::from(&{
        let mut cp = ConstantPool::new();
        cp.add(ConstantPoolEntry::Utf8("Owner".to_string()));
        cp.add(ConstantPoolEntry::ClassReference(1));
        cp.add(ConstantPoolEntry::Utf8("name".to_string()));
        cp.add(ConstantPoolEntry::Utf8("I".to_string()));
        cp.add(ConstantPoolEntry::NameAndTypeDescriptor(3, 4));
        cp.add(ConstantPoolEntry::FieldReference(2, 5));
        cp.add(ConstantPoolEntry::Integer(-3));
        cp
    })
    .unwrap();
    assert_eq!(pool.get(6).unwrap().describe(), "Fieldref\tOwner.name:I");
    assert_eq!(pool.get(2).unwrap().describe(), "Class\tOwner");
    assert_eq!(pool.get(7).unwrap().describe(), "Integer\t-3");
    assert_eq!(pool.get(1).unwrap().describe(), "Utf8\tOwner");
}

#[test]
fn a_class_file_in_words() {
    let class = read_buffer(&hello_world(52)).unwrap();
    assert_eq!(
        class.describe(),
        "public class HelloWorldminor version: 45\nmajor version: 52\nflags: (0x0021) this_class: HelloWorld\nsuper_class: java/lang/Object\ninterfaces: 0, fields: 0, method: 2, attributes: 0\n"
    );
}

#[test]
fn a_resolved_pool_in_words() {
    let mut cp = ConstantPool::new();
    cp.add(ConstantPoolEntry::Utf8("Owner".to_string()));
    cp.add(ConstantPoolEntry::Long(-7));
    cp.add(ConstantPoolEntry::ClassReference(1));
    let pool = RuntimeConstantPool::from(&cp).unwrap();
    assert_eq!(pool.len(), 4);
    assert_eq!(pool.describe(), "#0 = Utf8\tOwner\n#1 = Long\t-7\n#2 = place_holder\n#3 = Class\tOwner\n");
}
