use lite_jvm::class_finder::ClassPath;
use lite_jvm::java_exception::MethodCallError;
use lite_jvm::jvm_error::{VmError, VmExecResult};
use lite_jvm::jvm_values::{ArrayElement, PrimaryType, Value};
use lite_jvm::loaded_class::ClassStatus;
use lite_jvm::method_area::MethodArea;
use lite_jvm::object_heap::ObjectHeap;
use lite_jvm::stack::CallStack;
use lite_jvm::stack_frame::{FloatOp, Pending};
use lite_jvm::virtual_machine::VirtualMachine;

const STEPS: u64 = 100_000;

/// A class path that holds its classes in memory.
struct MemoryClassPath {
    classes: Vec<(String, Vec<u8>)>,
}

impl ClassPath for MemoryClassPath {
    fn find_class(&self, class_name: &str) -> VmExecResult<Option<Vec<u8>>> {
        for (name, bytes) in &self.classes {
            if name == class_name {
                return Ok(Some(bytes.clone()));
            }
        }
        Ok(None)
    }
}

/// Writes class files.
struct ClassWriter {
    pool: Vec<u8>,
    slots: u16,
    fields: Vec<u8>,
    field_count: u16,
    methods: Vec<u8>,
    method_count: u16,
}

struct Code {
    max_stack: u16,
    max_locals: u16,
    code: Vec<u8>,
    handlers: Vec<(u16, u16, u16, u16)>,
    lines: Vec<(u16, u16)>,
}

fn code(max_stack: u16, max_locals: u16, bytes: &[u8]) -> Code {
    Code { max_stack, max_locals, code: bytes.to_vec(), handlers: Vec::new(), lines: Vec::new() }
}

impl ClassWriter {
    fn new() -> ClassWriter {
        ClassWriter {
            pool: Vec::new(),
            slots: 1,
            fields: Vec::new(),
            field_count: 0,
            methods: Vec::new(),
            method_count: 0,
        }
    }

    fn take(&mut self, wide: bool) -> u16 {
        let index = self.slots;
        self.slots += if wide { 2 } else { 1 };
        index
    }

    fn utf8(&mut self, text: &str) -> u16 {
        self.pool.push(1);
        self.pool.extend_from_slice(&(text.len() as u16).to_be_bytes());
        self.pool.extend_from_slice(text.as_bytes());
        self.take(false)
    }

    fn integer(&mut self, value: i32) -> u16 {
        self.pool.push(3);
        self.pool.extend_from_slice(&value.to_be_bytes());
        self.take(false)
    }

    fn single(&mut self, value: f32) -> u16 {
        self.pool.push(4);
        self.pool.extend_from_slice(&value.to_be_bytes());
        self.take(false)
    }

    fn long_integer(&mut self, value: i64) -> u16 {
        self.pool.push(5);
        self.pool.extend_from_slice(&value.to_be_bytes());
        self.take(true)
    }

    fn double_float(&mut self, value: f64) -> u16 {
        self.pool.push(6);
        self.pool.extend_from_slice(&value.to_be_bytes());
        self.take(true)
    }

    fn class(&mut self, name: &str) -> u16 {
        let name = self.utf8(name);
        self.pool.push(7);
        self.pool.extend_from_slice(&name.to_be_bytes());
        self.take(false)
    }

    fn text(&mut self, text: &str) -> u16 {
        let text = self.utf8(text);
        self.pool.push(8);
        self.pool.extend_from_slice(&text.to_be_bytes());
        self.take(false)
    }

    fn member(&mut self, tag: u8, class: &str, name: &str, descriptor: &str) -> u16 {
        let class = self.class(class);
        let name = self.utf8(name);
        let descriptor = self.utf8(descriptor);
        self.pool.push(12);
        self.pool.extend_from_slice(&name.to_be_bytes());
        self.pool.extend_from_slice(&descriptor.to_be_bytes());
        let name_and_type = self.take(false);
        self.pool.push(tag);
        self.pool.extend_from_slice(&class.to_be_bytes());
        self.pool.extend_from_slice(&name_and_type.to_be_bytes());
        self.take(false)
    }

    fn field_ref(&mut self, class: &str, name: &str, descriptor: &str) -> u16 {
        self.member(9, class, name, descriptor)
    }

    fn method_ref(&mut self, class: &str, name: &str, descriptor: &str) -> u16 {
        self.member(10, class, name, descriptor)
    }

    fn interface_method_ref(&mut self, class: &str, name: &str, descriptor: &str) -> u16 {
        self.member(11, class, name, descriptor)
    }

    fn field(&mut self, access: u16, name: &str, descriptor: &str, constant: Option<u16>) {
        let name = self.utf8(name);
        let descriptor = self.utf8(descriptor);
        let attribute = constant.map(|index| (self.utf8("ConstantValue"), index));
        self.fields.extend_from_slice(&access.to_be_bytes());
        self.fields.extend_from_slice(&name.to_be_bytes());
        self.fields.extend_from_slice(&descriptor.to_be_bytes());
        match attribute {
            None => self.fields.extend_from_slice(&0u16.to_be_bytes()),
            Some((attribute_name, index)) => {
                self.fields.extend_from_slice(&1u16.to_be_bytes());
                self.fields.extend_from_slice(&attribute_name.to_be_bytes());
                self.fields.extend_from_slice(&2u32.to_be_bytes());
                self.fields.extend_from_slice(&index.to_be_bytes());
            }
        }
        self.field_count += 1;
    }

    fn method(&mut self, access: u16, name: &str, descriptor: &str, body: Option<Code>) {
        let name = self.utf8(name);
        let descriptor = self.utf8(descriptor);
        self.methods.extend_from_slice(&access.to_be_bytes());
        self.methods.extend_from_slice(&name.to_be_bytes());
        self.methods.extend_from_slice(&descriptor.to_be_bytes());
        match body {
            None => self.methods.extend_from_slice(&0u16.to_be_bytes()),
            Some(body) => {
                let code_name = self.utf8("Code");
                let lines_name = self.utf8("LineNumberTable");
                let mut attribute: Vec<u8> = Vec::new();
                attribute.extend_from_slice(&body.max_stack.to_be_bytes());
                attribute.extend_from_slice(&body.max_locals.to_be_bytes());
                attribute.extend_from_slice(&(body.code.len() as u32).to_be_bytes());
                attribute.extend_from_slice(&body.code);
                attribute.extend_from_slice(&(body.handlers.len() as u16).to_be_bytes());
                for (start, end, handler, catch) in &body.handlers {
                    attribute.extend_from_slice(&start.to_be_bytes());
                    attribute.extend_from_slice(&end.to_be_bytes());
                    attribute.extend_from_slice(&handler.to_be_bytes());
                    attribute.extend_from_slice(&catch.to_be_bytes());
                }
                if body.lines.is_empty() {
                    attribute.extend_from_slice(&0u16.to_be_bytes());
                } else {
                    attribute.extend_from_slice(&1u16.to_be_bytes());
                    attribute.extend_from_slice(&lines_name.to_be_bytes());
                    attribute.extend_from_slice(&((2 + 4 * body.lines.len()) as u32).to_be_bytes());
                    attribute.extend_from_slice(&(body.lines.len() as u16).to_be_bytes());
                    for (pc, line) in &body.lines {
                        attribute.extend_from_slice(&pc.to_be_bytes());
                        attribute.extend_from_slice(&line.to_be_bytes());
                    }
                }
                self.methods.extend_from_slice(&1u16.to_be_bytes());
                self.methods.extend_from_slice(&code_name.to_be_bytes());
                self.methods.extend_from_slice(&(attribute.len() as u32).to_be_bytes());
                self.methods.extend_from_slice(&attribute);
            }
        }
        self.method_count += 1;
    }

    fn finish(
        mut self,
        access: u16,
        name: &str,
        super_name: Option<&str>,
        interfaces: &[&str],
        source_file: Option<&str>,
    ) -> Vec<u8> {
        let this_class = self.class(name);
        let super_class = match super_name {
            Some(super_name) => self.class(super_name),
            None => 0,
        };
        let interface_indices: Vec<u16> = interfaces.iter().map(|i| self.class(i)).collect();
        let source = source_file.map(|file| (self.utf8("SourceFile"), self.utf8(file)));
        let mut out: Vec<u8> = Vec::new();
        out.extend_from_slice(&0xCAFEBABEu32.to_be_bytes());
        out.extend_from_slice(&0u16.to_be_bytes());
        out.extend_from_slice(&52u16.to_be_bytes());
        out.extend_from_slice(&self.slots.to_be_bytes());
        out.extend_from_slice(&self.pool);
        out.extend_from_slice(&access.to_be_bytes());
        out.extend_from_slice(&this_class.to_be_bytes());
        out.extend_from_slice(&super_class.to_be_bytes());
        out.extend_from_slice(&(interface_indices.len() as u16).to_be_bytes());
        for index in interface_indices {
            out.extend_from_slice(&index.to_be_bytes());
        }
        out.extend_from_slice(&self.field_count.to_be_bytes());
        out.extend_from_slice(&self.fields);
        out.extend_from_slice(&self.method_count.to_be_bytes());
        out.extend_from_slice(&self.methods);
        match source {
            None => out.extend_from_slice(&0u16.to_be_bytes()),
            Some((attribute_name, file)) => {
                out.extend_from_slice(&1u16.to_be_bytes());
                out.extend_from_slice(&attribute_name.to_be_bytes());
                out.extend_from_slice(&2u32.to_be_bytes());
                out.extend_from_slice(&file.to_be_bytes());
            }
        }
        out
    }
}

const PUBLIC: u16 = 0x0001;
const STATIC: u16 = 0x0008;
const SUPER: u16 = 0x0020;
const INTERFACE: u16 = 0x0200;
const NATIVE: u16 = 0x1000;

fn hi(index: u16) -> u8 {
    (index >> 8) as u8
}

fn lo(index: u16) -> u8 {
    (index & 0xff) as u8
}

fn object_class() -> (String, Vec<u8>) {
    let mut w = ClassWriter::new();
    w.method(PUBLIC, "<init>", "()V", Some(code(0, 1, &[0xb1])));
    ("java/lang/Object".to_string(), w.finish(PUBLIC | SUPER, "java/lang/Object", None, &[], None))
}

fn plain_class(name: &str, super_name: &str) -> (String, Vec<u8>) {
    let w = ClassWriter::new();
    (name.to_string(), w.finish(PUBLIC | SUPER, name, Some(super_name), &[], None))
}

fn string_class() -> (String, Vec<u8>) {
    let mut w = ClassWriter::new();
    w.field(0x0012, "value", "[C", None);
    w.field(0x0002, "hash", "I", None);
    ("java/lang/String".to_string(), w.finish(PUBLIC | SUPER, "java/lang/String", Some("java/lang/Object"), &[], None))
}

fn mirror_class() -> (String, Vec<u8>) {
    let mut w = ClassWriter::new();
    w.field(0x0002, "name", "Ljava/lang/String;", None);
    ("java/lang/Class".to_string(), w.finish(PUBLIC | SUPER, "java/lang/Class", Some("java/lang/Object"), &[], None))
}

/// The classes that every test machine has.
fn library() -> Vec<(String, Vec<u8>)> {
    vec![
        object_class(),
        string_class(),
        mirror_class(),
        plain_class("java/lang/Throwable", "java/lang/Object"),
        plain_class("java/lang/ArithmeticException", "java/lang/Throwable"),
        plain_class("java/lang/NullPointerException", "java/lang/Throwable"),
        plain_class("java/lang/ClassCastException", "java/lang/Throwable"),
        plain_class("java/lang/ArrayIndexOutOfBoundsException", "java/lang/Throwable"),
        plain_class("java/lang/NegativeArraySizeException", "java/lang/Throwable"),
    ]
}

fn machine(classes: Vec<(String, Vec<u8>)>) -> (VirtualMachine, CallStack) {
    let mut vm = VirtualMachine::new(102400);
    let mut all = library();
    all.extend(classes);
    vm.add_class_path(Box::new(MemoryClassPath { classes: all }));
    let stack = vm.allocate_call_stack();
    (vm, stack)
}

/// A class called `Test` with one static method `run` of the given
/// descriptor and code.
fn test_class(descriptor: &str, body: Code) -> (String, Vec<u8>) {
    let mut w = ClassWriter::new();
    w.method(PUBLIC | STATIC, "run", descriptor, Some(body));
    ("Test".to_string(), w.finish(PUBLIC | SUPER, "Test", Some("java/lang/Object"), &[], Some("Test.java")))
}

fn run_static(
    vm: &mut VirtualMachine,
    stack: &mut CallStack,
    class_name: &str,
    method: &str,
    descriptor: &str,
    args: Vec<Value>,
) -> Result<Option<Value>, MethodCallError> {
    let class = vm.lookup_class_and_initialize(stack, class_name, STEPS)?;
    let method = vm.method_area.get(class).unwrap().get_method(method, descriptor).unwrap();
    vm.invoke_method(stack, class, method, None, args, STEPS)
}

#[test]
fn adds_two_integers() {
    // iload_0; iload_1; iadd; ireturn
    let (mut vm, mut stack) = machine(vec![test_class("(II)I", code(2, 2, &[0x1a, 0x1b, 0x60, 0xac]))]);
    let result = run_static(&mut vm, &mut stack, "Test", "run", "(II)I", vec![Value::Int(7), Value::Int(35)]);
    assert_eq!(result.unwrap(), Some(Value::Int(42)));
    assert_eq!(stack.depth(), 0);
}

fn class_name_of(vm: &VirtualMachine, value: &Value) -> String {
    match value {
        Value::ObjectRef(object) => {
            let class = vm.get_class_of(object).unwrap();
            vm.method_area.get(class).unwrap().name.clone()
        }
        other => panic!("not an object: {:?}", other),
    }
}

fn thrown_class(vm: &VirtualMachine, result: Result<Option<Value>, MethodCallError>) -> String {
    match result {
        Err(MethodCallError::ExceptionThrown(object)) => class_name_of(vm, &Value::ObjectRef(object)),
        other => panic!("nothing was thrown: {:?}", other),
    }
}

fn base_and_derived() -> Vec<(String, Vec<u8>)> {
    let mut base = ClassWriter::new();
    let object_init = base.method_ref("java/lang/Object", "<init>", "()V");
    base.method(PUBLIC, "<init>", "()V", Some(code(1, 1, &[0x2a, 0xb7, hi(object_init), lo(object_init), 0xb1])));
    base.method(PUBLIC, "id", "()I", Some(code(1, 1, &[0x04, 0xac])));
    let mut derived = ClassWriter::new();
    let base_init = derived.method_ref("Base", "<init>", "()V");
    derived.method(PUBLIC, "<init>", "()V", Some(code(1, 1, &[0x2a, 0xb7, hi(base_init), lo(base_init), 0xb1])));
    derived.method(PUBLIC, "id", "()I", Some(code(1, 1, &[0x05, 0xac])));
    vec![
        ("Base".to_string(), base.finish(PUBLIC | SUPER, "Base", Some("java/lang/Object"), &[], None)),
        ("Derived".to_string(), derived.finish(PUBLIC | SUPER, "Derived", Some("Base"), &[], None)),
    ]
}

#[test]
fn dispatches_on_the_class_of_the_receiver() {
    let mut w = ClassWriter::new();
    let derived = w.class("Derived");
    let init = w.method_ref("Derived", "<init>", "()V");
    let id = w.method_ref("Base", "id", "()I");
    w.method(
        PUBLIC | STATIC,
        "run",
        "()I",
        Some(code(
            2,
            0,
            &[0xbb, hi(derived), lo(derived), 0x59, 0xb7, hi(init), lo(init), 0xb6, hi(id), lo(id), 0xac],
        )),
    );
    let mut classes = base_and_derived();
    classes.push(("Test".to_string(), w.finish(PUBLIC | SUPER, "Test", Some("java/lang/Object"), &[], None)));
    let (mut vm, mut stack) = machine(classes);
    let result = run_static(&mut vm, &mut stack, "Test", "run", "()I", vec![]);
    assert_eq!(result.unwrap(), Some(Value::Int(2)));
}

fn division_with_handler() -> (String, Vec<u8>) {
    let mut w = ClassWriter::new();
    let arithmetic = w.class("java/lang/ArithmeticException");
    let mut body = code(2, 0, &[0x04, 0x03, 0x6c, 0x57, 0x06, 0xac, 0x57, 0x05, 0xac]);
    body.handlers.push((0, 4, 6, arithmetic));
    w.method(PUBLIC | STATIC, "run", "()I", Some(body));
    ("Test".to_string(), w.finish(PUBLIC | SUPER, "Test", Some("java/lang/Object"), &[], None))
}

#[test]
fn catches_a_division_by_zero() {
    let (mut vm, mut stack) = machine(vec![division_with_handler()]);
    let result = run_static(&mut vm, &mut stack, "Test", "run", "()I", vec![]);
    assert_eq!(result.unwrap(), Some(Value::Int(2)));
}

#[test]
fn division_by_zero_without_handler_is_thrown() {
    // iconst_1; iconst_0; idiv; ireturn
    let (mut vm, mut stack) = machine(vec![test_class("()I", code(2, 0, &[0x04, 0x03, 0x6c, 0xac]))]);
    let result = run_static(&mut vm, &mut stack, "Test", "run", "()I", vec![]);
    assert_eq!(thrown_class(&vm, result), "java/lang/ArithmeticException");
    assert_eq!(stack.depth(), 0);
}

#[test]
fn long_division_by_zero_is_thrown() {
    // lconst_1; lconst_0; ldiv; lreturn
    let (mut vm, mut stack) = machine(vec![test_class("()J", code(2, 0, &[0x0a, 0x09, 0x6d, 0xad]))]);
    let result = run_static(&mut vm, &mut stack, "Test", "run", "()J", vec![]);
    assert_eq!(thrown_class(&vm, result), "java/lang/ArithmeticException");
}

#[test]
fn a_handler_of_another_class_does_not_catch() {
    let mut w = ClassWriter::new();
    let other = w.class("java/lang/NullPointerException");
    let mut body = code(2, 0, &[0x04, 0x03, 0x6c, 0x57, 0x06, 0xac, 0x57, 0x05, 0xac]);
    body.handlers.push((0, 4, 6, other));
    w.method(PUBLIC | STATIC, "run", "()I", Some(body));
    let class = ("Test".to_string(), w.finish(PUBLIC | SUPER, "Test", Some("java/lang/Object"), &[], None));
    let (mut vm, mut stack) = machine(vec![class]);
    let result = run_static(&mut vm, &mut stack, "Test", "run", "()I", vec![]);
    assert_eq!(thrown_class(&vm, result), "java/lang/ArithmeticException");
}

#[test]
fn a_handler_outside_its_range_does_not_catch() {
    let mut w = ClassWriter::new();
    let mut body = code(2, 0, &[0x04, 0x03, 0x6c, 0x57, 0x06, 0xac, 0x57, 0x05, 0xac]);
    body.handlers.push((0, 2, 6, 0));
    w.method(PUBLIC | STATIC, "run", "()I", Some(body));
    let class = ("Test".to_string(), w.finish(PUBLIC | SUPER, "Test", Some("java/lang/Object"), &[], None));
    let (mut vm, mut stack) = machine(vec![class]);
    let result = run_static(&mut vm, &mut stack, "Test", "run", "()I", vec![]);
    assert_eq!(thrown_class(&vm, result), "java/lang/ArithmeticException");
}

fn holder() -> (String, Vec<u8>) {
    let mut w = ClassWriter::new();
    let n = w.field_ref("Holder", "N", "I");
    let runs = w.field_ref("Holder", "RUNS", "I");
    w.field(PUBLIC | STATIC, "N", "I", None);
    w.field(PUBLIC | STATIC, "RUNS", "I", None);
    // bipush 42; putstatic N; getstatic RUNS; iconst_1; iadd; putstatic RUNS; return
    w.method(
        STATIC,
        "<clinit>",
        "()V",
        Some(code(
            2,
            0,
            &[0x10, 42, 0xb3, hi(n), lo(n), 0xb2, hi(runs), lo(runs), 0x04, 0x60, 0xb3, hi(runs), lo(runs), 0xb1],
        )),
    );
    ("Holder".to_string(), w.finish(PUBLIC | SUPER, "Holder", Some("java/lang/Object"), &[], None))
}

#[test]
fn runs_the_static_initializer() {
    let (mut vm, mut stack) = machine(vec![holder()]);
    let class = vm.lookup_class_and_initialize(&mut stack, "Holder", STEPS).unwrap();
    assert_eq!(vm.get_static(class, "N"), Some(Value::Int(42)));
    assert_eq!(vm.method_area.get(class).unwrap().status, ClassStatus::Initialized);
}

#[test]
fn initializes_a_class_once() {
    let (mut vm, mut stack) = machine(vec![holder()]);
    let first = vm.lookup_class_and_initialize(&mut stack, "Holder", STEPS).unwrap();
    let second = vm.lookup_class_and_initialize(&mut stack, "Holder", STEPS).unwrap();
    assert_eq!(first, second);
    assert_eq!(vm.get_static(first, "RUNS"), Some(Value::Int(1)));
}

#[test]
fn linking_gives_static_fields_their_zero() {
    let mut w = ClassWriter::new();
    let seven = w.integer(7);
    w.field(PUBLIC | STATIC, "I", "I", None);
    w.field(PUBLIC | STATIC, "J", "J", None);
    w.field(PUBLIC | STATIC, "F", "F", None);
    w.field(PUBLIC | STATIC, "D", "D", None);
    w.field(PUBLIC | STATIC, "O", "Ljava/lang/Object;", None);
    w.field(PUBLIC | STATIC, "SEVEN", "I", Some(seven));
    let class = ("Zeros".to_string(), w.finish(PUBLIC | SUPER, "Zeros", Some("java/lang/Object"), &[], None));
    let (mut vm, _stack) = machine(vec![class]);
    let class = vm.linked_class("Zeros").unwrap();
    assert_eq!(vm.method_area.get(class).unwrap().status, ClassStatus::Linked);
    assert_eq!(vm.get_static(class, "I"), Some(Value::Int(0)));
    assert_eq!(vm.get_static(class, "J"), Some(Value::Long(0)));
    assert_eq!(vm.get_static(class, "F"), Some(Value::Float(0)));
    assert_eq!(vm.get_static(class, "D"), Some(Value::Double(0)));
    assert_eq!(vm.get_static(class, "O"), Some(Value::Null));
    assert_eq!(vm.get_static(class, "SEVEN"), Some(Value::Int(7)));
    assert_eq!(vm.get_static(class, "missing"), None);
}

#[test]
fn stores_and_loads_array_elements() {
    let (mut vm, _stack) = machine(vec![]);
    let array = vm.new_array(&ArrayElement::PrimaryValue(PrimaryType::Int), 4).unwrap();
    for (i, v) in [10, 20, 30, 40].iter().enumerate() {
        vm.array_set(&array, i, &Value::Int(*v)).unwrap();
    }
    let back: Vec<Value> = (0..4).rev().map(|i| vm.array_get(&array, i).unwrap()).collect();
    assert_eq!(back, vec![Value::Int(40), Value::Int(30), Value::Int(20), Value::Int(10)]);
    assert_eq!(vm.get_array_header(&array).unwrap().array_size, 4);
    assert_eq!(vm.array_get(&array, 4), Err(VmError::IndexOutOfBounds));
    assert_eq!(vm.array_set(&array, 0, &Value::Long(1)), Err(VmError::ValueTypeMissMatch));
}

#[test]
fn array_round_trip_in_bytecode() {
    // iconst_4; newarray int; astore_0;
    // aload_0; iconst_0; bipush 10; iastore; ... aload_0; iconst_3; bipush 40; iastore;
    // aload_0; iconst_3; iaload; aload_0; arraylength; iadd; ireturn
    let mut bytes = vec![0x07, 0xbc, 10, 0x4b];
    for (i, v) in [10u8, 20, 30, 40].iter().enumerate() {
        bytes.extend_from_slice(&[0x2a, 0x03 + i as u8, 0x10, *v, 0x4f]);
    }
    bytes.extend_from_slice(&[0x2a, 0x06, 0x2e, 0x2a, 0xbe, 0x60, 0xac]);
    let (mut vm, mut stack) = machine(vec![test_class("()I", code(3, 1, &bytes))]);
    let result = run_static(&mut vm, &mut stack, "Test", "run", "()I", vec![]);
    assert_eq!(result.unwrap(), Some(Value::Int(44)));
}

#[test]
fn interns_strings() {
    let (mut vm, _stack) = machine(vec![]);
    let first = vm.new_java_lang_string_object("hi").unwrap();
    let second = vm.new_java_lang_string_object("hi").unwrap();
    assert_eq!(first, second);
    let other = vm.new_java_lang_string_object("ho").unwrap();
    assert_ne!(first, other);
    let array = vm.get_field_by_name(&first, "value").unwrap().get_array().unwrap();
    assert_eq!(vm.get_array_header(&array).unwrap().array_size, 2);
    assert_eq!(vm.array_get(&array, 0), Ok(Value::Int(0x0068)));
    assert_eq!(vm.array_get(&array, 1), Ok(Value::Int(0x0069)));
    assert_eq!(vm.get_field_by_name(&first, "hash"), Ok(Value::Int(0)));
    assert_eq!(vm.get_string(&Value::ObjectRef(first)).unwrap(), "hi");
}

#[test]
fn strings_beyond_the_basic_plane_take_two_units() {
    let (mut vm, _stack) = machine(vec![]);
    let object = vm.new_java_lang_string_object("a\u{10401}").unwrap();
    let array = vm.get_field_by_name(&object, "value").unwrap().get_array().unwrap();
    assert_eq!(vm.get_array_header(&array).unwrap().array_size, 3);
    assert_eq!(vm.array_get(&array, 1), Ok(Value::Int(0xD801)));
    assert_eq!(vm.array_get(&array, 2), Ok(Value::Int(0xDC01)));
    assert_eq!(vm.get_string(&Value::ObjectRef(object)).unwrap(), "a\u{10401}");
}

#[test]
fn interns_class_mirrors() {
    let (mut vm, _stack) = machine(vec![]);
    let first = vm.new_java_lang_class_object("java/lang/Object").unwrap();
    let second = vm.new_java_lang_class_object("java/lang/Object").unwrap();
    assert_eq!(first, second);
    assert_ne!(first, vm.new_java_lang_class_object("java/lang/String").unwrap());
    let name = vm.get_field_by_name(&first, "name").unwrap();
    assert_eq!(vm.get_string(&name).unwrap(), "java/lang/Object");
}

fn null_call() -> Vec<(String, Vec<u8>)> {
    let mut w = ClassWriter::new();
    let id = w.method_ref("Base", "id", "()I");
    let mut body = code(1, 0, &[0x01, 0xb6, hi(id), lo(id), 0xac]);
    body.lines = vec![(0, 10), (1, 11), (4, 12)];
    w.method(PUBLIC | STATIC, "run", "()I", Some(body));
    let mut classes = base_and_derived();
    classes.push(("Test".to_string(), w.finish(PUBLIC | SUPER, "Test", Some("java/lang/Object"), &[], Some("Test.java"))));
    classes
}

#[test]
fn a_call_on_null_throws_and_leaves_a_trace() {
    let (mut vm, mut stack) = machine(null_call());
    let result = run_static(&mut vm, &mut stack, "Test", "run", "()I", vec![]);
    assert_eq!(thrown_class(&vm, result), "java/lang/NullPointerException");
    assert_eq!(stack.trace.len(), 1);
    assert_eq!(stack.trace[0].describe(), "\tTest.run(Test.java:11)");
}

#[test]
fn field_access_on_null_throws() {
    let mut w = ClassWriter::new();
    let hash = w.field_ref("java/lang/String", "hash", "I");
    w.method(PUBLIC | STATIC, "run", "()I", Some(code(1, 0, &[0x01, 0xb4, hi(hash), lo(hash), 0xac])));
    let class = ("Test".to_string(), w.finish(PUBLIC | SUPER, "Test", Some("java/lang/Object"), &[], None));
    let (mut vm, mut stack) = machine(vec![class]);
    let result = run_static(&mut vm, &mut stack, "Test", "run", "()I", vec![]);
    assert_eq!(thrown_class(&vm, result), "java/lang/NullPointerException");
}

#[test]
fn array_length_of_null_throws() {
    let (mut vm, mut stack) = machine(vec![test_class("()I", code(1, 0, &[0x01, 0xbe, 0xac]))]);
    let result = run_static(&mut vm, &mut stack, "Test", "run", "()I", vec![]);
    assert_eq!(thrown_class(&vm, result), "java/lang/NullPointerException");
}

#[test]
fn array_load_from_null_throws() {
    // aconst_null; iconst_0; aaload; areturn
    let (mut vm, mut stack) = machine(vec![test_class("()Ljava/lang/Object;", code(2, 0, &[0x01, 0x03, 0x32, 0xb0]))]);
    let result = run_static(&mut vm, &mut stack, "Test", "run", "()Ljava/lang/Object;", vec![]);
    assert_eq!(thrown_class(&vm, result), "java/lang/NullPointerException");
}

#[test]
fn array_index_outside_the_array_throws() {
    // iconst_1; newarray int; iconst_1; iaload; ireturn
    let (mut vm, mut stack) = machine(vec![test_class("()I", code(2, 0, &[0x04, 0xbc, 10, 0x04, 0x2e, 0xac]))]);
    let result = run_static(&mut vm, &mut stack, "Test", "run", "()I", vec![]);
    assert_eq!(thrown_class(&vm, result), "java/lang/ArrayIndexOutOfBoundsException");
}

#[test]
fn negative_array_length_throws() {
    // iconst_m1; newarray int; areturn
    let (mut vm, mut stack) = machine(vec![test_class("()[I", code(1, 0, &[0x02, 0xbc, 10, 0xb0]))]);
    let result = run_static(&mut vm, &mut stack, "Test", "run", "()[I", vec![]);
    assert_eq!(thrown_class(&vm, result), "java/lang/NegativeArraySizeException");
}

#[test]
fn pop_from_an_empty_operand_stack_fails() {
    // pop; return
    let (mut vm, mut stack) = machine(vec![test_class("()V", code(1, 0, &[0x57, 0xb1]))]);
    let result = run_static(&mut vm, &mut stack, "Test", "run", "()V", vec![]);
    assert!(matches!(result, Err(MethodCallError::InternalError(VmError::PopFromEmptyStack))));
}

#[test]
fn push_to_a_full_operand_stack_fails() {
    // iconst_1; iconst_2; return, with room for one value
    let (mut vm, mut stack) = machine(vec![test_class("()V", code(1, 0, &[0x04, 0x05, 0xb1]))]);
    let result = run_static(&mut vm, &mut stack, "Test", "run", "()V", vec![]);
    assert!(matches!(result, Err(MethodCallError::InternalError(VmError::StackOverFlow))));
}

#[test]
fn the_host_computes_floating_point_operations() {
    // fload_0; fload_1; fadd; freturn
    let (mut vm, mut stack) = machine(vec![test_class("(FF)F", code(2, 2, &[0x22, 0x23, 0x62, 0xae]))]);
    let a = 1.5f32;
    let b = 2.25f32;
    let result = run_static(
        &mut vm,
        &mut stack,
        "Test",
        "run",
        "(FF)F",
        vec![Value::Float(a.to_bits()), Value::Float(b.to_bits())],
    );
    let request = match result {
        Err(MethodCallError::FloatNeeded(request)) => request,
        other => panic!("no request: {:?}", other),
    };
    assert_eq!(request.op, FloatOp::Fadd);
    assert_eq!(request.first, a.to_bits() as u64);
    assert_eq!(request.second, b.to_bits() as u64);
    assert!(matches!(stack.frames[0].pending, Pending::Float(_)));
    // Asking again without an answer repeats the request.
    assert!(matches!(vm.resume(&mut stack, STEPS), Err(MethodCallError::FloatNeeded(_))));
    vm.provide_float(&mut stack, (a + b).to_bits() as u64).unwrap();
    let result = vm.resume(&mut stack, STEPS);
    assert_eq!(result.unwrap(), Some(Value::Float((a + b).to_bits())));
    assert_eq!(vm.provide_float(&mut stack, 0), Err(VmError::ValueTypeMissMatch));
}

#[test]
fn a_division_of_zero_by_zero_is_nan_without_the_host() {
    // fconst_0; fconst_0; fdiv; freturn
    let (mut vm, mut stack) = machine(vec![test_class("()F", code(2, 0, &[0x0b, 0x0b, 0x6e, 0xae]))]);
    let result = run_static(&mut vm, &mut stack, "Test", "run", "()F", vec![]).unwrap();
    match result {
        Some(Value::Float(bits)) => assert!(f32::from_bits(bits).is_nan()),
        other => panic!("not a float: {:?}", other),
    }
}

#[test]
fn comparisons_with_nan() {
    // fload_0; fload_1; fcmpg; ireturn  and  fload_0; fload_1; fcmpl; ireturn
    for (opcode, expected) in [(0x96u8, 1), (0x95u8, -1)] {
        let (mut vm, mut stack) = machine(vec![test_class("(FF)I", code(2, 2, &[0x22, 0x23, opcode, 0xac]))]);
        let args = vec![Value::Float(f32::NAN.to_bits()), Value::Float(1.0f32.to_bits())];
        let result = run_static(&mut vm, &mut stack, "Test", "run", "(FF)I", args);
        assert_eq!(result.unwrap(), Some(Value::Int(expected)));
    }
}

#[test]
fn comparisons_of_floating_point_values() {
    let cases: [(f32, f32, i32); 6] =
        [(1.0, 2.0, -1), (2.0, 1.0, 1), (1.0, 1.0, 0), (-1.0, 1.0, -1), (-0.0, 0.0, 0), (-2.0, -3.0, 1)];
    for (a, b, expected) in cases {
        let (mut vm, mut stack) = machine(vec![test_class("(FF)I", code(2, 2, &[0x22, 0x23, 0x96, 0xac]))]);
        let args = vec![Value::Float(a.to_bits()), Value::Float(b.to_bits())];
        let result = run_static(&mut vm, &mut stack, "Test", "run", "(FF)I", args);
        assert_eq!(result.unwrap(), Some(Value::Int(expected)), "{} and {}", a, b);
    }
    let doubles: [(f64, f64, i32); 4] = [(1.0, 2.0, -1), (2.5, -1.0, 1), (3.0, 3.0, 0), (f64::NAN, 0.0, -1)];
    for (a, b, expected) in doubles {
        // dload_0; dload_2; dcmpl; ireturn
        let (mut vm, mut stack) = machine(vec![test_class("(DD)I", code(2, 4, &[0x26, 0x28, 0x97, 0xac]))]);
        let args = vec![Value::Double(a.to_bits()), Value::Double(b.to_bits())];
        let result = run_static(&mut vm, &mut stack, "Test", "run", "(DD)I", args);
        assert_eq!(result.unwrap(), Some(Value::Int(expected)), "{} and {}", a, b);
    }
}

fn run_ints(bytes: &[u8], args: Vec<Value>, descriptor: &str, locals: u16) -> Result<Option<Value>, MethodCallError> {
    let (mut vm, mut stack) = machine(vec![test_class(descriptor, code(4, locals, bytes))]);
    run_static(&mut vm, &mut stack, "Test", "run", descriptor, args)
}

#[test]
fn integer_arithmetic() {
    let binary = |opcode: u8, a: i32, b: i32| {
        run_ints(&[0x1a, 0x1b, opcode, 0xac], vec![Value::Int(a), Value::Int(b)], "(II)I", 2).unwrap()
    };
    assert_eq!(binary(0x60, i32::MAX, 1), Some(Value::Int(i32::MIN)));
    assert_eq!(binary(0x64, 5, 7), Some(Value::Int(-2)));
    assert_eq!(binary(0x68, 1 << 20, 1 << 12), Some(Value::Int(0)));
    assert_eq!(binary(0x6c, -7, 2), Some(Value::Int(-3)));
    assert_eq!(binary(0x6c, 7, -2), Some(Value::Int(-3)));
    assert_eq!(binary(0x6c, i32::MIN, -1), Some(Value::Int(i32::MIN)));
    assert_eq!(binary(0x70, -7, 2), Some(Value::Int(-1)));
    assert_eq!(binary(0x70, 7, -2), Some(Value::Int(1)));
    assert_eq!(binary(0x7e, 0b1100, 0b1010), Some(Value::Int(0b1000)));
    assert_eq!(binary(0x80, 0b1100, 0b1010), Some(Value::Int(0b1110)));
    assert_eq!(binary(0x82, 0b1100, 0b1010), Some(Value::Int(0b0110)));
    assert_eq!(binary(0x78, 1, 33), Some(Value::Int(2)));
    assert_eq!(binary(0x7a, -8, 1), Some(Value::Int(-4)));
    assert_eq!(binary(0x7c, -8, 1), Some(Value::Int(0x7fff_fffc)));
    assert_eq!(binary(0x7c, 8, 1), Some(Value::Int(4)));
    // ineg, i2b, i2c, i2s
    let unary = |opcode: u8, a: i32| run_ints(&[0x1a, opcode, 0xac], vec![Value::Int(a)], "(I)I", 1).unwrap();
    assert_eq!(unary(0x74, 5), Some(Value::Int(-5)));
    assert_eq!(unary(0x74, i32::MIN), Some(Value::Int(i32::MIN)));
    assert_eq!(unary(0x91, 0x1ff), Some(Value::Int(-1)));
    assert_eq!(unary(0x92, -1), Some(Value::Int(0xffff)));
    assert_eq!(unary(0x93, 0x18000), Some(Value::Int(-32768)));
}

#[test]
fn long_arithmetic() {
    // lload_0; lload_2; op; lreturn
    let binary = |opcode: u8, a: i64, b: i64| {
        run_ints(&[0x1e, 0x20, opcode, 0xad], vec![Value::Long(a), Value::Long(b)], "(JJ)J", 4).unwrap()
    };
    assert_eq!(binary(0x61, i64::MAX, 1), Some(Value::Long(i64::MIN)));
    assert_eq!(binary(0x65, 5, 7), Some(Value::Long(-2)));
    assert_eq!(binary(0x69, 1 << 40, 1 << 30), Some(Value::Long(0)));
    assert_eq!(binary(0x6d, -7, 2), Some(Value::Long(-3)));
    assert_eq!(binary(0x6d, i64::MIN, -1), Some(Value::Long(i64::MIN)));
    assert_eq!(binary(0x71, -7, 2), Some(Value::Long(-1)));
    assert_eq!(binary(0x81, 0b1100, 0b1010), Some(Value::Long(0b1110)));
    // lload_0; iload_2; lshl / lushr; lreturn
    let shift = |opcode: u8, a: i64, b: i32| {
        run_ints(&[0x1e, 0x1c, opcode, 0xad], vec![Value::Long(a), Value::Int(b)], "(JI)J", 3).unwrap()
    };
    assert_eq!(shift(0x79, 1, 65), Some(Value::Long(2)));
    assert_eq!(shift(0x79, 1, 40), Some(Value::Long(1 << 40)));
    assert_eq!(shift(0x7d, -1, 60), Some(Value::Long(15)));
    assert_eq!(shift(0x7b, -16, 2), Some(Value::Long(-4)));
    // lload_0; lload_2; lcmp; ireturn
    let compare = |a: i64, b: i64| {
        run_ints(&[0x1e, 0x20, 0x94, 0xac], vec![Value::Long(a), Value::Long(b)], "(JJ)I", 4).unwrap()
    };
    assert_eq!(compare(1, 2), Some(Value::Int(-1)));
    assert_eq!(compare(2, 2), Some(Value::Int(0)));
    assert_eq!(compare(3, 2), Some(Value::Int(1)));
    // i2l, l2i
    assert_eq!(run_ints(&[0x1a, 0x85, 0xad], vec![Value::Int(-1)], "(I)J", 1).unwrap(), Some(Value::Long(-1)));
    assert_eq!(
        run_ints(&[0x1e, 0x88, 0xac], vec![Value::Long(0x1_0000_0005)], "(J)I", 2).unwrap(),
        Some(Value::Int(5))
    );
}

#[test]
fn constants_and_branches() {
    // bipush -3; ireturn
    assert_eq!(run_ints(&[0x10, 0xfd, 0xac], vec![], "()I", 0).unwrap(), Some(Value::Int(-3)));
    // sipush -300; ireturn
    assert_eq!(run_ints(&[0x11, 0xfe, 0xd4, 0xac], vec![], "()I", 0).unwrap(), Some(Value::Int(-300)));
    // iload_0; ifeq +5; iconst_1; ireturn; iconst_2; ireturn
    let branch = |a: i32| run_ints(&[0x1a, 0x99, 0, 5, 0x04, 0xac, 0x05, 0xac], vec![Value::Int(a)], "(I)I", 1).unwrap();
    assert_eq!(branch(0), Some(Value::Int(2)));
    assert_eq!(branch(9), Some(Value::Int(1)));
    // a loop: sum of 1 to n
    // iconst_0; istore_1; iload_0; ifle +13; iload_1; iload_0; iadd; istore_1; iinc 0 -1; goto -11; iload_1; ireturn
    let sum = [0x03, 0x3c, 0x1a, 0x9e, 0, 13, 0x1b, 0x1a, 0x60, 0x3c, 0x84, 0, 0xff, 0xa7, 0xff, 0xf5, 0x1b, 0xac];
    assert_eq!(run_ints(&sum, vec![Value::Int(10)], "(I)I", 2).unwrap(), Some(Value::Int(55)));
    // a jump out of the code
    let result = run_ints(&[0xa7, 0x7f, 0xff], vec![], "()V", 0);
    assert!(matches!(result, Err(MethodCallError::InternalError(VmError::IndexOutOfBounds))));
}

#[test]
fn switches() {
    // iload_0; tableswitch (at 1, two bytes of padding) default +27, low 1, high 2, offsets +23, +25;
    // 24: iconst_1; ireturn; 26: iconst_2; ireturn; 28: iconst_0; ireturn
    let mut table = vec![0x1a, 0xaa, 0, 0];
    for word in [27i32, 1, 2, 23, 25] {
        table.extend_from_slice(&word.to_be_bytes());
    }
    table.extend_from_slice(&[0x04, 0xac, 0x05, 0xac, 0x03, 0xac]);
    let run = |a: i32| run_ints(&table, vec![Value::Int(a)], "(I)I", 1).unwrap();
    assert_eq!(run(1), Some(Value::Int(1)));
    assert_eq!(run(2), Some(Value::Int(2)));
    assert_eq!(run(3), Some(Value::Int(0)));
    assert_eq!(run(-5), Some(Value::Int(0)));
    // iload_0; lookupswitch default +31, 2 pairs: 10 -> +27, 1000 -> +29
    let mut lookup = vec![0x1a, 0xab, 0, 0];
    for word in [31i32, 2, 10, 27, 1000, 29] {
        lookup.extend_from_slice(&word.to_be_bytes());
    }
    lookup.extend_from_slice(&[0x04, 0xac, 0x05, 0xac, 0x03, 0xac]);
    let run = |a: i32| run_ints(&lookup, vec![Value::Int(a)], "(I)I", 1).unwrap();
    assert_eq!(run(10), Some(Value::Int(1)));
    assert_eq!(run(1000), Some(Value::Int(2)));
    assert_eq!(run(11), Some(Value::Int(0)));
}

#[test]
fn stack_instructions() {
    // iconst_1; iconst_2; swap; isub; ireturn  -> 2 - 1
    assert_eq!(run_ints(&[0x04, 0x05, 0x5f, 0x64, 0xac], vec![], "()I", 0).unwrap(), Some(Value::Int(1)));
    // iconst_3; dup; imul; ireturn
    assert_eq!(run_ints(&[0x06, 0x59, 0x68, 0xac], vec![], "()I", 0).unwrap(), Some(Value::Int(9)));
    // iconst_1; iconst_2; dup_x1; pop; isub; ireturn -> stack 2 1 2 -> 2 1 -> 2 - 1
    assert_eq!(run_ints(&[0x04, 0x05, 0x5a, 0x57, 0x64, 0xac], vec![], "()I", 0).unwrap(), Some(Value::Int(1)));
    // lconst_1; dup2; ladd; lreturn: dup2 copies one wide value
    assert_eq!(run_ints(&[0x0a, 0x5c, 0x61, 0xad], vec![], "()J", 0).unwrap(), Some(Value::Long(2)));
    // iconst_1; iconst_2; dup2; iadd; iadd; iadd; ireturn
    assert_eq!(
        run_ints(&[0x04, 0x05, 0x5c, 0x60, 0x60, 0x60, 0xac], vec![], "()I", 0).unwrap(),
        Some(Value::Int(6))
    );
    // lconst_1; pop2; iconst_5; ireturn
    assert_eq!(run_ints(&[0x0a, 0x58, 0x08, 0xac], vec![], "()I", 0).unwrap(), Some(Value::Int(5)));
    // iconst_1; iconst_2; pop2; iconst_4; ireturn
    assert_eq!(run_ints(&[0x04, 0x05, 0x58, 0x07, 0xac], vec![], "()I", 0).unwrap(), Some(Value::Int(4)));
}

#[test]
fn wide_values_take_two_local_variables() {
    // lload_1 reads the placeholder of the long in variables 0 and 1
    let result = run_ints(&[0x1f, 0xad], vec![Value::Long(5), Value::Long(6)], "(JJ)J", 4);
    assert!(matches!(result, Err(MethodCallError::InternalError(VmError::InvalidOffset(1)))));
    // lload_2 reads the second argument
    assert_eq!(
        run_ints(&[0x20, 0xad], vec![Value::Long(5), Value::Long(6)], "(JJ)J", 4).unwrap(),
        Some(Value::Long(6))
    );
    // iload_0 of a long variable is a type mismatch
    let result = run_ints(&[0x1a, 0xac], vec![Value::Long(5)], "(J)I", 2);
    assert!(matches!(result, Err(MethodCallError::InternalError(VmError::ValueTypeMissMatch))));
    // more arguments than local variables
    let result = run_ints(&[0xb1], vec![Value::Long(5)], "(J)V", 1);
    assert!(matches!(result, Err(MethodCallError::InternalError(VmError::IndexOutOfBounds))));
}

#[test]
fn a_run_out_of_steps_can_be_resumed() {
    // goto 0
    let (mut vm, mut stack) = machine(vec![test_class("()V", code(0, 0, &[0xa7, 0, 0]))]);
    let class = vm.lookup_class_and_initialize(&mut stack, "Test", STEPS).unwrap();
    let method = vm.method_area.get(class).unwrap().get_method("run", "()V").unwrap();
    let result = vm.invoke_method(&mut stack, class, method, None, vec![], 10);
    assert!(matches!(result, Err(MethodCallError::OutOfSteps)));
    assert_eq!(stack.depth(), 1);
    assert!(matches!(vm.resume(&mut stack, 10), Err(MethodCallError::OutOfSteps)));
}

#[test]
fn an_unknown_class_is_not_found() {
    let (mut vm, mut stack) = machine(vec![]);
    let result = vm.lookup_class_and_initialize(&mut stack, "Missing", STEPS);
    match result {
        Err(MethodCallError::InternalError(VmError::ClassNotFoundException(name))) => assert_eq!(name, "Missing"),
        other => panic!("found: {:?}", other),
    }
    let mut empty = VirtualMachine::new(1024);
    let mut stack = empty.allocate_call_stack();
    assert!(matches!(
        empty.lookup_class_and_initialize(&mut stack, "java/lang/Object", STEPS),
        Err(MethodCallError::InternalError(VmError::ClassNotFoundException(_)))
    ));
}

#[test]
fn fields_are_laid_out_behind_those_of_the_super_class() {
    let mut a = ClassWriter::new();
    a.field(PUBLIC, "a", "I", None);
    a.field(PUBLIC | STATIC, "s", "I", None);
    a.field(PUBLIC, "b", "J", None);
    let mut b = ClassWriter::new();
    b.field(PUBLIC, "c", "I", None);
    b.field(PUBLIC | STATIC, "t", "I", None);
    b.field(PUBLIC, "d", "Ljava/lang/Object;", None);
    let classes = vec![
        ("A".to_string(), a.finish(PUBLIC | SUPER, "A", Some("java/lang/Object"), &[], None)),
        ("B".to_string(), b.finish(PUBLIC | SUPER, "B", Some("A"), &[], None)),
    ];
    let (mut vm, _stack) = machine(classes);
    let b = vm.method_area.load_class("B").unwrap();
    let a = vm.method_area.find_loaded("A").unwrap();
    let class_a = vm.method_area.get(a).unwrap();
    assert_eq!(class_a.total_num_of_fields, 2);
    let offsets: Vec<usize> = class_a.fields.iter().map(|f| f.offset).collect();
    assert_eq!(offsets, vec![1, 0, 2]);
    let class_b = vm.method_area.get(b).unwrap();
    assert_eq!(class_b.total_num_of_fields, 4);
    let offsets: Vec<usize> = class_b.fields.iter().map(|f| f.offset).collect();
    assert_eq!(offsets, vec![3, 0, 4]);
    assert_eq!(class_b.super_class, Some(a));
    assert_eq!(class_b.status, ClassStatus::Loaded);
    // the same name gives the same handle
    assert_eq!(vm.method_area.load_class("B").unwrap(), b);
    assert_eq!(vm.method_area.num_of_classes(), 3);
}

#[test]
fn objects_keep_their_fields() {
    let mut a = ClassWriter::new();
    a.field(PUBLIC, "a", "I", None);
    a.field(PUBLIC, "b", "J", None);
    a.field(PUBLIC, "flag", "Z", None);
    a.field(PUBLIC, "small", "B", None);
    a.field(PUBLIC, "letter", "C", None);
    a.field(PUBLIC, "other", "Ljava/lang/Object;", None);
    a.field(PUBLIC, "numbers", "[I", None);
    a.field(PUBLIC, "text", "Ljava/lang/String;", None);
    let classes = vec![("A".to_string(), a.finish(PUBLIC | SUPER, "A", Some("java/lang/Object"), &[], None))];
    let (mut vm, _stack) = machine(classes);
    let class = vm.linked_class("A").unwrap();
    let object = vm.new_object(class).unwrap();
    assert_eq!(vm.get_class_of(&object), Ok(class));
    assert_eq!(vm.get_field_by_name(&object, "a"), Ok(Value::Int(0)));
    assert_eq!(vm.get_field_by_name(&object, "other"), Ok(Value::Null));
    vm.set_field_by_name(&object, "a", &Value::Int(-2)).unwrap();
    vm.set_field_by_name(&object, "b", &Value::Long(-3)).unwrap();
    vm.set_field_by_name(&object, "flag", &Value::Int(3)).unwrap();
    vm.set_field_by_name(&object, "small", &Value::Int(0x1ff)).unwrap();
    vm.set_field_by_name(&object, "letter", &Value::Int(-1)).unwrap();
    let array = vm.new_array(&ArrayElement::PrimaryValue(PrimaryType::Int), 1).unwrap();
    vm.set_field_by_name(&object, "other", &Value::ArrayRef(array)).unwrap();
    vm.set_field_by_name(&object, "numbers", &Value::ArrayRef(array)).unwrap();
    assert_eq!(vm.get_field_by_name(&object, "a"), Ok(Value::Int(-2)));
    assert_eq!(vm.get_field_by_name(&object, "b"), Ok(Value::Long(-3)));
    assert_eq!(vm.get_field_by_name(&object, "flag"), Ok(Value::Int(1)));
    assert_eq!(vm.get_field_by_name(&object, "small"), Ok(Value::Int(-1)));
    assert_eq!(vm.get_field_by_name(&object, "letter"), Ok(Value::Int(0xffff)));
    assert_eq!(vm.get_field_by_name(&object, "other"), Ok(Value::ArrayRef(array)));
    assert_eq!(vm.get_field_by_name(&object, "numbers"), Ok(Value::ArrayRef(array)));
    assert_eq!(vm.set_field_by_name(&object, "text", &Value::ArrayRef(array)), Err(VmError::ValueTypeMissMatch));
    assert_eq!(vm.set_field_by_name(&object, "numbers", &Value::ObjectRef(object)), Err(VmError::ValueTypeMissMatch));
    assert_eq!(vm.set_field_by_name(&object, "a", &Value::Long(1)), Err(VmError::ValueTypeMissMatch));
    assert_eq!(
        vm.get_field_by_name(&object, "missing"),
        Err(VmError::FieldNotFoundException("missing".to_string()))
    );
    let other = vm.new_object(class).unwrap();
    assert_ne!(object, other);
    assert_eq!(vm.get_field_by_name(&other, "a"), Ok(Value::Int(0)));
    assert_ne!(object.hash_code(), other.hash_code());
}

#[test]
fn a_class_that_is_not_linked_is_not_used() {
    let (mut vm, mut stack) = machine(vec![]);
    let class = vm.method_area.load_class("java/lang/Object").unwrap();
    assert!(matches!(vm.new_object(class), Err(VmError::NoClassDefFoundError(_))));
    assert!(vm.set_static(class, "x", Value::Int(1)).is_err());
    let result = vm.invoke_method(&mut stack, class, 0, None, vec![], STEPS);
    assert!(matches!(result, Err(MethodCallError::InternalError(VmError::NoClassDefFoundError(_)))));
    assert!(matches!(vm.new_object(99), Err(VmError::ClassFormatError)));
}

#[test]
fn the_heap_runs_out_of_memory() {
    let mut vm = VirtualMachine::new(64);
    vm.add_class_path(Box::new(MemoryClassPath { classes: library() }));
    let element = ArrayElement::PrimaryValue(PrimaryType::Long);
    assert!(vm.new_array(&element, 5).is_ok());
    assert_eq!(vm.new_array(&element, 1), Err(VmError::OutOfMemory));
    let class = vm.linked_class("java/lang/Object").unwrap();
    assert_eq!(vm.new_object(class), Err(VmError::OutOfMemory));
}

#[test]
fn instance_tests_and_casts() {
    let mut w = ClassWriter::new();
    let derived = w.class("Derived");
    let base = w.class("Base");
    let string = w.class("java/lang/String");
    let init = w.method_ref("Derived", "<init>", "()V");
    let make = [0xbb, hi(derived), lo(derived), 0x59, 0xb7, hi(init), lo(init)];
    let mut is_base = make.to_vec();
    is_base.extend_from_slice(&[0xc1, hi(base), lo(base), 0xac]);
    w.method(PUBLIC | STATIC, "isBase", "()I", Some(code(2, 0, &is_base)));
    let mut is_string = make.to_vec();
    is_string.extend_from_slice(&[0xc1, hi(string), lo(string), 0xac]);
    w.method(PUBLIC | STATIC, "isString", "()I", Some(code(2, 0, &is_string)));
    let mut cast_string = make.to_vec();
    cast_string.extend_from_slice(&[0xc0, hi(string), lo(string), 0xb0]);
    w.method(PUBLIC | STATIC, "castString", "()Ljava/lang/Object;", Some(code(2, 0, &cast_string)));
    let mut cast_base = make.to_vec();
    cast_base.extend_from_slice(&[0xc0, hi(base), lo(base), 0xb0]);
    w.method(PUBLIC | STATIC, "castBase", "()Ljava/lang/Object;", Some(code(2, 0, &cast_base)));
    w.method(
        PUBLIC | STATIC,
        "nullIsString",
        "()I",
        Some(code(1, 0, &[0x01, 0xc1, hi(string), lo(string), 0xac])),
    );
    w.method(
        PUBLIC | STATIC,
        "castNull",
        "()Ljava/lang/Object;",
        Some(code(1, 0, &[0x01, 0xc0, hi(string), lo(string), 0xb0])),
    );
    let mut classes = base_and_derived();
    classes.push(("Test".to_string(), w.finish(PUBLIC | SUPER, "Test", Some("java/lang/Object"), &[], None)));
    let (mut vm, mut stack) = machine(classes);
    assert_eq!(run_static(&mut vm, &mut stack, "Test", "isBase", "()I", vec![]).unwrap(), Some(Value::Int(1)));
    assert_eq!(run_static(&mut vm, &mut stack, "Test", "isString", "()I", vec![]).unwrap(), Some(Value::Int(0)));
    assert_eq!(run_static(&mut vm, &mut stack, "Test", "nullIsString", "()I", vec![]).unwrap(), Some(Value::Int(0)));
    let result = run_static(&mut vm, &mut stack, "Test", "castString", "()Ljava/lang/Object;", vec![]);
    assert_eq!(thrown_class(&vm, result), "java/lang/ClassCastException");
    let result = run_static(&mut vm, &mut stack, "Test", "castBase", "()Ljava/lang/Object;", vec![]).unwrap();
    assert_eq!(class_name_of(&vm, &result.unwrap()), "Derived");
    assert_eq!(
        run_static(&mut vm, &mut stack, "Test", "castNull", "()Ljava/lang/Object;", vec![]).unwrap(),
        Some(Value::Null)
    );
}

#[test]
fn thrown_objects_are_caught_further_down() {
    let mut w = ClassWriter::new();
    let throwable = w.class("java/lang/Throwable");
    let thrower = w.method_ref("Test", "thrower", "()V");
    // new Throwable; athrow
    w.method(PUBLIC | STATIC, "thrower", "()V", Some(code(1, 0, &[0xbb, hi(throwable), lo(throwable), 0xbf])));
    // invokestatic thrower; iconst_1; ireturn; handler: pop; iconst_5; ireturn
    let mut body = code(1, 0, &[0xb8, hi(thrower), lo(thrower), 0x04, 0xac, 0x57, 0x08, 0xac]);
    body.handlers.push((0, 3, 5, throwable));
    w.method(PUBLIC | STATIC, "run", "()I", Some(body));
    let class = ("Test".to_string(), w.finish(PUBLIC | SUPER, "Test", Some("java/lang/Object"), &[], None));
    let (mut vm, mut stack) = machine(vec![class]);
    assert_eq!(run_static(&mut vm, &mut stack, "Test", "run", "()I", vec![]).unwrap(), Some(Value::Int(5)));
    let result = run_static(&mut vm, &mut stack, "Test", "thrower", "()V", vec![]);
    assert_eq!(thrown_class(&vm, result), "java/lang/Throwable");
}

#[test]
fn loads_constants_from_the_pool() {
    let mut w = ClassWriter::new();
    let number = w.integer(123456);
    let single = w.single(50.0);
    let wide = w.long_integer(1 << 40);
    let double = w.double_float(100.0);
    let text = w.text("hey");
    let mirror = w.class("java/lang/String");
    w.method(PUBLIC | STATIC, "number", "()I", Some(code(1, 0, &[0x12, lo(number), 0xac])));
    w.method(PUBLIC | STATIC, "single", "()F", Some(code(1, 0, &[0x13, hi(single), lo(single), 0xae])));
    w.method(PUBLIC | STATIC, "wide", "()J", Some(code(1, 0, &[0x14, hi(wide), lo(wide), 0xad])));
    w.method(PUBLIC | STATIC, "double", "()D", Some(code(1, 0, &[0x14, hi(double), lo(double), 0xaf])));
    w.method(PUBLIC | STATIC, "text", "()Ljava/lang/String;", Some(code(1, 0, &[0x12, lo(text), 0xb0])));
    w.method(PUBLIC | STATIC, "mirror", "()Ljava/lang/Class;", Some(code(1, 0, &[0x12, lo(mirror), 0xb0])));
    w.method(PUBLIC | STATIC, "wrong", "()J", Some(code(1, 0, &[0x14, hi(number), lo(number), 0xad])));
    w.method(PUBLIC | STATIC, "placeholder", "()J", Some(code(1, 0, &[0x14, hi(wide + 1), lo(wide + 1), 0xad])));
    let class = ("Test".to_string(), w.finish(PUBLIC | SUPER, "Test", Some("java/lang/Object"), &[], None));
    let (mut vm, mut stack) = machine(vec![class]);
    assert_eq!(run_static(&mut vm, &mut stack, "Test", "number", "()I", vec![]).unwrap(), Some(Value::Int(123456)));
    assert_eq!(
        run_static(&mut vm, &mut stack, "Test", "single", "()F", vec![]).unwrap(),
        Some(Value::Float(50.0f32.to_bits()))
    );
    assert_eq!(run_static(&mut vm, &mut stack, "Test", "wide", "()J", vec![]).unwrap(), Some(Value::Long(1 << 40)));
    assert_eq!(
        run_static(&mut vm, &mut stack, "Test", "double", "()D", vec![]).unwrap(),
        Some(Value::Double(100.0f64.to_bits()))
    );
    let text = run_static(&mut vm, &mut stack, "Test", "text", "()Ljava/lang/String;", vec![]).unwrap().unwrap();
    assert_eq!(vm.get_string(&text).unwrap(), "hey");
    assert_eq!(Value::ObjectRef(vm.new_java_lang_string_object("hey").unwrap()), text);
    let mirror = run_static(&mut vm, &mut stack, "Test", "mirror", "()Ljava/lang/Class;", vec![]).unwrap().unwrap();
    assert_eq!(Value::ObjectRef(vm.new_java_lang_class_object("java/lang/String").unwrap()), mirror);
    let result = run_static(&mut vm, &mut stack, "Test", "wrong", "()J", vec![]);
    assert!(matches!(result, Err(MethodCallError::InternalError(VmError::ValueTypeMissMatch))));
    let result = run_static(&mut vm, &mut stack, "Test", "placeholder", "()J", vec![]);
    assert!(matches!(result, Err(MethodCallError::InternalError(VmError::ReadClassBytesError(_)))));
}

#[test]
fn native_methods_run_at_once() {
    let mut object = ClassWriter::new();
    object.method(PUBLIC, "<init>", "()V", Some(code(0, 1, &[0xb1])));
    object.method(PUBLIC | STATIC | NATIVE, "registerNatives", "()V", None);
    object.method(PUBLIC | STATIC | NATIVE, "unknown", "()V", None);
    let mut system = ClassWriter::new();
    system.method(
        PUBLIC | STATIC | NATIVE,
        "arraycopy",
        "(Ljava/lang/Object;ILjava/lang/Object;II)V",
        None,
    );
    let mut w = ClassWriter::new();
    let register = w.method_ref("java/lang/Object", "registerNatives", "()V");
    w.method(PUBLIC | STATIC, "run", "()I", Some(code(1, 0, &[0xb8, hi(register), lo(register), 0x08, 0xac])));
    let mut vm = VirtualMachine::new(102400);
    vm.add_class_path(Box::new(MemoryClassPath {
        classes: vec![
            ("java/lang/Object".to_string(), object.finish(PUBLIC | SUPER, "java/lang/Object", None, &[], None)),
            (
                "java/lang/System".to_string(),
                system.finish(PUBLIC | SUPER, "java/lang/System", Some("java/lang/Object"), &[], None),
            ),
            ("Test".to_string(), w.finish(PUBLIC | SUPER, "Test", Some("java/lang/Object"), &[], None)),
        ],
    }));
    let mut stack = vm.allocate_call_stack();
    assert_eq!(run_static(&mut vm, &mut stack, "Test", "run", "()I", vec![]).unwrap(), Some(Value::Int(5)));
    let result = run_static(&mut vm, &mut stack, "java/lang/Object", "unknown", "()V", vec![]);
    assert!(matches!(result, Err(MethodCallError::InternalError(VmError::NotImplemented))));
    let element = ArrayElement::PrimaryValue(PrimaryType::Int);
    let from = vm.new_array(&element, 4).unwrap();
    let to = vm.new_array(&element, 4).unwrap();
    for i in 0..4 {
        vm.array_set(&from, i, &Value::Int(i as i32 + 1)).unwrap();
    }
    let args =
        vec![Value::ArrayRef(from), Value::Int(1), Value::ArrayRef(to), Value::Int(0), Value::Int(3)];
    let descriptor = "(Ljava/lang/Object;ILjava/lang/Object;II)V";
    assert_eq!(run_static(&mut vm, &mut stack, "java/lang/System", "arraycopy", descriptor, args).unwrap(), None);
    let copied: Vec<Value> = (0..4).map(|i| vm.array_get(&to, i).unwrap()).collect();
    assert_eq!(copied, vec![Value::Int(2), Value::Int(3), Value::Int(4), Value::Int(0)]);
}

#[test]
fn interfaces_are_searched_for_methods() {
    let mut shape = ClassWriter::new();
    shape.method(PUBLIC, "sides", "()I", Some(code(1, 1, &[0x07, 0xac])));
    let mut square = ClassWriter::new();
    let object_init = square.method_ref("java/lang/Object", "<init>", "()V");
    square.method(PUBLIC, "<init>", "()V", Some(code(1, 1, &[0x2a, 0xb7, hi(object_init), lo(object_init), 0xb1])));
    let mut w = ClassWriter::new();
    let class = w.class("Square");
    let init = w.method_ref("Square", "<init>", "()V");
    let sides = w.interface_method_ref("Shape", "sides", "()I");
    w.method(
        PUBLIC | STATIC,
        "run",
        "()I",
        Some(code(
            2,
            0,
            &[0xbb, hi(class), lo(class), 0x59, 0xb7, hi(init), lo(init), 0xb9, hi(sides), lo(sides), 1, 0, 0xac],
        )),
    );
    let classes = vec![
        ("Shape".to_string(), shape.finish(PUBLIC | INTERFACE, "Shape", Some("java/lang/Object"), &[], None)),
        ("Square".to_string(), square.finish(PUBLIC | SUPER, "Square", Some("java/lang/Object"), &["Shape"], None)),
        ("Test".to_string(), w.finish(PUBLIC | SUPER, "Test", Some("java/lang/Object"), &[], None)),
    ];
    let (mut vm, mut stack) = machine(classes);
    assert_eq!(run_static(&mut vm, &mut stack, "Test", "run", "()I", vec![]).unwrap(), Some(Value::Int(4)));
    let square = vm.method_area.find_loaded("Square").unwrap();
    let shape = vm.method_area.find_loaded("Shape").unwrap();
    assert_eq!(vm.method_area.get_method_by_checking_super(square, "sides", "()I"), Ok((shape, 0)));
    assert!(vm.method_area.is_subclass_of(square, "Shape"));
    assert!(vm.method_area.is_subclass_of(square, "java/lang/Object"));
    assert!(!vm.method_area.is_subclass_of(shape, "Square"));
    assert_eq!(
        vm.method_area.get_method_by_checking_super(square, "corners", "()I"),
        Err(VmError::MethodNotFoundException("corners".to_string(), "()I".to_string()))
    );
}

#[test]
fn arrays_of_arrays() {
    let mut w = ClassWriter::new();
    let grid = w.class("[[I");
    // iconst_2; iconst_3; multianewarray [[I 2; astore_0;
    // aload_0; iconst_1; aaload; iconst_2; bipush 9; iastore;
    // aload_0; iconst_1; aaload; iconst_2; iaload; aload_0; arraylength; iadd; aload_0; iconst_0; aaload; arraylength; iadd; ireturn
    let body = [
        0x05, 0x06, 0xc5, hi(grid), lo(grid), 2, 0x4b, 0x2a, 0x04, 0x32, 0x05, 0x10, 9, 0x4f, 0x2a, 0x04, 0x32, 0x05,
        0x2e, 0x2a, 0xbe, 0x60, 0x2a, 0x03, 0x32, 0xbe, 0x60, 0xac,
    ];
    w.method(PUBLIC | STATIC, "run", "()I", Some(code(4, 1, &body)));
    let class = ("Test".to_string(), w.finish(PUBLIC | SUPER, "Test", Some("java/lang/Object"), &[], None));
    let (mut vm, mut stack) = machine(vec![class]);
    assert_eq!(run_static(&mut vm, &mut stack, "Test", "run", "()I", vec![]).unwrap(), Some(Value::Int(14)));
}

#[test]
fn instance_methods_get_their_receiver_first() {
    let mut w = ClassWriter::new();
    // iload_1; lload_2; l2i; iadd; ireturn
    w.method(PUBLIC, "sum", "(IJ)I", Some(code(3, 4, &[0x1b, 0x20, 0x88, 0x60, 0xac])));
    let class = ("Adder".to_string(), w.finish(PUBLIC | SUPER, "Adder", Some("java/lang/Object"), &[], None));
    let (mut vm, mut stack) = machine(vec![class]);
    let class = vm.lookup_class_and_initialize(&mut stack, "Adder", STEPS).unwrap();
    let object = vm.new_object(class).unwrap();
    let method = vm.method_area.get(class).unwrap().get_method("sum", "(IJ)I").unwrap();
    let args = vec![Value::Int(3), Value::Long(4)];
    // Without steps the frame stands at its entry.
    let result = vm.invoke_method(&mut stack, class, method, Some(Value::ObjectRef(object)), args, 0);
    assert!(matches!(result, Err(MethodCallError::OutOfSteps)));
    let frame = &stack.frames[0];
    assert_eq!(frame.op_stack.len(), 0);
    let locals: Vec<String> = frame.local_var_table.iter().map(|l| format!("{:?}", l)).collect();
    assert_eq!(
        locals,
        vec![
            format!("Entry(ObjectRef({:?}))", object),
            "Entry(Int(3))".to_string(),
            "Entry(Long(4))".to_string(),
            "PlaceHolder".to_string(),
        ]
    );
    assert_eq!(vm.resume(&mut stack, STEPS).unwrap(), Some(Value::Int(7)));
}

fn field_test() -> (String, Vec<u8>) {
    let mut w = ClassWriter::new();
    let name = w.text("static");
    let an_int = w.field_ref("FieldTest", "anInt", "I");
    let field_double = w.field_ref("FieldTest", "fieldDouble", "D");
    let field_float = w.field_ref("FieldTest", "fieldFloat", "F");
    let object_init = w.method_ref("java/lang/Object", "<init>", "()V");
    let hundred = w.double_float(100.0);
    let fifty = w.single(50.0);
    w.field(PUBLIC | STATIC | 0x0010, "NAME", "Ljava/lang/String;", Some(name));
    w.field(PUBLIC | STATIC, "anInt", "I", None);
    w.field(PUBLIC, "a", "I", None);
    w.field(PUBLIC, "b", "Ljava/lang/Object;", None);
    w.field(PUBLIC, "fieldDouble", "D", None);
    w.field(PUBLIC, "fieldFloat", "F", None);
    w.method(STATIC, "<clinit>", "()V", Some(code(1, 0, &[0x05, 0xb3, hi(an_int), lo(an_int), 0xb1])));
    w.method(
        PUBLIC,
        "<init>",
        "()V",
        Some(code(
            3,
            1,
            &[
                0x2a,
                0xb7,
                hi(object_init),
                lo(object_init),
                0x2a,
                0x14,
                hi(hundred),
                lo(hundred),
                0xb5,
                hi(field_double),
                lo(field_double),
                0x2a,
                0x12,
                lo(fifty),
                0xb5,
                hi(field_float),
                lo(field_float),
                0xb1,
            ],
        )),
    );
    w.method(
        PUBLIC | STATIC,
        "increaseInt",
        "()V",
        Some(code(2, 0, &[0xb2, hi(an_int), lo(an_int), 0x04, 0x60, 0xb3, hi(an_int), lo(an_int), 0xb1])),
    );
    w.method(PUBLIC | STATIC, "main", "([Ljava/lang/String;)V", Some(code(0, 1, &[0xb1])));
    ("FieldTest".to_string(), w.finish(PUBLIC | SUPER, "FieldTest", Some("java/lang/Object"), &[], Some("FieldTest.java")))
}

#[test]
fn test_class_load() {
    let mut area = MethodArea::new();
    let mut classes = library();
    classes.push(field_test());
    classes.push(plain_class("java/lang/System", "java/lang/Object"));
    area.add_class_path(Box::new(MemoryClassPath { classes }));
    let result = area.load_class("FieldTest").unwrap();
    assert!(matches!(area.get(result).unwrap().status, ClassStatus::Loaded));
    assert_eq!(2, area.num_of_classes());
    let main_method = area.get_method_by_checking_super(result, "main", "([Ljava/lang/String;)V").unwrap();
    assert_eq!(area.get(main_method.0).unwrap().methods[main_method.1].name, "main");
    let option = area.get(result);
    assert!(option.is_some());
    let system_class = area.load_class("java/lang/System").unwrap();
    assert_eq!(area.get(system_class).unwrap().name, "java/lang/System");
}

#[test]
fn test_allocate_object() {
    let mut area = MethodArea::new();
    let mut classes = library();
    classes.push(field_test());
    area.add_class_path(Box::new(MemoryClassPath { classes }));
    let result = area.load_class("FieldTest").unwrap();
    let mut heap = ObjectHeap::new(1024);
    let class = area.get(result).unwrap();
    let allocated_obj = heap.allocate_object(result, class.total_num_of_fields).unwrap();
    let class_ref = heap.get_class(&allocated_obj).unwrap();
    assert_eq!(area.get(class_ref).unwrap().name, "FieldTest");
    let field = &class.fields[class.get_own_field("a").unwrap()];
    heap.write_value_at_offset(&allocated_obj, field.offset, &field.descriptor, &Value::Int(2)).unwrap();
    let value = heap.read_value_at_offset(&allocated_obj, field.offset, &field.descriptor).unwrap();
    assert!(matches!(value, Value::Int(2)));
}

#[test]
fn test_hello() {
    let mut w = ClassWriter::new();
    let object_init = w.method_ref("java/lang/Object", "<init>", "()V");
    w.method(PUBLIC, "<init>", "()V", Some(code(1, 1, &[0x2a, 0xb7, hi(object_init), lo(object_init), 0xb1])));
    w.method(PUBLIC | STATIC, "main", "([Ljava/lang/String;)V", Some(code(0, 1, &[0xb1])));
    let hello = ("HelloWorld".to_string(), w.finish(PUBLIC | SUPER, "HelloWorld", Some("java/lang/Object"), &[], None));
    let (mut vm, mut call_stack) = machine(vec![hello]);
    let class_ref = vm.lookup_class_and_initialize(&mut call_stack, "HelloWorld", STEPS).unwrap();
    assert_eq!(vm.method_area.get(class_ref).unwrap().status, ClassStatus::Initialized);
}

#[test]
fn test_field_value() {
    let (mut vm, mut call_stack) = machine(vec![field_test()]);
    let class_ref = vm.lookup_class_and_initialize(&mut call_stack, "FieldTest", STEPS).unwrap();
    assert_eq!(vm.method_area.get(class_ref).unwrap().status, ClassStatus::Initialized);
    let name = vm.get_static(class_ref, "NAME").unwrap();
    assert_eq!(vm.get_string(&name).unwrap(), "static");
    let an_int = vm.get_static(class_ref, "anInt").unwrap().get_int().unwrap();
    assert_eq!(2, an_int);
    let object_ref = vm.new_object(class_ref).unwrap();
    let a = vm.get_field_by_name(&object_ref, "a").unwrap();
    assert_eq!(a.get_int().unwrap(), 0i32);
    let b = vm.get_field_by_name(&object_ref, "b").unwrap();
    assert_eq!(b, Value::Null);
    let field_double = vm.get_field_by_name(&object_ref, "fieldDouble").unwrap();
    assert_eq!(f64::from_bits(field_double.get_double().unwrap()), 0f64);
    let init_method = vm.method_area.get(class_ref).unwrap().get_method("<init>", "()V").unwrap();
    vm.invoke_method(&mut call_stack, class_ref, init_method, Some(Value::ObjectRef(object_ref)), Vec::new(), STEPS)
        .unwrap();
    let field_double = vm.get_field_by_name(&object_ref, "fieldDouble").unwrap();
    assert_eq!(f64::from_bits(field_double.get_double().unwrap()), 100f64);
    let field_float = vm.get_field_by_name(&object_ref, "fieldFloat").unwrap();
    assert_eq!(f32::from_bits(field_float.get_float().unwrap()), 50f32);
    let main_method = vm.method_area.get(class_ref).unwrap().get_method("increaseInt", "()V").unwrap();
    vm.invoke_method(&mut call_stack, class_ref, main_method, None, Vec::new(), STEPS).unwrap();
    let an_int = vm.get_static(class_ref, "anInt");
    assert!(matches!(an_int, Some(Value::Int(3))));
}

#[test]
fn test_exception() {
    let mut w = ClassWriter::new();
    let arithmetic = w.class("java/lang/ArithmeticException");
    let id = w.method_ref("Base", "id", "()I");
    let mut recovery = code(2, 1, &[0x04, 0x03, 0x6c, 0x57, 0x06, 0xac, 0x57, 0x05, 0xac]);
    recovery.handlers.push((0, 4, 6, arithmetic));
    w.method(PUBLIC, "methodRecovery", "()I", Some(recovery));
    w.method(PUBLIC, "throwNullPointException", "()I", Some(code(1, 1, &[0x01, 0xb6, hi(id), lo(id), 0xac])));
    w.method(PUBLIC, "methodStackTrace", "()[Ljava/lang/StackTraceElement;", Some(code(1, 1, &[0x01, 0xb0])));
    let mut classes = base_and_derived();
    classes.push((
        "ExceptionTest".to_string(),
        w.finish(PUBLIC | SUPER, "ExceptionTest", Some("java/lang/Object"), &[], None),
    ));
    let (mut vm, mut call_stack) = machine(classes);
    let class_ref = vm.lookup_class_and_initialize(&mut call_stack, "ExceptionTest", STEPS).unwrap();
    assert_eq!(vm.method_area.get(class_ref).unwrap().status, ClassStatus::Initialized);
    let obj_ref = vm.new_object(class_ref).unwrap();
    let method_recovery = vm.method_area.get(class_ref).unwrap().get_method("methodRecovery", "()I").unwrap();
    let result = vm
        .invoke_method(&mut call_stack, class_ref, method_recovery, Some(Value::ObjectRef(obj_ref)), Vec::new(), STEPS)
        .unwrap()
        .unwrap();
    assert_eq!(result, Value::Int(2));
    let throw_null_pointer_exception =
        vm.method_area.get(class_ref).unwrap().get_method("throwNullPointException", "()I").unwrap();
    let result = vm.invoke_method(
        &mut call_stack,
        class_ref,
        throw_null_pointer_exception,
        Some(Value::ObjectRef(obj_ref)),
        Vec::new(),
        STEPS,
    );
    if let Err(MethodCallError::ExceptionThrown(exp)) = result {
        let x = vm.get_class_of(&exp).unwrap();
        assert_eq!(vm.method_area.get(x).unwrap().name, "java/lang/NullPointerException")
    } else {
        panic!("nothing was thrown");
    }
    let method_stack_trace = vm
        .method_area
        .get(class_ref)
        .unwrap()
        .get_method("methodStackTrace", "()[Ljava/lang/StackTraceElement;")
        .unwrap();
    let result = vm
        .invoke_method(&mut call_stack, class_ref, method_stack_trace, Some(Value::ObjectRef(obj_ref)), Vec::new(), STEPS)
        .unwrap();
    assert_eq!(result, Some(Value::Null));
}

#[test]
fn test_value() {
    assert_eq!(Value::Int(1), Value::Int(1));
    assert_ne!(Value::Int(1), Value::Double(1f64.to_bits()));
    assert_ne!(Value::Int(1), Value::Null);
}

#[test]
fn the_host_asks_by_name() {
    let mut classes = base_and_derived();
    classes.push(holder());
    let (mut vm, mut stack) = machine(classes);
    let found = vm.lookup_method(&mut stack, "Derived", "id", "()I", STEPS).unwrap();
    let derived = vm.get_class_by_name(&mut stack, "Derived", STEPS).unwrap();
    let base = vm.get_class_by_name(&mut stack, "Base", STEPS).unwrap();
    assert_eq!(found.0, derived);
    assert_eq!(vm.method_area.get(found.0).unwrap().methods[found.1].name, "id");
    let inherited = vm.lookup_method(&mut stack, "Derived", "<init>", "()V", STEPS).unwrap();
    assert_eq!(inherited.0, derived);
    let missing = vm.lookup_method(&mut stack, "Derived", "none", "()V", STEPS);
    assert!(matches!(
        missing,
        Err(MethodCallError::InternalError(VmError::MethodNotFoundException(name, descriptor)))
            if name == "none" && descriptor == "()V"
    ));
    assert!(base < derived);
    let unknown = vm.get_class_by_name(&mut stack, "Nowhere", STEPS);
    assert!(matches!(
        unknown,
        Err(MethodCallError::InternalError(VmError::ClassNotFoundException(name))) if name == "Nowhere"
    ));
    let object = vm.new_object_by_class_name(&mut stack, "Derived", STEPS).unwrap();
    assert_eq!(vm.get_class_of(&object), Ok(derived));
    assert_eq!(vm.get_static_field_by_class_name(&mut stack, "Holder", "N", STEPS).unwrap(), Some(Value::Int(42)));
    vm.set_static_field_by_class_name(&mut stack, "Holder", "N", Value::Int(7), STEPS).unwrap();
    assert_eq!(vm.get_static_field_by_class_name(&mut stack, "Holder", "N", STEPS).unwrap(), Some(Value::Int(7)));
    assert_eq!(vm.get_static_field_by_class_name(&mut stack, "Holder", "M", STEPS).unwrap(), None);
    assert_eq!(stack.depth(), 0);
}

#[test]
fn a_frame_starts_with_the_receiver_and_the_arguments() {
    let mut w = ClassWriter::new();
    w.method(PUBLIC, "take", "(JID)V", Some(code(3, 8, &[0xb1])));
    w.method(PUBLIC | STATIC, "few", "(J)V", Some(code(0, 1, &[0xb1])));
    w.method(PUBLIC | 0x4000, "gone", "()V", None);
    let class = ("Taker".to_string(), w.finish(PUBLIC | SUPER, "Taker", Some("java/lang/Object"), &[], None));
    let (mut vm, mut stack) = machine(vec![class]);
    let taker = vm.lookup_class_and_initialize(&mut stack, "Taker", STEPS).unwrap();
    let methods = &vm.method_area.get(taker).unwrap().methods;
    let receiver = Value::Null;
    let args = vec![Value::Long(5), Value::Int(6), Value::Double(7)];
    stack.new_frame(taker, 0, &methods[0], Some(receiver), args).unwrap();
    assert_eq!(stack.depth(), 1);
    let frame = &stack.frames[0];
    assert_eq!((frame.class_ref, frame.method_ref, frame.pc, frame.next_pc), (taker, 0, 0, 0));
    assert_eq!(frame.op_stack.len(), 0);
    assert_eq!(frame.local_var_table.len(), 8);
    let locals: Vec<String> = frame.local_var_table.iter().map(|local| format!("{:?}", local)).collect();
    assert!(locals[0].contains("Null"), "{:?}", locals);
    assert!(locals[1].contains("Long(5)"), "{:?}", locals);
    assert!(locals[3].contains("Int(6)"), "{:?}", locals);
    assert!(locals[4].contains("Double(7)"), "{:?}", locals);
    assert_eq!(locals[2], locals[5]);
    assert_eq!(locals[6], locals[7]);
    assert_eq!(stack.new_frame(taker, 1, &methods[1], None, vec![Value::Long(1)]), Err(VmError::IndexOutOfBounds));
    assert_eq!(stack.new_frame(taker, 2, &methods[2], Some(receiver), vec![]), Err(VmError::NotImplemented));
    assert_eq!(stack.depth(), 1);
    assert!(stack.pop_frame().is_some());
    assert!(stack.pop_frame().is_none());
}

#[test]
fn the_call_stack_is_bounded() {
    let mut w = ClassWriter::new();
    w.method(PUBLIC | STATIC, "run", "()V", Some(code(0, 0, &[0xb1])));
    let class = ("Test".to_string(), w.finish(PUBLIC | SUPER, "Test", Some("java/lang/Object"), &[], None));
    let (mut vm, mut stack) = machine(vec![class]);
    let test = vm.lookup_class_and_initialize(&mut stack, "Test", STEPS).unwrap();
    let method = &vm.method_area.get(test).unwrap().methods[0];
    for _ in 0..1024 {
        stack.new_frame(test, 0, method, None, vec![]).unwrap();
    }
    assert_eq!(stack.new_frame(test, 0, method, None, vec![]), Err(VmError::StackOverFlow));
    assert_eq!(stack.depth(), 1024);
}

#[test]
fn instances_of_classes_and_of_array_types() {
    let (mut vm, mut stack) = machine(base_and_derived());
    let derived = vm.lookup_class_and_initialize(&mut stack, "Derived", STEPS).unwrap();
    let base = vm.lookup_class_and_initialize(&mut stack, "Base", STEPS).unwrap();
    let object = Value::ObjectRef(vm.new_object(derived).unwrap());
    assert_eq!(vm.check_instance_of("Derived", &object), Ok(true));
    assert_eq!(vm.check_instance_of("Base", &object), Ok(true));
    assert_eq!(vm.check_instance_of("java/lang/Object", &object), Ok(true));
    assert_eq!(vm.check_instance_of("java/lang/String", &object), Ok(false));
    assert_eq!(vm.check_instance_of("[LBase;", &object), Ok(false));
    assert_eq!(vm.check_instance_of("Base", &Value::Null), Ok(false));
    assert_eq!(vm.check_instance_of("Base", &Value::Int(1)), Ok(false));
    let plain = Value::ObjectRef(vm.new_object(base).unwrap());
    assert_eq!(vm.check_instance_of("Derived", &plain), Ok(false));
    let ints = Value::ArrayRef(vm.new_array(&ArrayElement::PrimaryValue(PrimaryType::Int), 2).unwrap());
    assert_eq!(vm.check_instance_of("[I", &ints), Ok(true));
    assert_eq!(vm.check_instance_of("[J", &ints), Ok(false));
    assert_eq!(vm.check_instance_of("[[I", &ints), Ok(false));
    assert_eq!(vm.check_instance_of("java/lang/Object", &ints), Ok(true));
    assert_eq!(vm.check_instance_of("Base", &ints), Ok(false));
    let objects = Value::ArrayRef(vm.new_array(&ArrayElement::ClassReference(derived), 2).unwrap());
    assert_eq!(vm.check_instance_of("[LDerived;", &objects), Ok(true));
    assert_eq!(vm.check_instance_of("[LBase;", &objects), Ok(true));
    assert_eq!(vm.check_instance_of("[Ljava/lang/Object;", &objects), Ok(true));
    assert_eq!(vm.check_instance_of("[Ljava/lang/String;", &objects), Ok(false));
    assert_eq!(vm.check_instance_of("[LNowhere;", &objects), Ok(false));
    assert_eq!(vm.check_instance_of("[LBase", &objects), Ok(false));
    assert_eq!(vm.check_instance_of("[I", &objects), Ok(false));
    let nested = ArrayElement::Array(Box::new(ArrayElement::ClassReference(derived)));
    let arrays = Value::ArrayRef(vm.new_array(&nested, 1).unwrap());
    assert_eq!(vm.check_instance_of("[[LBase;", &arrays), Ok(true));
    assert_eq!(vm.check_instance_of("[LBase;", &arrays), Ok(false));
}

#[test]
fn a_text_is_read_from_a_string_object_only() {
    let (mut vm, mut stack) = machine(base_and_derived());
    let text = vm.new_java_lang_string_object("h\u{e9}llo \u{10401}").unwrap();
    assert_eq!(vm.get_string(&Value::ObjectRef(text)).unwrap(), "h\u{e9}llo \u{10401}");
    let empty = vm.new_java_lang_string_object("").unwrap();
    assert_eq!(vm.get_string(&Value::ObjectRef(empty)).unwrap(), "");
    assert!(vm.get_string(&Value::Null).is_err());
    assert!(vm.get_string(&Value::Int(3)).is_err());
    let base = vm.lookup_class_and_initialize(&mut stack, "Base", STEPS).unwrap();
    let other = vm.new_object(base).unwrap();
    assert_eq!(vm.get_string(&Value::ObjectRef(other)), Err(VmError::ValueTypeMissMatch));
}

#[test]
fn a_step_at_a_time() {
    // iconst_2; iconst_3; imul; ireturn
    let (mut vm, mut stack) = machine(vec![test_class("()I", code(2, 0, &[0x05, 0x06, 0x68, 0xac]))]);
    assert_eq!(vm.step(&mut stack), Ok(lite_jvm::interpreter::Progress::Idle));
    let started = run_static_for(&mut vm, &mut stack, 0);
    assert!(matches!(started, Err(MethodCallError::OutOfSteps)));
    assert_eq!(stack.depth(), 1);
    assert!(stack.frames[0].host);
    assert_eq!(vm.step(&mut stack), Ok(lite_jvm::interpreter::Progress::Running));
    assert_eq!(stack.frames[0].op_stack.peek(0), Ok(Value::Int(2)));
    assert_eq!((stack.frames[0].pc, stack.frames[0].next_pc), (0, 1));
    assert!(matches!(vm.resume(&mut stack, 1), Err(MethodCallError::OutOfSteps)));
    assert_eq!(stack.frames[0].op_stack.len(), 2);
    assert!(matches!(vm.run(&mut stack, 1), Ok(lite_jvm::interpreter::Progress::Running)));
    assert_eq!(stack.frames[0].op_stack.peek(0), Ok(Value::Int(6)));
    assert_eq!(
        vm.step(&mut stack),
        Ok(lite_jvm::interpreter::Progress::Returned(Some(Value::Int(6))))
    );
    assert_eq!(stack.depth(), 0);
    assert!(matches!(vm.resume(&mut stack, 5), Err(MethodCallError::InternalError(VmError::PopFromEmptyStack))));
}

fn run_static_for(vm: &mut VirtualMachine, stack: &mut CallStack, steps: u64) -> Result<Option<Value>, MethodCallError> {
    let class = vm.lookup_class_and_initialize(stack, "Test", STEPS)?;
    let method = vm.method_area.get(class).unwrap().get_method("run", "()I").unwrap();
    vm.invoke_method(stack, class, method, None, Vec::new(), steps)
}

#[test]
fn a_thrown_object_leaves_the_frames_it_passed() {
    // Test.run calls Test.fail, which divides by zero; neither has a handler.
    let mut w = ClassWriter::new();
    let fail = w.method_ref("Test", "fail", "()I");
    let mut run = code(1, 0, &[0xb8, hi(fail), lo(fail), 0xac]);
    run.lines.push((0, 3));
    let mut failing = code(2, 0, &[0x04, 0x03, 0x6c, 0xac]);
    failing.lines.push((0, 7));
    failing.lines.push((2, 8));
    w.method(PUBLIC | STATIC, "run", "()I", Some(run));
    w.method(PUBLIC | STATIC, "fail", "()I", Some(failing));
    let class = ("Test".to_string(), w.finish(PUBLIC | SUPER, "Test", Some("java/lang/Object"), &[], Some("Test.java")));
    let (mut vm, mut stack) = machine(vec![class]);
    let result = run_static(&mut vm, &mut stack, "Test", "run", "()I", vec![]);
    assert_eq!(thrown_class(&vm, result), "java/lang/ArithmeticException");
    let lines: Vec<String> = stack.trace.iter().map(|element| element.describe()).collect();
    assert_eq!(lines, vec!["\tTest.fail(Test.java:8)".to_string(), "\tTest.run(Test.java:3)".to_string()]);
    assert_eq!(stack.depth(), 0);
}

#[test]
fn a_class_got_by_name_can_be_used() {
    // Base is loaded as the super class of Derived, and is not linked then.
    let (mut vm, mut stack) = machine(base_and_derived());
    let derived = vm.linked_class("Derived").unwrap();
    let base = vm.method_area.get(derived).unwrap().super_class.unwrap();
    assert_eq!(vm.method_area.get(base).unwrap().status, ClassStatus::Loaded);
    let got = vm.get_class_by_name(&mut stack, "Base", STEPS).unwrap();
    assert_eq!(got, base);
    assert_eq!(vm.method_area.get(base).unwrap().status, ClassStatus::Initialized);
    assert!(vm.new_object(got).is_ok());
    let again = vm.get_class_by_name(&mut stack, "Base", STEPS).unwrap();
    assert_eq!(again, base);
}

#[test]
fn a_string_is_made_where_there_is_room() {
    let (mut vm, _stack) = machine(vec![]);
    let first = vm.new_java_lang_string_object("hi").unwrap();
    let second = vm.new_java_lang_string_object("hi").unwrap();
    assert_eq!(first, second);
    let value = vm.get_field_by_name(&first, "value").unwrap().get_array().unwrap();
    assert_eq!(vm.get_array_header(&value).unwrap().array_size, 2);
    assert_eq!(vm.array_get(&value, 0), Ok(Value::Int(0x68)));
    assert_eq!(vm.array_get(&value, 1), Ok(Value::Int(0x69)));
    let mirror = vm.new_java_lang_class_object("java/lang/Integer").unwrap();
    assert_eq!(vm.new_java_lang_class_object("java/lang/Integer"), Ok(mirror));
    let name = vm.get_field_by_name(&mirror, "name").unwrap();
    assert_eq!(vm.get_string(&name).unwrap(), "java/lang/Integer");
    let mut small = VirtualMachine::new(16);
    small.add_class_path(Box::new(MemoryClassPath { classes: library() }));
    assert_eq!(small.new_java_lang_string_object("hi"), Err(VmError::OutOfMemory));
}

#[test]
fn the_host_runs_native_methods_of_its_own() {
    let mut w = ClassWriter::new();
    let twice = w.method_ref("Test", "twice", "(I)I");
    w.method(PUBLIC | STATIC | 0x1000, "twice", "(I)I", None);
    // bipush 21; invokestatic twice; ireturn
    w.method(PUBLIC | STATIC, "run", "()I", Some(code(1, 0, &[0x10, 21, 0xb8, hi(twice), lo(twice), 0xac])));
    let class = ("Test".to_string(), w.finish(PUBLIC | SUPER, "Test", Some("java/lang/Object"), &[], None));
    let (mut vm, mut stack) = machine(vec![class]);
    vm.native_method_area.registry_native_method(
        "Test",
        "twice",
        "(I)I",
        lite_jvm::native_method_area::NativeMethod::Host(7),
    );
    let result = run_static(&mut vm, &mut stack, "Test", "run", "()I", vec![]);
    assert!(matches!(result, Err(MethodCallError::HostNeeded(7))));
    let call = stack.host_call.as_ref().unwrap();
    assert_eq!(call.id, 7);
    assert_eq!(call.receiver, None);
    assert_eq!(call.args, vec![Value::Int(21)]);
    assert!(matches!(stack.frames[0].pending, Pending::Host(7)));
    // Asking again without a result repeats the request.
    assert!(matches!(vm.resume(&mut stack, STEPS), Err(MethodCallError::HostNeeded(7))));
    assert_eq!(vm.provide_float(&mut stack, 0), Err(VmError::ValueTypeMissMatch));
    vm.provide_native(&mut stack, Some(Value::Int(42))).unwrap();
    assert!(stack.host_call.is_none());
    assert_eq!(vm.resume(&mut stack, STEPS).unwrap(), Some(Value::Int(42)));
    assert_eq!(vm.provide_native(&mut stack, None), Err(VmError::ValueTypeMissMatch));
}
