//! A small virtual machine for class files: decoder, class loading, a managed
//! heap and a bytecode interpreter.
pub mod access_flags;
pub mod arithmetic;
pub mod attribute_info;
pub mod bootstrap_class_loader;
pub mod byte_buffer;
pub mod class_file;
pub mod class_file_error;
pub mod class_file_reader;
pub mod class_file_version;
pub mod class_finder;
pub mod constant_pool;
pub mod field_info;
pub mod instruction;
pub mod interpreter;
pub mod java_exception;
pub mod jvm_error;
pub mod jvm_values;
pub mod loaded_class;
pub mod memory_trunk;
pub mod method_area;
pub mod method_info;
pub mod native_method_area;
pub mod object_heap;
pub mod operand_stack;
pub mod runtime_attribute_info;
pub mod runtime_constant_pool;
pub mod runtime_field_info;
pub mod runtime_method_info;
pub mod seq_view;
pub mod stack;
pub mod stack_frame;
pub mod stack_trace_element;
pub mod static_field_area;
pub mod text;
pub mod text_forms;
pub mod virtual_machine;
