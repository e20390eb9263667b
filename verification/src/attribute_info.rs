//! Attributes as they stand in a class file: a name and uninterpreted bytes.
use vstd::prelude::*;
use crate::text::str_eq;

verus! {

/// An attribute of a class, field, method or code block.
#[derive(Debug, PartialEq)]
pub struct AttributeInfo {
    pub name: AttributeType,
    pub info: Vec<u8>,
}

pub struct AttributeInfoView {
    pub name: AttributeKind,
    pub info: Seq<u8>,
}

impl View for AttributeInfo {
    type V = AttributeInfoView;

    open spec fn view(&self) -> AttributeInfoView {
        AttributeInfoView { name: self.name@, info: self.info@ }
    }
}

#[derive(Debug, PartialEq)]
pub enum AttributeType {
    ConstantValue,
    Code,
    StackMapTable,
    BootstrapMethods,
    NestHost,
    NestMembers,
    PermittedSubclasses,
    Exceptions,
    InnerClasses,
    EnclosingMethod,
    Synthetic,
    Signature,
    Record,
    SourceFile,
    LineNumberTable,
    LocalVariableTable,
    LocalVariableTypeTable,
    SourceDebugExtension,
    Deprecated,
    RuntimeVisibleAnnotations,
    RuntimeInvisibleAnnotations,
    RuntimeVisibleParameterAnnotations,
    RuntimeInvisibleParameterAnnotations,
    RuntimeVisibleTypeAnnotations,
    RuntimeInvisibleTypeAnnotations,
    AnnotationDefault,
    MethodParameters,
    Module,
    ModulePackages,
    ModuleMainClass,
    CustomType(String),
}

/// An attribute type as a mathematical value: one of the standard
/// attributes, or another name.
pub enum AttributeKind {
    ConstantValue,
    Code,
    StackMapTable,
    BootstrapMethods,
    NestHost,
    NestMembers,
    PermittedSubclasses,
    Exceptions,
    InnerClasses,
    EnclosingMethod,
    Synthetic,
    Signature,
    Record,
    SourceFile,
    LineNumberTable,
    LocalVariableTable,
    LocalVariableTypeTable,
    SourceDebugExtension,
    Deprecated,
    RuntimeVisibleAnnotations,
    RuntimeInvisibleAnnotations,
    RuntimeVisibleParameterAnnotations,
    RuntimeInvisibleParameterAnnotations,
    RuntimeVisibleTypeAnnotations,
    RuntimeInvisibleTypeAnnotations,
    AnnotationDefault,
    MethodParameters,
    Module,
    ModulePackages,
    ModuleMainClass,
    CustomType(Seq<char>),
}

impl View for AttributeType {
    type V = AttributeKind;

    open spec fn view(&self) -> AttributeKind {
        match self {
            AttributeType::ConstantValue => AttributeKind::ConstantValue,
            AttributeType::Code => AttributeKind::Code,
            AttributeType::StackMapTable => AttributeKind::StackMapTable,
            AttributeType::BootstrapMethods => AttributeKind::BootstrapMethods,
            AttributeType::NestHost => AttributeKind::NestHost,
            AttributeType::NestMembers => AttributeKind::NestMembers,
            AttributeType::PermittedSubclasses => AttributeKind::PermittedSubclasses,
            AttributeType::Exceptions => AttributeKind::Exceptions,
            AttributeType::InnerClasses => AttributeKind::InnerClasses,
            AttributeType::EnclosingMethod => AttributeKind::EnclosingMethod,
            AttributeType::Synthetic => AttributeKind::Synthetic,
            AttributeType::Signature => AttributeKind::Signature,
            AttributeType::Record => AttributeKind::Record,
            AttributeType::SourceFile => AttributeKind::SourceFile,
            AttributeType::LineNumberTable => AttributeKind::LineNumberTable,
            AttributeType::LocalVariableTable => AttributeKind::LocalVariableTable,
            AttributeType::LocalVariableTypeTable => AttributeKind::LocalVariableTypeTable,
            AttributeType::SourceDebugExtension => AttributeKind::SourceDebugExtension,
            AttributeType::Deprecated => AttributeKind::Deprecated,
            AttributeType::RuntimeVisibleAnnotations => AttributeKind::RuntimeVisibleAnnotations,
            AttributeType::RuntimeInvisibleAnnotations => AttributeKind::RuntimeInvisibleAnnotations,
            AttributeType::RuntimeVisibleParameterAnnotations => AttributeKind::RuntimeVisibleParameterAnnotations,
            AttributeType::RuntimeInvisibleParameterAnnotations => AttributeKind::RuntimeInvisibleParameterAnnotations,
            AttributeType::RuntimeVisibleTypeAnnotations => AttributeKind::RuntimeVisibleTypeAnnotations,
            AttributeType::RuntimeInvisibleTypeAnnotations => AttributeKind::RuntimeInvisibleTypeAnnotations,
            AttributeType::AnnotationDefault => AttributeKind::AnnotationDefault,
            AttributeType::MethodParameters => AttributeKind::MethodParameters,
            AttributeType::Module => AttributeKind::Module,
            AttributeType::ModulePackages => AttributeKind::ModulePackages,
            AttributeType::ModuleMainClass => AttributeKind::ModuleMainClass,
            AttributeType::CustomType(name) => AttributeKind::CustomType(name@),
        }
    }
}

/// The attribute type that a name stands for: the standard attribute of
/// that name where there is one, and otherwise a custom type that keeps
/// the name.
pub open spec fn attribute_kind(name: Seq<char>) -> AttributeKind {
    if name == "ConstantValue"@ {
        AttributeKind::ConstantValue
    } else if name == "Code"@ {
        AttributeKind::Code
    } else if name == "StackMapTable"@ {
        AttributeKind::StackMapTable
    } else if name == "BootstrapMethods"@ {
        AttributeKind::BootstrapMethods
    } else if name == "NestHost"@ {
        AttributeKind::NestHost
    } else if name == "NestMembers"@ {
        AttributeKind::NestMembers
    } else if name == "PermittedSubclasses"@ {
        AttributeKind::PermittedSubclasses
    } else if name == "Exceptions"@ {
        AttributeKind::Exceptions
    } else if name == "InnerClasses"@ {
        AttributeKind::InnerClasses
    } else if name == "EnclosingMethod"@ {
        AttributeKind::EnclosingMethod
    } else if name == "Synthetic"@ {
        AttributeKind::Synthetic
    } else if name == "Signature"@ {
        AttributeKind::Signature
    } else if name == "Record"@ {
        AttributeKind::Record
    } else if name == "SourceFile"@ {
        AttributeKind::SourceFile
    } else if name == "LineNumberTable"@ {
        AttributeKind::LineNumberTable
    } else if name == "LocalVariableTable"@ {
        AttributeKind::LocalVariableTable
    } else if name == "LocalVariableTypeTable"@ {
        AttributeKind::LocalVariableTypeTable
    } else if name == "SourceDebugExtension"@ {
        AttributeKind::SourceDebugExtension
    } else if name == "Deprecated"@ {
        AttributeKind::Deprecated
    } else if name == "RuntimeVisibleAnnotations"@ {
        AttributeKind::RuntimeVisibleAnnotations
    } else if name == "RuntimeInvisibleAnnotations"@ {
        AttributeKind::RuntimeInvisibleAnnotations
    } else if name == "RuntimeVisibleParameterAnnotations"@ {
        AttributeKind::RuntimeVisibleParameterAnnotations
    } else if name == "RuntimeInvisibleParameterAnnotations"@ {
        AttributeKind::RuntimeInvisibleParameterAnnotations
    } else if name == "RuntimeVisibleTypeAnnotations"@ {
        AttributeKind::RuntimeVisibleTypeAnnotations
    } else if name == "RuntimeInvisibleTypeAnnotations"@ {
        AttributeKind::RuntimeInvisibleTypeAnnotations
    } else if name == "AnnotationDefault"@ {
        AttributeKind::AnnotationDefault
    } else if name == "MethodParameters"@ {
        AttributeKind::MethodParameters
    } else if name == "Module"@ {
        AttributeKind::Module
    } else if name == "ModulePackages"@ {
        AttributeKind::ModulePackages
    } else if name == "ModuleMainClass"@ {
        AttributeKind::ModuleMainClass
    } else {
        AttributeKind::CustomType(name)
    }
}

impl AttributeType {
    pub fn by_name(str: &str) -> (r: AttributeType)
        ensures
            r@ == attribute_kind(str@),
    {
        if str_eq(str, "ConstantValue") {
            AttributeType::ConstantValue
        } else if str_eq(str, "Code") {
            AttributeType::Code
        } else if str_eq(str, "StackMapTable") {
            AttributeType::StackMapTable
        } else if str_eq(str, "BootstrapMethods") {
            AttributeType::BootstrapMethods
        } else if str_eq(str, "NestHost") {
            AttributeType::NestHost
        } else if str_eq(str, "NestMembers") {
            AttributeType::NestMembers
        } else if str_eq(str, "PermittedSubclasses") {
            AttributeType::PermittedSubclasses
        } else if str_eq(str, "Exceptions") {
            AttributeType::Exceptions
        } else if str_eq(str, "InnerClasses") {
            AttributeType::InnerClasses
        } else if str_eq(str, "EnclosingMethod") {
            AttributeType::EnclosingMethod
        } else if str_eq(str, "Synthetic") {
            AttributeType::Synthetic
        } else if str_eq(str, "Signature") {
            AttributeType::Signature
        } else if str_eq(str, "Record") {
            AttributeType::Record
        } else if str_eq(str, "SourceFile") {
            AttributeType::SourceFile
        } else if str_eq(str, "LineNumberTable") {
            AttributeType::LineNumberTable
        } else if str_eq(str, "LocalVariableTable") {
            AttributeType::LocalVariableTable
        } else if str_eq(str, "LocalVariableTypeTable") {
            AttributeType::LocalVariableTypeTable
        } else if str_eq(str, "SourceDebugExtension") {
            AttributeType::SourceDebugExtension
        } else if str_eq(str, "Deprecated") {
            AttributeType::Deprecated
        } else if str_eq(str, "RuntimeVisibleAnnotations") {
            AttributeType::RuntimeVisibleAnnotations
        } else if str_eq(str, "RuntimeInvisibleAnnotations") {
            AttributeType::RuntimeInvisibleAnnotations
        } else if str_eq(str, "RuntimeVisibleParameterAnnotations") {
            AttributeType::RuntimeVisibleParameterAnnotations
        } else if str_eq(str, "RuntimeInvisibleParameterAnnotations") {
            AttributeType::RuntimeInvisibleParameterAnnotations
        } else if str_eq(str, "RuntimeVisibleTypeAnnotations") {
            AttributeType::RuntimeVisibleTypeAnnotations
        } else if str_eq(str, "RuntimeInvisibleTypeAnnotations") {
            AttributeType::RuntimeInvisibleTypeAnnotations
        } else if str_eq(str, "AnnotationDefault") {
            AttributeType::AnnotationDefault
        } else if str_eq(str, "MethodParameters") {
            AttributeType::MethodParameters
        } else if str_eq(str, "Module") {
            AttributeType::Module
        } else if str_eq(str, "ModulePackages") {
            AttributeType::ModulePackages
        } else if str_eq(str, "ModuleMainClass") {
            AttributeType::ModuleMainClass
        } else {
            AttributeType::CustomType(str.to_owned())
        }
    }
}

} // verus!
