//! A decoded class file.
use vstd::prelude::*;
use crate::access_flags::ClassAccessFlags;
use crate::attribute_info::{AttributeInfo, AttributeInfoView, AttributeType};
use crate::byte_buffer::be_u16;
use crate::class_file_error::ClassFileError;
use crate::class_file_version::ClassFileVersion;
use crate::constant_pool::{string_lookup, ConstantPool, ConstantView};
use crate::field_info::{FieldInfo, MemberView};
use crate::method_info::MethodInfo;
use crate::seq_view::views;

verus! {

pub struct ClassFile {
    pub version: ClassFileVersion,
    pub constant_pool: ConstantPool,
    pub access_flags: ClassAccessFlags,
    pub this_class_name: String,
    pub super_class_name: Option<String>,
    pub interface_names: Vec<String>,
    pub field_info: Vec<FieldInfo>,
    pub method_info: Vec<MethodInfo>,
    pub attribute_info: Vec<AttributeInfo>,
}

/// A class file as a mathematical value.
pub struct ClassFileView {
    pub version: ClassFileVersion,
    pub constant_pool: Seq<Option<ConstantView>>,
    pub access_flags: u16,
    pub this_class_name: Seq<char>,
    pub super_class_name: Option<Seq<char>>,
    pub interface_names: Seq<Seq<char>>,
    pub field_info: Seq<MemberView>,
    pub method_info: Seq<MemberView>,
    pub attribute_info: Seq<AttributeInfoView>,
}

impl View for ClassFile {
    type V = ClassFileView;

    open spec fn view(&self) -> ClassFileView {
        ClassFileView {
            version: self.version,
            constant_pool: self.constant_pool@,
            access_flags: self.access_flags@,
            this_class_name: self.this_class_name@,
            super_class_name: match self.super_class_name {
                Some(s) => Some(s@),
                None => None,
            },
            interface_names: views(self.interface_names@),
            field_info: views(self.field_info@),
            method_info: views(self.method_info@),
            attribute_info: views(self.attribute_info@),
        }
    }
}

/// The first attribute named `SourceFile` among `attributes[from..]`, if any.
pub open spec fn first_source_file(attributes: Seq<AttributeInfoView>, from: int) -> Option<
    AttributeInfoView,
>
    decreases attributes.len() - from,
{
    if from < 0 || from >= attributes.len() {
        None
    } else if attributes[from].name is SourceFile {
        Some(attributes[from])
    } else {
        first_source_file(attributes, from + 1)
    }
}

/// The name of the source file that a class file records: its first
/// `SourceFile` attribute holds the index of a Utf8 constant. `Ok(None)`
/// where the class has no such attribute; an error where the attribute is
/// not two bytes long or does not lead to a Utf8 constant.
pub open spec fn source_file_of(class: ClassFileView) -> Result<Option<Seq<char>>, ClassFileError> {
    match first_source_file(class.attribute_info, 0) {
        None => Ok(None),
        Some(attribute) => if attribute.info.len() != 2 {
            Err(ClassFileError::UnexpectedEndOfData)
        } else {
            match string_lookup(class.constant_pool, be_u16(attribute.info, 0)) {
                Ok(text) => Ok(Some(text)),
                Err(e) => Err(e),
            }
        },
    }
}

impl ClassFile {
    pub fn source_file(&self) -> (r: Result<Option<String>, ClassFileError>)
        ensures
            match source_file_of(self@) {
                Ok(Some(text)) => r is Ok && r->Ok_0 is Some && r->Ok_0->0@ == text,
                Ok(None) => r is Ok && r->Ok_0 is None,
                Err(e) => r == Err::<Option<String>, _>(e),
            },
    {
        let mut i: usize = 0;
        while i < self.attribute_info.len()
            invariant
                i <= self.attribute_info.len(),
                first_source_file(self@.attribute_info, 0) == first_source_file(
                    self@.attribute_info,
                    i as int,
                ),
            decreases self.attribute_info.len() - i,
        {
            let info = &self.attribute_info[i];
            assert(self@.attribute_info[i as int] == info@);
            if let AttributeType::SourceFile = info.name {
                if info.info.len() != 2 {
                    return Err(ClassFileError::UnexpectedEndOfData);
                }
                let index: u16 = (info.info[0] as u16) * 0x100 + (info.info[1] as u16);
                return match self.constant_pool.get_string(&index) {
                    Ok(text) => Ok(Some(text)),
                    Err(e) => Err(e),
                };
            }
            i += 1;
        }
        Ok(None)
    }
}

} // verus!
