//! A field as it stands in a class file.
use vstd::prelude::*;
use crate::access_flags::FieldAccessFlags;
use crate::attribute_info::{AttributeInfo, AttributeInfoView};
use crate::seq_view::views;

verus! {

/// A field or a method of a class file as a mathematical value.
pub struct MemberView {
    pub access_flags: u16,
    pub name: Seq<char>,
    pub descriptor: Seq<char>,
    pub attributes: Seq<AttributeInfoView>,
}

pub struct FieldInfo {
    pub access_flags: FieldAccessFlags,
    pub name: String,
    pub descriptor: String,
    pub attributes: Vec<AttributeInfo>,
}

impl View for FieldInfo {
    type V = MemberView;

    open spec fn view(&self) -> MemberView {
        MemberView {
            access_flags: self.access_flags@,
            name: self.name@,
            descriptor: self.descriptor@,
            attributes: views(self.attributes@),
        }
    }
}

} // verus!
