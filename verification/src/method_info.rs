//! A method as it stands in a class file.
use vstd::prelude::*;
use crate::access_flags::MethodAccessFlags;
use crate::attribute_info::AttributeInfo;
use crate::field_info::MemberView;
use crate::seq_view::views;

verus! {

pub struct MethodInfo {
    pub access_flags: MethodAccessFlags,
    pub name: String,
    pub descriptor: String,
    pub attributes: Vec<AttributeInfo>,
}

impl View for MethodInfo {
    type V = MemberView;

    open spec fn view(&self) -> MemberView {
        MemberView {
            access_flags: self.access_flags@,
            name: self.name@,
            descriptor: self.descriptor@,
            attributes: views(self.attributes@),
        }
    }
}

} // verus!
