//! A field of a loaded class.
use vstd::prelude::*;
use crate::access_flags::{has_flag, FieldAccessFlags, ACC_STATIC};
use crate::attribute_info::{AttributeInfo, AttributeInfoView, AttributeKind, AttributeType};
use crate::field_info::{FieldInfo, MemberView};
use crate::jvm_error::{VmError, VmExecResult};
use crate::runtime_attribute_info::{
    constant_value_of, get_attr_as_constant_value, ConstantValueAttribute, ConstantValueView,
};
use crate::runtime_constant_pool::{RuntimeConstantPool, RuntimeConstantView};
use crate::seq_view::views;

verus! {

pub struct RuntimeFieldInfo {
    pub access_flags: FieldAccessFlags,
    pub name: String,
    pub descriptor: String,
    pub constant_value: Option<ConstantValueAttribute>,
    /// The slot of the field in an instance, counted from 1; 0 for a
    /// static field and for a field that has no slot yet.
    pub offset: usize,
    pub attributes: Vec<AttributeInfo>,
}

pub struct RuntimeFieldView {
    pub access_flags: u16,
    pub name: Seq<char>,
    pub descriptor: Seq<char>,
    pub constant_value: Option<ConstantValueView>,
    pub offset: usize,
    pub attributes: Seq<AttributeInfoView>,
}

impl RuntimeFieldView {
    pub open spec fn is_static(self) -> bool {
        has_flag(self.access_flags, ACC_STATIC)
    }
}

impl View for RuntimeFieldInfo {
    type V = RuntimeFieldView;

    open spec fn view(&self) -> RuntimeFieldView {
        RuntimeFieldView {
            access_flags: self.access_flags@,
            name: self.name@,
            descriptor: self.descriptor@,
            constant_value: match self.constant_value {
                Some(c) => Some(c@),
                None => None,
            },
            offset: self.offset,
            attributes: views(self.attributes@),
        }
    }
}

/// The constant value that the attributes `attributes[from..]` give a
/// field whose value so far is `current`: each `ConstantValue` attribute
/// replaces the one before. `Err` where such an attribute gives no value.
pub open spec fn constant_value_from(
    attributes: Seq<AttributeInfoView>,
    from: int,
    current: Option<ConstantValueView>,
    pool: Seq<Option<RuntimeConstantView>>,
) -> Result<Option<ConstantValueView>, ()>
    decreases attributes.len() - from,
{
    if from < 0 || from >= attributes.len() {
        Ok(current)
    } else if attributes[from].name is ConstantValue {
        match constant_value_of(attributes[from].info, pool) {
            None => Err(()),
            Some(v) => constant_value_from(attributes, from + 1, Some(v), pool),
        }
    } else {
        constant_value_from(attributes, from + 1, current, pool)
    }
}

impl RuntimeFieldInfo {
    pub fn is_static(&self) -> (r: bool)
        ensures
            r == self@.is_static(),
    {
        self.access_flags.contains(ACC_STATIC)
    }

    /// The run-time field for a field of a class file. It has no slot yet.
    pub fn from(field_info: FieldInfo, cp: &RuntimeConstantPool) -> (r: VmExecResult<
        RuntimeFieldInfo,
    >)
        ensures
            match constant_value_from(field_info@.attributes, 0, None, cp@) {
                Ok(value) => r is Ok && r->Ok_0@ == (RuntimeFieldView {
                    access_flags: field_info@.access_flags,
                    name: field_info@.name,
                    descriptor: field_info@.descriptor,
                    constant_value: value,
                    offset: 0,
                    attributes: field_info@.attributes,
                }),
                Err(_) => r is Err && r->Err_0 is InvalidAttribute,
            },
    {
        let mut constant_value: Option<ConstantValueAttribute> = None;
        let ghost attributes = field_info@.attributes;
        let mut i: usize = 0;
        while i < field_info.attributes.len()
            invariant
                i <= field_info.attributes.len(),
                attributes == field_info@.attributes,
                attributes.len() == field_info.attributes.len(),
                constant_value_from(attributes, 0, None, cp@) == constant_value_from(
                    attributes,
                    i as int,
                    match constant_value {
                        Some(c) => Some(c@),
                        None => None,
                    },
                    cp@,
                ),
            decreases field_info.attributes.len() - i,
        {
            let attr = &field_info.attributes[i];
            assert(attributes[i as int] == attr@);
            if let AttributeType::ConstantValue = attr.name {
                constant_value = Some(get_attr_as_constant_value(&attr.info, cp)?);
            }
            i += 1;
        }
        Ok(
            RuntimeFieldInfo {
                access_flags: field_info.access_flags,
                name: field_info.name,
                descriptor: field_info.descriptor,
                constant_value,
                offset: 0,
                attributes: field_info.attributes,
            },
        )
    }
}

} // verus!
