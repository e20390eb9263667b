//! A method of a loaded class, and the parsing of method descriptors.
use vstd::prelude::*;
use vstd::string::StrSliceExecFns;
use crate::access_flags::{has_flag, MethodAccessFlags, ACC_NATIVE, ACC_STATIC};
use crate::attribute_info::{AttributeKind, AttributeInfoView, AttributeType};
use crate::field_info::MemberView;
use crate::jvm_error::{VmError, VmExecResult};
use crate::jvm_values::{PrimaryType, ValueType, ValueTypeView};
use crate::method_info::MethodInfo;
use crate::runtime_attribute_info::{
    get_attr_as_code, get_attr_as_exception, parse_code, parse_thrown, CodeAttribute, CodeView,
};
use crate::runtime_constant_pool::{lift, RuntimeConstantPool, RuntimeConstantView};
use crate::seq_view::{lemma_views_empty, lemma_views_push, views};
use crate::text::{chars_of, str_eq};

verus! {

#[derive(Debug, PartialEq)]
pub struct MethodDescriptor {
    pub args: Vec<ValueType>,
    pub ret: ValueType,
}

pub struct MethodDescriptorView {
    pub args: Seq<ValueTypeView>,
    pub ret: ValueTypeView,
}

impl View for MethodDescriptor {
    type V = MethodDescriptorView;

    open spec fn view(&self) -> MethodDescriptorView {
        MethodDescriptorView { args: views(self.args@), ret: self.ret@ }
    }
}

/// The primitive type that a descriptor character stands for.
pub open spec fn primary_of(c: char) -> Option<PrimaryType> {
    if c == 'B' {
        Some(PrimaryType::Byte)
    } else if c == 'C' {
        Some(PrimaryType::Char)
    } else if c == 'D' {
        Some(PrimaryType::Double)
    } else if c == 'F' {
        Some(PrimaryType::Float)
    } else if c == 'I' {
        Some(PrimaryType::Int)
    } else if c == 'J' {
        Some(PrimaryType::Long)
    } else if c == 'S' {
        Some(PrimaryType::Short)
    } else if c == 'Z' {
        Some(PrimaryType::Boolean)
    } else {
        None
    }
}

/// The number of `[` that stand at `i` and directly behind it.
pub open spec fn array_depth(s: Seq<char>, i: int) -> nat
    decreases s.len() - i,
{
    if 0 <= i < s.len() && s[i] == '[' {
        1 + array_depth(s, i + 1)
    } else {
        0
    }
}

/// The position of the first `;` at or behind `i`, or the length of `s`
/// where there is none.
pub open spec fn name_end(s: Seq<char>, i: int) -> int
    decreases s.len() - i,
{
    if i < 0 || i >= s.len() {
        s.len() as int
    } else if s[i] == ';' {
        i
    } else {
        name_end(s, i + 1)
    }
}

/// The primitive type `t`, or the array of `depth` dimensions of it.
pub open spec fn primary_type_of(t: PrimaryType, depth: nat) -> ValueTypeView {
    if depth > 0 {
        ValueTypeView::PrimaryArray(t, depth as usize)
    } else {
        ValueTypeView::Primary(t)
    }
}

/// The class `name`, or the array of `depth` dimensions of it.
pub open spec fn object_type_of(name: Seq<char>, depth: nat) -> ValueTypeView {
    if depth > 0 {
        ValueTypeView::ObjectArray(name, depth as usize)
    } else {
        ValueTypeView::Object(name)
    }
}

/// The type written at `i`: any number of `[`, then a primitive letter or
/// `L`, a class name and `;`. The result holds the position behind it.
pub open spec fn parse_field_type(s: Seq<char>, i: int) -> Option<(ValueTypeView, int)> {
    let depth = array_depth(s, i);
    let j = i + depth;
    if i < 0 || j >= s.len() {
        None
    } else if primary_of(s[j]) is Some {
        Some((primary_type_of(primary_of(s[j])->0, depth), j + 1))
    } else if s[j] == 'L' {
        let end = name_end(s, j + 1);
        if end >= s.len() {
            None
        } else {
            Some((object_type_of(s.subrange(j + 1, end), depth), end + 1))
        }
    } else {
        None
    }
}

/// The types written from `i` up to the closing bracket, added to `acc`,
/// and the position of that bracket.
pub open spec fn parse_arguments(s: Seq<char>, i: int, acc: Seq<ValueTypeView>) -> Option<
    (Seq<ValueTypeView>, int),
>
    decreases s.len() - i,
{
    if i < 0 || i >= s.len() {
        None
    } else if s[i] == ')' {
        Some((acc, i))
    } else {
        match parse_field_type(s, i) {
            None => None,
            Some((t, j)) => if j <= i {
                None
            } else {
                parse_arguments(s, j, acc.push(t))
            },
        }
    }
}

/// What a method descriptor says: `(`, the parameter types, `)`, and the
/// result type, where `V` stands for no result. `None` where `s` is not
/// written so.
pub open spec fn parse_method_descriptor(s: Seq<char>) -> Option<MethodDescriptorView> {
    if s.len() == 0 || s[0] != '(' {
        None
    } else {
        match parse_arguments(s, 1, Seq::empty()) {
            None => None,
            Some((args, close)) => if close + 2 == s.len() && s[close + 1] == 'V' {
                Some(MethodDescriptorView { args, ret: ValueTypeView::Void })
            } else {
                match parse_field_type(s, close + 1) {
                    None => None,
                    Some((ret, end)) => if end == s.len() {
                        Some(MethodDescriptorView { args, ret })
                    } else {
                        None
                    },
                }
            },
        }
    }
}

fn primary_for(c: char) -> (r: Option<PrimaryType>)
    ensures
        r == primary_of(c),
{
    if c == 'B' {
        Some(PrimaryType::Byte)
    } else if c == 'C' {
        Some(PrimaryType::Char)
    } else if c == 'D' {
        Some(PrimaryType::Double)
    } else if c == 'F' {
        Some(PrimaryType::Float)
    } else if c == 'I' {
        Some(PrimaryType::Int)
    } else if c == 'J' {
        Some(PrimaryType::Long)
    } else if c == 'S' {
        Some(PrimaryType::Short)
    } else if c == 'Z' {
        Some(PrimaryType::Boolean)
    } else {
        None
    }
}

proof fn lemma_array_depth_bound(s: Seq<char>, i: int)
    requires
        0 <= i <= s.len(),
    ensures
        i + array_depth(s, i) <= s.len(),
        i + array_depth(s, i) < s.len() ==> s[i + array_depth(s, i)] != '[',
    decreases s.len() - i,
{
    if i < s.len() && s[i] == '[' {
        lemma_array_depth_bound(s, i + 1);
    }
}

proof fn lemma_name_end_bound(s: Seq<char>, i: int)
    requires
        0 <= i <= s.len(),
    ensures
        i <= name_end(s, i) <= s.len(),
    decreases s.len() - i,
{
    if i < s.len() && s[i] != ';' {
        lemma_name_end_bound(s, i + 1);
    }
}

impl MethodDescriptor {
    /// The type for a primitive element and the array dimensions counted
    /// so far; the count starts again at zero.
    pub fn construct_primary_type(array_count: &mut usize, value_type: PrimaryType) -> (r:
        ValueType)
        ensures
            r@ == primary_type_of(value_type, *old(array_count) as nat),
            *final(array_count) == 0,
    {
        if *array_count > 0 {
            let primary_array = ValueType::PrimaryArray(value_type, *array_count);
            *array_count = 0;
            primary_array
        } else {
            ValueType::Primary(value_type)
        }
    }

    /// The type for a class name and the array dimensions counted so far;
    /// the count starts again at zero.
    pub fn construct_object_type(array_count: &mut usize, class_name: String) -> (r: ValueType)
        ensures
            r@ == object_type_of(class_name@, *old(array_count) as nat),
            *final(array_count) == 0,
    {
        if *array_count > 0 {
            let object_array = ValueType::ObjectArray(class_name, *array_count);
            *array_count = 0;
            object_array
        } else {
            ValueType::Object(class_name)
        }
    }

    /// Reads the type written at `i` of `text`, whose characters are `chars`.
    fn read_field_type(text: &str, chars: &Vec<char>, i: usize) -> (r: Option<(ValueType, usize)>)
        requires
            chars@ == text@,
            i <= chars.len(),
        ensures
            match parse_field_type(text@, i as int) {
                None => r is None,
                Some((t, end)) => r matches Some(found) && found.0@ == t && found.1 == end && i
                    < end <= text@.len(),
            },
    {
        let mut j: usize = i;
        let mut array_count: usize = 0;
        while j < chars.len() && chars[j] == '['
            invariant
                i <= j <= chars.len(),
                chars@ == text@,
                array_count == j - i,
                array_depth(text@, i as int) == array_count + array_depth(text@, j as int),
            decreases chars.len() - j,
        {
            j += 1;
            array_count += 1;
        }
        if j >= chars.len() {
            return None;
        }
        let c = chars[j];
        if let Some(t) = primary_for(c) {
            let value_type = Self::construct_primary_type(&mut array_count, t);
            return Some((value_type, j + 1));
        }
        if c != 'L' {
            return None;
        }
        let start: usize = j + 1;
        let mut end: usize = start;
        while end < chars.len() && chars[end] != ';'
            invariant
                start <= end <= chars.len(),
                chars@ == text@,
                name_end(text@, start as int) == name_end(text@, end as int),
            decreases chars.len() - end,
        {
            end += 1;
        }
        if end >= chars.len() {
            return None;
        }
        let class_name = text.substring_char(start, end).to_owned();
        let value_type = Self::construct_object_type(&mut array_count, class_name);
        Some((value_type, end + 1))
    }

    /// Parses a method descriptor. A text that is not a descriptor is
    /// refused with `ValueTypeMissMatch`.
    pub fn new(descriptor: &str) -> (r: VmExecResult<MethodDescriptor>)
        ensures
            match parse_method_descriptor(descriptor@) {
                Some(d) => r is Ok && r->Ok_0@ == d,
                None => r is Err && r->Err_0 == VmError::ValueTypeMissMatch,
            },
    {
        let chars = chars_of(descriptor);
        if chars.len() == 0 || chars[0] != '(' {
            return Err(VmError::ValueTypeMissMatch);
        }
        let mut args: Vec<ValueType> = Vec::new();
        let mut i: usize = 1;
        proof {
            lemma_views_empty::<ValueType>();
        }
        loop
            invariant
                1 <= i <= chars.len(),
                chars@ == descriptor@,
                parse_arguments(descriptor@, 1, Seq::empty()) == parse_arguments(
                    descriptor@,
                    i as int,
                    views(args@),
                ),
            ensures
                i < chars.len(),
                parse_arguments(descriptor@, 1, Seq::empty()) == Some((views(args@), i as int)),
            decreases chars.len() - i,
        {
            if i >= chars.len() {
                return Err(VmError::ValueTypeMissMatch);
            }
            if chars[i] == ')' {
                break ;
            }
            match Self::read_field_type(descriptor, &chars, i) {
                None => {
                    return Err(VmError::ValueTypeMissMatch);
                },
                Some((t, next)) => {
                    proof {
                        lemma_views_push(args@, t);
                    }
                    args.push(t);
                    i = next;
                },
            }
        }
        if chars.len() - i == 2 && chars[i + 1] == 'V' {
            return Ok(MethodDescriptor { args, ret: ValueType::Void });
        }
        match Self::read_field_type(descriptor, &chars, i + 1) {
            None => Err(VmError::ValueTypeMissMatch),
            Some((ret, end)) => {
                if end == chars.len() {
                    Ok(MethodDescriptor { args, ret })
                } else {
                    Err(VmError::ValueTypeMissMatch)
                }
            },
        }
    }
}

pub struct RuntimeMethodInfo {
    pub access_flags: MethodAccessFlags,
    pub name: String,
    pub descriptor: String,
    pub descriptor_args_ret: MethodDescriptor,
    /// The code of the method; native and abstract methods have none.
    pub code: Option<CodeAttribute>,
    pub exception: Vec<String>,
}

pub struct RuntimeMethodView {
    pub access_flags: u16,
    pub name: Seq<char>,
    pub descriptor: Seq<char>,
    pub descriptor_args_ret: MethodDescriptorView,
    pub code: Option<CodeView>,
    pub exception: Seq<Seq<char>>,
}

impl View for RuntimeMethodInfo {
    type V = RuntimeMethodView;

    open spec fn view(&self) -> RuntimeMethodView {
        RuntimeMethodView {
            access_flags: self.access_flags@,
            name: self.name@,
            descriptor: self.descriptor@,
            descriptor_args_ret: self.descriptor_args_ret@,
            code: match self.code {
                Some(c) => Some(c@),
                None => None,
            },
            exception: views(self.exception@),
        }
    }
}

/// The code and the declared exceptions that the attributes
/// `attributes[from..]` give a method that has `code` and `thrown` so far:
/// each `Code` and each `Exceptions` attribute replaces what came before.
pub open spec fn method_attributes_from(
    attributes: Seq<AttributeInfoView>,
    from: int,
    code: Option<CodeView>,
    thrown: Seq<Seq<char>>,
    pool: Seq<Option<RuntimeConstantView>>,
) -> Result<(Option<CodeView>, Seq<Seq<char>>), VmError>
    decreases attributes.len() - from,
{
    if from < 0 || from >= attributes.len() {
        Ok((code, thrown))
    } else {
        match attributes[from].name {
            AttributeKind::Code => match parse_code(attributes[from].info, pool) {
                Err(e) => Err(VmError::ReadClassBytesError(e)),
                Ok(c) => method_attributes_from(attributes, from + 1, Some(c), thrown, pool),
            },
            AttributeKind::Exceptions => match parse_thrown(attributes[from].info, pool) {
                Err(e) => Err(VmError::ReadClassBytesError(e)),
                Ok(t) => method_attributes_from(attributes, from + 1, code, t, pool),
            },
            _ => method_attributes_from(attributes, from + 1, code, thrown, pool),
        }
    }
}

/// The run-time method for a method of a class file, or the first fault:
/// in its attributes, then in its descriptor.
pub open spec fn runtime_method(method: MemberView, pool: Seq<Option<RuntimeConstantView>>) -> Result<
    RuntimeMethodView,
    VmError,
> {
    match method_attributes_from(method.attributes, 0, None, Seq::empty(), pool) {
        Err(e) => Err(e),
        Ok((code, exception)) => match parse_method_descriptor(method.descriptor) {
            None => Err(VmError::ValueTypeMissMatch),
            Some(descriptor_args_ret) => Ok(
                RuntimeMethodView {
                    access_flags: method.access_flags,
                    name: method.name,
                    descriptor: method.descriptor,
                    descriptor_args_ret,
                    code,
                    exception,
                },
            ),
        },
    }
}

impl RuntimeMethodInfo {
    pub fn is_native(&self) -> (r: bool)
        ensures
            r == has_flag(self@.access_flags, ACC_NATIVE),
    {
        self.access_flags.contains(ACC_NATIVE)
    }

    pub fn is_static(&self) -> (r: bool)
        ensures
            r == has_flag(self@.access_flags, ACC_STATIC),
    {
        self.access_flags.contains(ACC_STATIC)
    }

    pub fn is_class_init_method(&self) -> (r: bool)
        ensures
            r == (has_flag(self@.access_flags, ACC_STATIC) && self@.name == "<clinit>"@),
    {
        self.access_flags.contains(ACC_STATIC) && str_eq(self.name.as_str(), "<clinit>")
    }

    pub fn is_init_method(&self) -> (r: bool)
        ensures
            r == (has_flag(self@.access_flags, ACC_STATIC) && self@.name == "<init>"@),
    {
        self.access_flags.contains(ACC_STATIC) && str_eq(self.name.as_str(), "<init>")
    }

    pub fn from(method_info: MethodInfo, cp: &RuntimeConstantPool) -> (r: VmExecResult<
        RuntimeMethodInfo,
    >)
        ensures
            match runtime_method(method_info@, cp@) {
                Ok(m) => r is Ok && r->Ok_0@ == m,
                Err(e) => r is Err && r->Err_0 == e,
            },
    {
        let mut code: Option<CodeAttribute> = None;
        let mut exception: Vec<String> = Vec::new();
        proof {
            lemma_views_empty::<String>();
        }
        let ghost attributes = method_info@.attributes;
        let mut i: usize = 0;
        while i < method_info.attributes.len()
            invariant
                i <= method_info.attributes.len(),
                attributes == method_info@.attributes,
                attributes.len() == method_info.attributes.len(),
                method_attributes_from(attributes, 0, None, Seq::empty(), cp@)
                    == method_attributes_from(
                    attributes,
                    i as int,
                    match code {
                        Some(c) => Some(c@),
                        None => None,
                    },
                    views(exception@),
                    cp@,
                ),
            decreases method_info.attributes.len() - i,
        {
            let attr = &method_info.attributes[i];
            assert(attributes[i as int] == attr@);
            match attr.name {
                AttributeType::Code => {
                    code = Some(get_attr_as_code(&attr.info, cp)?);
                },
                AttributeType::Exceptions => {
                    exception = get_attr_as_exception(&attr.info, cp)?;
                },
                _ => {},
            }
            i += 1;
        }
        let descriptor_args_ret = MethodDescriptor::new(method_info.descriptor.as_str())?;
        Ok(
            RuntimeMethodInfo {
                access_flags: method_info.access_flags,
                name: method_info.name,
                descriptor: method_info.descriptor,
                descriptor_args_ret,
                code,
                exception,
            },
        )
    }
}

/// The name and the descriptor by which a method is found in its class.
#[derive(Clone, Copy)]
pub struct MethodKey<'a>(pub &'a str, pub &'a str);

impl<'a> MethodKey<'a> {
    pub fn new(name: &'a str, descriptor: &'a str) -> (r: MethodKey<'a>)
        ensures
            r.0@ == name@,
            r.1@ == descriptor@,
    {
        MethodKey(name, descriptor)
    }

    /// The key of `method`.
    pub fn by_method(method: &'a RuntimeMethodInfo) -> (r: MethodKey<'a>)
        ensures
            r.0@ == method@.name,
            r.1@ == method@.descriptor,
    {
        MethodKey(method.name.as_str(), method.descriptor.as_str())
    }

    /// Whether `method` has this name and this descriptor.
    pub fn matches(&self, method: &RuntimeMethodInfo) -> (r: bool)
        ensures
            r == (self.0@ == method@.name && self.1@ == method@.descriptor),
    {
        str_eq(self.0, method.name.as_str()) && str_eq(self.1, method.descriptor.as_str())
    }
}

} // verus!
