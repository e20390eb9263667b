//! The static area: the static fields of the classes, and the interned
//! strings and class mirrors with the heap that holds them.
use vstd::prelude::*;
use crate::jvm_values::{ObjectReference, Value};
use crate::loaded_class::ClassRef;
use crate::object_heap::ObjectHeap;
use crate::text::str_eq;

verus! {

/// A static field with its value.
pub struct StaticField {
    pub class: ClassRef,
    pub name: String,
    pub value: Value,
}

/// An interned object with the text that it stands for.
pub struct Interned {
    pub text: String,
    pub object: ObjectReference,
}

/// The value of the first field of `fields[from..]` that belongs to
/// `class` and is called `name`.
pub open spec fn static_value(fields: Seq<StaticField>, class: ClassRef, name: Seq<char>, from: int) -> Option<
    Value,
>
    decreases fields.len() - from,
{
    if from < 0 || from >= fields.len() {
        None
    } else if fields[from].class == class && fields[from].name@ == name {
        Some(fields[from].value)
    } else {
        static_value(fields, class, name, from + 1)
    }
}

/// The object of the first entry of `pool[from..]` that stands for `text`.
pub open spec fn interned(pool: Seq<Interned>, text: Seq<char>, from: int) -> Option<
    ObjectReference,
>
    decreases pool.len() - from,
{
    if from < 0 || from >= pool.len() {
        None
    } else if pool[from].text@ == text {
        Some(pool[from].object)
    } else {
        interned(pool, text, from + 1)
    }
}

/// An entry that is added behind a pool is found only where nothing
/// before it stands for the same text, and changes no other lookup.
pub proof fn lemma_interned_push(pool: Seq<Interned>, entry: Interned, text: Seq<char>, from: int)
    requires
        0 <= from <= pool.len(),
    ensures
        interned(pool.push(entry), text, from) == (match interned(pool, text, from) {
            Some(object) => Some(object),
            None => if entry.text@ == text {
                Some(entry.object)
            } else {
                None
            },
        }),
    decreases pool.len() - from,
{
    let longer = pool.push(entry);
    if from < pool.len() {
        assert(longer[from] == pool[from]);
        if pool[from].text@ != text {
            lemma_interned_push(pool, entry, text, from + 1);
        }
    } else {
        assert(longer[from] == entry);
        assert(interned(longer, text, from + 1) is None);
    }
}

proof fn lemma_static_push(
    fields: Seq<StaticField>,
    field: StaticField,
    class: ClassRef,
    name: Seq<char>,
    from: int,
)
    requires
        0 <= from <= fields.len(),
    ensures
        static_value(fields.push(field), class, name, from) == (match static_value(
            fields,
            class,
            name,
            from,
        ) {
            Some(value) => Some(value),
            None => if field.class == class && field.name@ == name {
                Some(field.value)
            } else {
                None
            },
        }),
    decreases fields.len() - from,
{
    let longer = fields.push(field);
    if from < fields.len() {
        assert(longer[from] == fields[from]);
        if !(fields[from].class == class && fields[from].name@ == name) {
            lemma_static_push(fields, field, class, name, from + 1);
        }
    } else {
        assert(longer[from] == field);
        assert(static_value(longer, class, name, from + 1) is None);
    }
}

proof fn lemma_static_update(
    fields: Seq<StaticField>,
    at: int,
    field: StaticField,
    class: ClassRef,
    name: Seq<char>,
    from: int,
)
    requires
        0 <= from <= fields.len(),
        0 <= at < fields.len(),
        fields[at].class == field.class,
        fields[at].name@ == field.name@,
        forall|k: int| 0 <= k < at ==> !(fields[k].class == field.class && fields[k].name@
            == field.name@),
    ensures
        static_value(fields.update(at, field), class, name, from) == (if class == field.class
            && name == field.name@ && from <= at {
            Some(field.value)
        } else {
            static_value(fields, class, name, from)
        }),
    decreases fields.len() - from,
{
    let changed = fields.update(at, field);
    if from < fields.len() {
        if from == at {
            assert(changed[from] == field);
            if !(class == field.class && name == field.name@) {
                lemma_static_update(fields, at, field, class, name, from + 1);
            }
        } else {
            assert(changed[from] == fields[from]);
            lemma_static_update(fields, at, field, class, name, from + 1);
        }
    }
}

pub struct StaticArea {
    pub fields: Vec<StaticField>,
    pub static_object_heap: ObjectHeap,
    pub string_constant_pool: Vec<Interned>,
    pub class_constant_pool: Vec<Interned>,
}

impl StaticArea {
    /// The invariant of the static area.
    pub open spec fn wf(&self) -> bool {
        &&& self.static_object_heap.wf()
        &&& self.static_object_heap.region() == crate::object_heap::STATIC_REGION
    }

    /// The value of the static field `name` of `class`, if it has one.
    pub open spec fn value_of(&self, class: ClassRef, name: Seq<char>) -> Option<Value> {
        static_value(self.fields@, class, name, 0)
    }

    /// The string object interned for `text`, if there is one.
    pub open spec fn string_of(&self, text: Seq<char>) -> Option<ObjectReference> {
        interned(self.string_constant_pool@, text, 0)
    }

    /// The class mirror interned for the class called `name`, if there
    /// is one.
    pub open spec fn mirror_of(&self, name: Seq<char>) -> Option<ObjectReference> {
        interned(self.class_constant_pool@, name, 0)
    }

    pub fn new(static_heap_size: usize) -> (r: StaticArea)
        ensures
            r.wf(),
            r.static_object_heap.words().len() == 0,
            r.static_object_heap.limit() == static_heap_size,
            forall|class: ClassRef, name: Seq<char>| r.value_of(class, name) is None,
            forall|text: Seq<char>| r.string_of(text) is None,
            forall|name: Seq<char>| r.mirror_of(name) is None,
    {
        StaticArea {
            fields: Vec::new(),
            static_object_heap: ObjectHeap::new_static(static_heap_size),
            string_constant_pool: Vec::new(),
            class_constant_pool: Vec::new(),
        }
    }

    /// Allocates an object of `class_ref`, which has
    /// `total_num_of_fields` slots, on the heap of the static area.
    pub fn new_object(&mut self, class_ref: ClassRef, total_num_of_fields: usize) -> (r: Option<
        ObjectReference,
    >)
        requires
            old(self).wf(),
        ensures
            final(self).wf(),
            final(self).static_object_heap.limit() == old(self).static_object_heap.limit(),
            final(self).fields == old(self).fields,
            final(self).string_constant_pool == old(self).string_constant_pool,
            final(self).class_constant_pool == old(self).class_constant_pool,
            old(self).static_object_heap.object_fits(total_num_of_fields as int) ==> (r matches Some(
                object,
            ) && object.address == 8 * old(self).static_object_heap.words().len() + 8
                + crate::object_heap::STATIC_REGION) && final(self).static_object_heap.words()
                == old(self).static_object_heap.words() + seq![
                crate::jvm_values::header_word(
                    crate::jvm_values::ReferenceValueType::Object,
                    16 + 8 * total_num_of_fields,
                ),
                class_ref as u64,
            ] + crate::object_heap::zeros(total_num_of_fields as int),
            !old(self).static_object_heap.object_fits(total_num_of_fields as int) ==> r is None
                && final(self).static_object_heap.words() == old(self).static_object_heap.words(),
    {
        self.static_object_heap.allocate_object(class_ref, total_num_of_fields)
    }

    pub fn get_static_field(&self, class_ref: ClassRef, field_name: &str) -> (r: Option<Value>)
        ensures
            r == self.value_of(class_ref, field_name@),
    {
        let mut i: usize = 0;
        while i < self.fields.len()
            invariant
                i <= self.fields.len(),
                static_value(self.fields@, class_ref, field_name@, 0) == static_value(
                    self.fields@,
                    class_ref,
                    field_name@,
                    i as int,
                ),
            decreases self.fields.len() - i,
        {
            let field = &self.fields[i];
            if field.class == class_ref && str_eq(field.name.as_str(), field_name) {
                return Some(field.value);
            }
            i += 1;
        }
        None
    }

    /// Gives the static field `field_name` of `class_ref` the value
    /// `value`. No other static field changes.
    pub fn set_static_field(&mut self, class_ref: ClassRef, field_name: &str, value: Value)
        requires
            old(self).wf(),
        ensures
            final(self).wf(),
            final(self).static_object_heap == old(self).static_object_heap,
            final(self).string_constant_pool == old(self).string_constant_pool,
            final(self).class_constant_pool == old(self).class_constant_pool,
            final(self).value_of(class_ref, field_name@) == Some(value),
            forall|class: ClassRef, name: Seq<char>|
                !(class == class_ref && name == field_name@) ==> final(self).value_of(class, name)
                    == old(self).value_of(class, name),
            forall|text: Seq<char>| final(self).string_of(text) == old(self).string_of(text),
            forall|name: Seq<char>| final(self).mirror_of(name) == old(self).mirror_of(name),
    {
        let ghost before = self.fields@;
        let field = StaticField { class: class_ref, name: field_name.to_owned(), value };
        let mut i: usize = 0;
        while i < self.fields.len()
            invariant
                i <= self.fields.len(),
                self.fields@ == before,
                before == old(self).fields@,
                self.wf(),
                self.static_object_heap == old(self).static_object_heap,
                self.string_constant_pool == old(self).string_constant_pool,
                self.class_constant_pool == old(self).class_constant_pool,
                field.class == class_ref,
                field.name@ == field_name@,
                field.value == value,
                forall|k: int|
                    0 <= k < i ==> !(before[k].class == class_ref && before[k].name@
                        == field_name@),
            decreases self.fields.len() - i,
        {
            if self.fields[i].class == class_ref && str_eq(
                self.fields[i].name.as_str(),
                field_name,
            ) {
                self.fields.set(i, field);
                proof {
                    assert forall|class: ClassRef, name: Seq<char>|
                        static_value(self.fields@, class, name, 0) == (if class == class_ref
                            && name == field_name@ {
                            Some(value)
                        } else {
                            static_value(before, class, name, 0)
                        }) by {
                        lemma_static_update(before, i as int, field, class, name, 0);
                    }
                }
                return ;
            }
            i += 1;
        }
        self.fields.push(field);
        proof {
            assert forall|class: ClassRef, name: Seq<char>|
                static_value(self.fields@, class, name, 0) == (if class == class_ref && name
                    == field_name@ {
                    Some(value)
                } else {
                    static_value(before, class, name, 0)
                }) by {
                lemma_static_push(before, field, class, name, 0);
                lemma_no_static(before, class_ref, field_name@, 0);
            }
        }
    }

    /// The string object interned for `text`.
    pub fn find_string(&self, text: &str) -> (r: Option<ObjectReference>)
        ensures
            r == self.string_of(text@),
    {
        find_interned(&self.string_constant_pool, text)
    }

    /// The class mirror interned for the class called `name`.
    pub fn find_mirror(&self, name: &str) -> (r: Option<ObjectReference>)
        ensures
            r == self.mirror_of(name@),
    {
        find_interned(&self.class_constant_pool, name)
    }

    /// Interns `object` as the string object for `text`, unless a string
    /// object is interned for it already.
    pub fn intern_string(&mut self, text: &str, object: ObjectReference)
        requires
            old(self).wf(),
        ensures
            final(self).wf(),
            final(self).static_object_heap == old(self).static_object_heap,
            final(self).fields == old(self).fields,
            final(self).class_constant_pool == old(self).class_constant_pool,
            final(self).string_of(text@) == (match old(self).string_of(text@) {
                Some(known) => Some(known),
                None => Some(object),
            }),
            forall|other: Seq<char>|
                other != text@ ==> final(self).string_of(other) == old(self).string_of(other),
            forall|name: Seq<char>| final(self).mirror_of(name) == old(self).mirror_of(name),
            forall|class: ClassRef, name: Seq<char>|
                final(self).value_of(class, name) == old(self).value_of(class, name),
    {
        let ghost before = self.string_constant_pool@;
        let entry = Interned { text: text.to_owned(), object };
        self.string_constant_pool.push(entry);
        proof {
            assert forall|other: Seq<char>|
                interned(self.string_constant_pool@, other, 0) == (match interned(
                    before,
                    other,
                    0,
                ) {
                    Some(known) => Some(known),
                    None => if entry.text@ == other {
                        Some(entry.object)
                    } else {
                        None
                    },
                }) by {
                lemma_interned_push(before, entry, other, 0);
            }
        }
    }

    /// Interns `object` as the mirror of the class called `name`, unless
    /// a mirror is interned for it already.
    pub fn intern_mirror(&mut self, name: &str, object: ObjectReference)
        requires
            old(self).wf(),
        ensures
            final(self).wf(),
            final(self).static_object_heap == old(self).static_object_heap,
            final(self).fields == old(self).fields,
            final(self).string_constant_pool == old(self).string_constant_pool,
            final(self).mirror_of(name@) == (match old(self).mirror_of(name@) {
                Some(known) => Some(known),
                None => Some(object),
            }),
            forall|other: Seq<char>|
                other != name@ ==> final(self).mirror_of(other) == old(self).mirror_of(other),
            forall|text: Seq<char>| final(self).string_of(text) == old(self).string_of(text),
            forall|class: ClassRef, field: Seq<char>|
                final(self).value_of(class, field) == old(self).value_of(class, field),
    {
        let ghost before = self.class_constant_pool@;
        let entry = Interned { text: name.to_owned(), object };
        self.class_constant_pool.push(entry);
        proof {
            assert forall|other: Seq<char>|
                interned(self.class_constant_pool@, other, 0) == (match interned(before, other, 0) {
                    Some(known) => Some(known),
                    None => if entry.text@ == other {
                        Some(entry.object)
                    } else {
                        None
                    },
                }) by {
                lemma_interned_push(before, entry, other, 0);
            }
        }
    }
}

fn find_interned(pool: &Vec<Interned>, text: &str) -> (r: Option<ObjectReference>)
    ensures
        r == interned(pool@, text@, 0),
{
    let mut i: usize = 0;
    while i < pool.len()
        invariant
            i <= pool.len(),
            interned(pool@, text@, 0) == interned(pool@, text@, i as int),
        decreases pool.len() - i,
    {
        if str_eq(pool[i].text.as_str(), text) {
            return Some(pool[i].object);
        }
        i += 1;
    }
    None
}

proof fn lemma_no_static(fields: Seq<StaticField>, class: ClassRef, name: Seq<char>, from: int)
    requires
        0 <= from,
        forall|k: int| from <= k < fields.len() ==> !(fields[k].class == class && fields[k].name@
            == name),
    ensures
        static_value(fields, class, name, from) is None,
    decreases fields.len() - from,
{
    if from < fields.len() {
        lemma_no_static(fields, class, name, from + 1);
    }
}

} // verus!
