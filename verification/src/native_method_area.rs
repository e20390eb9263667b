//! The registry of the methods that the host implements.
use vstd::prelude::*;
use vstd::string::StringExecFns;
use crate::text::str_eq;

verus! {

/// The methods that the host implements.
#[derive(Debug, Clone, Copy, PartialEq, Eq, Structural)]
pub enum NativeMethod {
    /// Does nothing and returns nothing.
    Nop,
    /// `sun/misc/Unsafe.arrayBaseOffset`, which is not implemented.
    ArrayBaseOffset,
    /// Returns an integer that stays the same for the receiver.
    HashCode,
    /// Returns 1.
    DesiredAssertionStatus0,
    /// Copies elements from one array to another.
    ArrayCopy,
    /// Returns the mirror of the class for a primitive type name.
    GetPrimitiveClass,
    /// Runs the method that sets up `java/lang/System`.
    SystemRegisterNative,
    /// A method that the host implements, under a number that the host
    /// has given it: the machine hands the call to the host.
    Host(u32),
}

/// A native method under the key by which it is found.
pub struct Registered {
    pub key: String,
    pub method: NativeMethod,
}

/// The key of a native method: the class, a colon, the method name, and
/// the descriptor.
pub open spec fn native_key(class_name: Seq<char>, method_name: Seq<char>, descriptor: Seq<char>) -> Seq<
    char,
> {
    class_name + ":"@ + method_name + descriptor
}

/// The method of the last entry of `entries[..upto]` with the key `key`.
pub open spec fn registered(entries: Seq<Registered>, key: Seq<char>, upto: int) -> Option<
    NativeMethod,
>
    decreases upto,
{
    if upto <= 0 || upto > entries.len() {
        None
    } else if entries[upto - 1].key@ == key {
        Some(entries[upto - 1].method)
    } else {
        registered(entries, key, upto - 1)
    }
}

pub struct NativeMethodArea {
    pub native_methods: Vec<Registered>,
}

fn make_key(class_name: &str, method_name: &str, descriptor: &str) -> (r: String)
    ensures
        r@ == native_key(class_name@, method_name@, descriptor@),
{
    let mut key = class_name.to_owned();
    key.append(":");
    key.append(method_name);
    key.append(descriptor);
    key
}

/// The native methods that every machine has, in the order in which
/// they are registered.
pub open spec fn default_natives() -> Seq<(Seq<char>, NativeMethod)> {
    seq![
        (
            native_key("java/lang/System"@, "registerNatives"@, "()V"@),
            NativeMethod::SystemRegisterNative,
        ),
        (
            native_key(
                "java/lang/Class"@,
                "getPrimitiveClass"@,
                "(Ljava/lang/String;)Ljava/lang/Class;"@,
            ),
            NativeMethod::GetPrimitiveClass,
        ),
        (
            native_key("java/lang/Class"@, "desiredAssertionStatus0"@, "(Ljava/lang/Class;)Z"@),
            NativeMethod::DesiredAssertionStatus0,
        ),
        (native_key("java/lang/Class"@, "hashCode"@, "()I"@), NativeMethod::HashCode),
        (native_key("java/lang/Class"@, "registerNatives"@, "()V"@), NativeMethod::Nop),
        (native_key("sun/misc/Unsafe"@, "registerNatives"@, "()V"@), NativeMethod::Nop),
        (
            native_key("sun/misc/Unsafe"@, "arrayBaseOffset"@, "(Ljava/lang/Class;)I"@),
            NativeMethod::ArrayBaseOffset,
        ),
        (native_key("java/lang/Object"@, "registerNatives"@, "()V"@), NativeMethod::Nop),
        (
            native_key(
                "java/lang/System"@,
                "arraycopy"@,
                "(Ljava/lang/Object;ILjava/lang/Object;II)V"@,
            ),
            NativeMethod::ArrayCopy,
        ),
    ]
}

impl View for NativeMethodArea {
    type V = Seq<(Seq<char>, NativeMethod)>;

    /// The keys with their methods, in the order of registration.
    open spec fn view(&self) -> Seq<(Seq<char>, NativeMethod)> {
        Seq::new(
            self.native_methods@.len(),
            |i: int| (self.native_methods@[i].key@, self.native_methods@[i].method),
        )
    }
}

impl NativeMethodArea {
    /// The native method registered for a class, a method name and a
    /// descriptor; the one registered last, where several are.
    pub open spec fn method_of(
        &self,
        class_name: Seq<char>,
        method_name: Seq<char>,
        descriptor: Seq<char>,
    ) -> Option<NativeMethod> {
        registered(
            self.native_methods@,
            native_key(class_name, method_name, descriptor),
            self.native_methods@.len() as int,
        )
    }

    /// A registry without methods.
    pub fn new() -> (r: NativeMethodArea)
        ensures
            r@ == Seq::<(Seq<char>, NativeMethod)>::empty(),
    {
        let r = NativeMethodArea { native_methods: Vec::new() };
        assert(r@ =~= Seq::<(Seq<char>, NativeMethod)>::empty());
        r
    }

    /// The registry with the native methods that every machine has.
    pub fn new_with_default_native() -> (r: NativeMethodArea)
        ensures
            r@ == default_natives(),
    {
        let mut area = NativeMethodArea::new();
        area.registry_native_method(
            "java/lang/System",
            "registerNatives",
            "()V",
            NativeMethod::SystemRegisterNative,
        );
        area.registry_native_method(
            "java/lang/Class",
            "getPrimitiveClass",
            "(Ljava/lang/String;)Ljava/lang/Class;",
            NativeMethod::GetPrimitiveClass,
        );
        area.registry_native_method(
            "java/lang/Class",
            "desiredAssertionStatus0",
            "(Ljava/lang/Class;)Z",
            NativeMethod::DesiredAssertionStatus0,
        );
        area.registry_native_method("java/lang/Class", "hashCode", "()I", NativeMethod::HashCode);
        area.registry_native_method("java/lang/Class", "registerNatives", "()V", NativeMethod::Nop);
        area.registry_native_method("sun/misc/Unsafe", "registerNatives", "()V", NativeMethod::Nop);
        area.registry_native_method(
            "sun/misc/Unsafe",
            "arrayBaseOffset",
            "(Ljava/lang/Class;)I",
            NativeMethod::ArrayBaseOffset,
        );
        area.registry_native_method(
            "java/lang/Object",
            "registerNatives",
            "()V",
            NativeMethod::Nop,
        );
        area.registry_native_method(
            "java/lang/System",
            "arraycopy",
            "(Ljava/lang/Object;ILjava/lang/Object;II)V",
            NativeMethod::ArrayCopy,
        );
        assert(area@ =~= default_natives());
        area
    }

    /// Registers `method` for a class, a method name and a descriptor.
    /// It replaces what was registered for them before.
    pub fn registry_native_method(
        &mut self,
        class_name: &str,
        method_name: &str,
        method_descriptor: &str,
        method: NativeMethod,
    )
        ensures
            final(self)@ == old(self)@.push(
                (native_key(class_name@, method_name@, method_descriptor@), method),
            ),
            final(self).method_of(class_name@, method_name@, method_descriptor@) == Some(method),
            forall|c: Seq<char>, m: Seq<char>, d: Seq<char>|
                native_key(c, m, d) != native_key(class_name@, method_name@, method_descriptor@)
                    ==> final(self).method_of(c, m, d) == old(self).method_of(c, m, d),
    {
        let key = make_key(class_name, method_name, method_descriptor);
        let ghost before = self.native_methods@;
        self.native_methods.push(Registered { key, method });
        assert(self@ =~= old(self)@.push(
            (native_key(class_name@, method_name@, method_descriptor@), method),
        ));
        proof {
            let after = self.native_methods@;
            assert forall|c: Seq<char>, m: Seq<char>, d: Seq<char>|
                native_key(c, m, d) != native_key(
                    class_name@,
                    method_name@,
                    method_descriptor@,
                ) implies registered(after, native_key(c, m, d), after.len() as int) == registered(
                before,
                native_key(c, m, d),
                before.len() as int,
            ) by {
                lemma_registered_prefix(before, after, native_key(c, m, d), before.len() as int);
            }
        }
    }

    /// The native method registered for a class, a method name and a
    /// descriptor.
    pub fn get_method(&self, class_name: &str, method_name: &str, method_descriptor: &str) -> (r:
        Option<NativeMethod>)
        ensures
            r == self.method_of(class_name@, method_name@, method_descriptor@),
    {
        let key = make_key(class_name, method_name, method_descriptor);
        let mut i: usize = self.native_methods.len();
        while i > 0
            invariant
                i <= self.native_methods.len(),
                key@ == native_key(class_name@, method_name@, method_descriptor@),
                registered(self.native_methods@, key@, self.native_methods@.len() as int)
                    == registered(self.native_methods@, key@, i as int),
            decreases i,
        {
            if str_eq(self.native_methods[i - 1].key.as_str(), key.as_str()) {
                return Some(self.native_methods[i - 1].method);
            }
            i -= 1;
        }
        None
    }
}

proof fn lemma_registered_prefix(
    before: Seq<Registered>,
    after: Seq<Registered>,
    key: Seq<char>,
    upto: int,
)
    requires
        0 <= upto <= before.len() <= after.len(),
        forall|i: int| 0 <= i < before.len() ==> after[i] == before[i],
        after.len() == before.len() + 1 ==> true,
    ensures
        registered(after, key, upto) == registered(before, key, upto),
    decreases upto,
{
    if upto > 0 && before[upto - 1].key@ != key {
        lemma_registered_prefix(before, after, key, upto - 1);
    }
}


} // verus!
