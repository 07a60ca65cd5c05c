use vstd::prelude::*;
use vstd::string::StringSliceAdditionalSpecFns;

use crate::call::{call_ok, call_spec, HostCall};
use crate::handle::NO_OBJECT;
use crate::interop::{nul_free, values_of, Arg, MarshalError, Value};

verus! {

/// Shows text `$0` in a dialog.
pub const ALERT_SCRIPT: &'static str = "alert(UTF8ToString($0));";

/// Returns the number of stored items.
pub const STORAGE_LEN_SCRIPT: &'static str = "return window.localStorage.length;";

/// Removes every stored item.
pub const STORAGE_CLEAR_SCRIPT: &'static str = "window.localStorage.clear();";

/// Removes the item named `$0`.
pub const STORAGE_REMOVE_SCRIPT: &'static str = "window.localStorage.removeItem(UTF8ToString($0));";

/// Stores `$1` under the name `$0`.
pub const STORAGE_SET_SCRIPT: &'static str = "window.localStorage.setItem(UTF8ToString($0), UTF8ToString($1));";

/// Returns the item named `$0` as a NUL-terminated text, or -1 where there is none.
pub const STORAGE_GET_SCRIPT: &'static str = "var str = window.localStorage.getItem(UTF8ToString($0));if (str == null) {return -1;}return allocate(intArrayFromString(str), 'i8', ALLOC_STACK);";

/// Returns the name of the `$0`-th item as a NUL-terminated text.
pub const STORAGE_KEY_SCRIPT: &'static str = "var key = window.localStorage.key($0);return allocate(intArrayFromString(key), 'i8', ALLOC_STACK);";

proof fn lemma_scripts_nul_free()
    ensures
        nul_free(ALERT_SCRIPT.spec_bytes()),
        nul_free(STORAGE_LEN_SCRIPT.spec_bytes()),
        nul_free(STORAGE_CLEAR_SCRIPT.spec_bytes()),
        nul_free(STORAGE_REMOVE_SCRIPT.spec_bytes()),
        nul_free(STORAGE_SET_SCRIPT.spec_bytes()),
        nul_free(STORAGE_GET_SCRIPT.spec_bytes()),
        nul_free(STORAGE_KEY_SCRIPT.spec_bytes()),
{
    reveal_strlit("alert(UTF8ToString($0));");
    reveal_strlit("return window.localStorage.length;");
    reveal_strlit("window.localStorage.clear();");
    reveal_strlit("window.localStorage.removeItem(UTF8ToString($0));");
    reveal_strlit("window.localStorage.setItem(UTF8ToString($0), UTF8ToString($1));");
    reveal_strlit("var str = window.localStorage.getItem(UTF8ToString($0));if (str == null) {return -1;}return allocate(intArrayFromString(str), 'i8', ALLOC_STACK);");
    reveal_strlit("var key = window.localStorage.key($0);return allocate(intArrayFromString(key), 'i8', ALLOC_STACK);");
    vstd::string::is_ascii_spec_bytes(ALERT_SCRIPT);
    vstd::string::is_ascii_spec_bytes(STORAGE_LEN_SCRIPT);
    vstd::string::is_ascii_spec_bytes(STORAGE_CLEAR_SCRIPT);
    vstd::string::is_ascii_spec_bytes(STORAGE_REMOVE_SCRIPT);
    vstd::string::is_ascii_spec_bytes(STORAGE_SET_SCRIPT);
    vstd::string::is_ascii_spec_bytes(STORAGE_GET_SCRIPT);
    vstd::string::is_ascii_spec_bytes(STORAGE_KEY_SCRIPT);
}

/// A guarded call of a script that takes one text.
fn guarded_text_call(script: &str, s: &str) -> (r: Result<HostCall, MarshalError>)
    requires
        nul_free(script.spec_bytes()),
    ensures
        r is Ok <==> nul_free(s.spec_bytes()),
        r matches Ok(c) ==> c@ == call_spec(true, script.spec_bytes(), seq![Value::Text(s.spec_bytes())]),
{
    let args = [Arg::Str(s)];
    assert(values_of(args@) =~= seq![Value::Text(s.spec_bytes())]);
    HostCall::guarded(script, &args)
}

/// A guarded call of a script that takes the words of `args` and cannot fail to be built.
fn guarded_fixed_call(script: &str, args: &[Arg]) -> (r: HostCall)
    requires
        nul_free(script.spec_bytes()),
        forall|i: int| 0 <= i < args@.len() ==> (#[trigger] args@[i].value() is Int),
    ensures
        r@ == call_spec(true, script.spec_bytes(), values_of(args@)),
{
    assert forall|i: int| 0 <= i < values_of(args@).len() implies crate::interop::representable(
        #[trigger] values_of(args@)[i],
    ) by {
        assert(values_of(args@)[i] == args@[i].value());
    }
    HostCall::guarded(script, args).unwrap()
}

/// The guarded call that shows `s` in a dialog.
pub fn alert(s: &str) -> (r: Result<HostCall, MarshalError>)
    ensures
        r is Ok <==> nul_free(s.spec_bytes()),
        r matches Ok(c) ==> c@ == call_spec(true, ALERT_SCRIPT.spec_bytes(), seq![Value::Text(s.spec_bytes())]),
{
    proof {
        lemma_scripts_nul_free();
    }
    guarded_text_call(ALERT_SCRIPT, s)
}

/// The system call that the runtime probes for, and the answer it gets.
pub const PROBED_SYSCALL: i32 = 355;

/// The answer to the probed system call.
pub const PROBED_SYSCALL_ANSWER: i32 = 55;

/// Answers the runtime's system calls: the probed one gets its answer, every other one
/// is reported as unsupported with -1.
pub fn syscall(a: i32) -> (r: i32)
    ensures
        a == PROBED_SYSCALL ==> r == PROBED_SYSCALL_ANSWER,
        a != PROBED_SYSCALL ==> r == -1,
{
    if a == PROBED_SYSCALL {
        PROBED_SYSCALL_ANSWER
    } else {
        -1
    }
}

/// The window's local storage.
pub struct LocalStorageInterface;

/// Walks the stored items by index.
pub struct LocalStorageIterator {
    pub index: i32,
}

/// The storage of the window.
#[allow(non_upper_case_globals)]
pub const LocalStorage: LocalStorageInterface = LocalStorageInterface;

impl LocalStorageInterface {
    /// The guarded call that counts the stored items; its answer is the count.
    pub fn len(&self) -> (r: HostCall)
        ensures
            r@ == call_spec(true, STORAGE_LEN_SCRIPT.spec_bytes(), Seq::empty()),
    {
        proof {
            lemma_scripts_nul_free();
        }
        let none: [Arg; 0] = [];
        assert(values_of(none@) =~= Seq::empty());
        guarded_fixed_call(STORAGE_LEN_SCRIPT, &none)
    }

    /// The guarded call that removes every stored item.
    pub fn clear(&self) -> (r: HostCall)
        ensures
            r@ == call_spec(true, STORAGE_CLEAR_SCRIPT.spec_bytes(), Seq::empty()),
    {
        proof {
            lemma_scripts_nul_free();
        }
        let none: [Arg; 0] = [];
        assert(values_of(none@) =~= Seq::empty());
        guarded_fixed_call(STORAGE_CLEAR_SCRIPT, &none)
    }

    /// The guarded call that removes the item named `s`.
    pub fn remove(&self, s: &str) -> (r: Result<HostCall, MarshalError>)
        ensures
            r is Ok <==> nul_free(s.spec_bytes()),
            r matches Ok(c) ==> c@ == call_spec(
                true,
                STORAGE_REMOVE_SCRIPT.spec_bytes(),
                seq![Value::Text(s.spec_bytes())],
            ),
    {
        proof {
            lemma_scripts_nul_free();
        }
        guarded_text_call(STORAGE_REMOVE_SCRIPT, s)
    }

    /// The guarded call that stores `v` under the name `s`.
    pub fn set(&self, s: &str, v: &str) -> (r: Result<HostCall, MarshalError>)
        ensures
            r is Ok <==> nul_free(s.spec_bytes()) && nul_free(v.spec_bytes()),
            r matches Ok(c) ==> c@ == call_spec(
                true,
                STORAGE_SET_SCRIPT.spec_bytes(),
                seq![Value::Text(s.spec_bytes()), Value::Text(v.spec_bytes())],
            ),
    {
        proof {
            lemma_scripts_nul_free();
        }
        let args = [Arg::Str(s), Arg::Str(v)];
        let ghost vals = seq![Value::Text(s.spec_bytes()), Value::Text(v.spec_bytes())];
        assert(values_of(args@) =~= vals);
        let r = HostCall::guarded(STORAGE_SET_SCRIPT, &args);
        assert(call_ok(STORAGE_SET_SCRIPT.spec_bytes(), vals) <==> nul_free(s.spec_bytes()) && nul_free(
            v.spec_bytes(),
        )) by {
            assert(vals[0] == Value::Text(s.spec_bytes()));
            assert(vals[1] == Value::Text(v.spec_bytes()));
        }
        r
    }

    /// The guarded call that reads the item named `name`; `has_value` tells whether its
    /// answer points at a text.
    pub fn get(&self, name: &str) -> (r: Result<HostCall, MarshalError>)
        ensures
            r is Ok <==> nul_free(name.spec_bytes()),
            r matches Ok(c) ==> c@ == call_spec(
                true,
                STORAGE_GET_SCRIPT.spec_bytes(),
                seq![Value::Text(name.spec_bytes())],
            ),
    {
        proof {
            lemma_scripts_nul_free();
        }
        guarded_text_call(STORAGE_GET_SCRIPT, name)
    }

    /// Whether an answer of `get` points at a text, rather than telling that there is none.
    pub fn has_value(ret: i32) -> (r: bool)
        ensures
            r == (ret != NO_OBJECT),
    {
        ret != NO_OBJECT
    }

    /// The guarded call that reads the name of the `index`-th item; its answer points at a text.
    pub fn key(&self, index: i32) -> (r: HostCall)
        ensures
            r@ == call_spec(true, STORAGE_KEY_SCRIPT.spec_bytes(), seq![Value::Int(index)]),
    {
        proof {
            lemma_scripts_nul_free();
        }
        let args = [Arg::Int(index)];
        assert(values_of(args@) =~= seq![Value::Int(index)]);
        guarded_fixed_call(STORAGE_KEY_SCRIPT, &args)
    }

    /// A walk over the stored items from the first.
    pub fn into_iter(self) -> (r: LocalStorageIterator)
        ensures
            r.index == 0,
    {
        LocalStorageIterator { index: 0 }
    }
}

impl LocalStorageIterator {
    /// The index of the next item to read, given the storage's current length, and a step
    /// past it; none once the walk has reached that length.
    pub fn next_index(&mut self, len: i32) -> (r: Option<i32>)
        ensures
            old(self).index >= len ==> r is None && final(self).index == old(self).index,
            old(self).index < len ==> r == Some(old(self).index) && final(self).index == old(self).index + 1,
    {
        if self.index >= len {
            None
        } else {
            let i = self.index;
            self.index = i + 1;
            Some(i)
        }
    }
}

} // verus!
