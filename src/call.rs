use vstd::prelude::*;
use vstd::string::StringSliceAdditionalSpecFns;
use vstd::string::StrSliceExecFns;
use vstd::utf8::encode_utf8;
use vstd::utf8::valid_utf8;

use crate::interop::{
    c_str_bytes, c_str_text, c_string_of, marshal_all_spec, nul_free, representable, to_c_string,
    values_of, Arena, ArenaView, Arg, MarshalError, Marshalled, Value,
};

verus! {

/// What a guarded script returns after the host caught an exception.
pub const EXCEPTION_SENTINEL: i32 = -173642426;

/// Opens the host-side `try` around a guarded script body.
pub const GUARD_OPEN: &'static str = "try { ";

/// Closes it: the exception goes to the last-exception slot and the sentinel is returned.
pub const GUARD_CLOSE: &'static str = " } catch (e) { WEBPLATFORM.last_exc = e; return -173642426; }";

/// Reads and clears the last-exception slot, returning its text (empty where it held nothing).
pub const FETCH_EXCEPTION_SCRIPT: &'static str = "var exc = WEBPLATFORM.last_exc;WEBPLATFORM.last_exc = null;var str = exc == null ? \"\" : exc.toString();return allocate(intArrayFromString(str), 'i8', ALLOC_STACK);";

/// The script text that a guarded call sends for `body`, before its terminator.
pub open spec fn guarded_text(body: Seq<u8>) -> Seq<u8> {
    GUARD_OPEN.spec_bytes() + body + GUARD_CLOSE.spec_bytes()
}

/// A call as the host receives it.
pub ghost struct CallView {
    pub script: Seq<u8>,
    pub arena: ArenaView,
    pub args: Seq<Marshalled>,
    pub guarded: bool,
}

/// Whether a call with this body and these arguments can be sent.
pub open spec fn call_ok(body: Seq<u8>, vals: Seq<Value>) -> bool {
    nul_free(body) && forall|i: int| 0 <= i < vals.len() ==> representable(#[trigger] vals[i])
}

/// The call that is sent for `body` and `vals`, guarded or not.
pub open spec fn call_spec(guarded: bool, body: Seq<u8>, vals: Seq<Value>) -> CallView {
    let empty = ArenaView { texts: Seq::empty(), blobs: Seq::empty() };
    let (arena, args) = marshal_all_spec(empty, vals);
    CallView {
        script: c_string_of(if guarded { guarded_text(body) } else { body }),
        arena,
        args,
        guarded,
    }
}

/// One call across the boundary: a NUL-terminated script, the words of its arguments,
/// and the arena that owns what the words point at. The arena must live until the call returns.
pub struct HostCall {
    pub script: Vec<u8>,
    pub arena: Arena,
    pub args: Vec<Marshalled>,
    pub guarded: bool,
}

impl View for HostCall {
    type V = CallView;

    open spec fn view(&self) -> CallView {
        CallView { script: self.script@, arena: self.arena@, args: self.args@, guarded: self.guarded }
    }
}

proof fn lemma_guard_texts_nul_free()
    ensures
        nul_free(GUARD_OPEN.spec_bytes()),
        nul_free(GUARD_CLOSE.spec_bytes()),
{
    reveal_strlit("try { ");
    reveal_strlit(" } catch (e) { WEBPLATFORM.last_exc = e; return -173642426; }");
    vstd::string::is_ascii_spec_bytes(GUARD_OPEN);
    vstd::string::is_ascii_spec_bytes(GUARD_CLOSE);
}

/// Appends the bytes of `b` to `out`.
fn append_bytes(out: &mut Vec<u8>, b: &[u8])
    ensures
        final(out)@ == old(out)@ + b@,
{
    let mut i: usize = 0;
    while i < b.len()
        invariant
            i <= b@.len(),
            out@ == old(out)@ + b@.subrange(0, i as int),
        decreases b@.len() - i,
    {
        out.push(b[i]);
        i += 1;
        assert(out@ =~= old(out)@ + b@.subrange(0, i as int));
    }
    assert(b@.subrange(0, i as int) =~= b@);
}

impl HostCall {
    fn build(guarded: bool, body: &str, args: &[Arg]) -> (r: Result<HostCall, MarshalError>)
        ensures
            r is Ok <==> call_ok(body.spec_bytes(), values_of(args@)),
            r matches Ok(c) ==> c@ == call_spec(guarded, body.spec_bytes(), values_of(args@)),
    {
        proof {
            lemma_guard_texts_nul_free();
        }
        let mut text: Vec<u8> = Vec::new();
        if guarded {
            append_bytes(&mut text, GUARD_OPEN.as_bytes());
        }
        let body_start: usize = text.len();
        append_bytes(&mut text, body.as_bytes());
        let body_end: usize = text.len();
        if guarded {
            append_bytes(&mut text, GUARD_CLOSE.as_bytes());
        }
        let ghost body_bytes = body.spec_bytes();
        assert(text@.subrange(body_start as int, body_end as int) =~= body_bytes);
        let script = to_c_string(text.as_slice());
        let script = match script {
            Ok(s) => s,
            Err(e) => {
                proof {
                    let k = choose|k: int| 0 <= k < text@.len() && text@[k] == 0;
                    if guarded {
                        assert(text@ =~= guarded_text(body_bytes));
                    }
                    assert(body_bytes[k - body_start] == 0);
                }
                return Err(e);
            },
        };
        proof {
            if guarded {
                assert(text@ =~= guarded_text(body_bytes));
            } else {
                assert(text@ =~= body_bytes);
            }
            assert forall|k: int| 0 <= k < body_bytes.len() implies body_bytes[k] != 0 by {
                assert(text@[body_start + k] == body_bytes[k]);
            }
        }
        let mut arena = Arena::new();
        let ghost empty = arena@;
        assert(empty.texts =~= Seq::empty());
        assert(empty.blobs =~= Seq::empty());
        let words = arena.marshal_all(args);
        proof {
            let vals = values_of(args@);
            assert(vals.len() == args@.len());
            assert forall|i: int| 0 <= i < args@.len() implies #[trigger] vals[i] == args@[i].value() by {}
            assert((forall|i: int| 0 <= i < vals.len() ==> representable(#[trigger] vals[i]))
                <==> (forall|i: int| 0 <= i < args@.len() ==> representable(#[trigger] args@[i].value()))) by {
                assert forall|i: int| 0 <= i < args@.len() implies #[trigger] args@[i].value() == vals[i] by {}
            }
        }
        match words {
            Ok(words) => Ok(HostCall { script, arena, args: words, guarded }),
            Err(e) => Err(e),
        }
    }

    /// A call whose script runs as it is, trusted to succeed.
    pub fn raw(body: &str, args: &[Arg]) -> (r: Result<HostCall, MarshalError>)
        ensures
            r is Ok <==> call_ok(body.spec_bytes(), values_of(args@)),
            r matches Ok(c) ==> c@ == call_spec(false, body.spec_bytes(), values_of(args@)),
    {
        HostCall::build(false, body, args)
    }

    /// A call whose script runs inside a host-side `try`; see `on_guarded_return`.
    pub fn guarded(body: &str, args: &[Arg]) -> (r: Result<HostCall, MarshalError>)
        ensures
            r is Ok <==> call_ok(body.spec_bytes(), values_of(args@)),
            r matches Ok(c) ==> c@ == call_spec(true, body.spec_bytes(), values_of(args@)),
    {
        HostCall::build(true, body, args)
    }
}

/// The decision after a step of a guarded call.
pub ghost enum GuardOutcome {
    Complete(i32),
    FetchException,
    Fail(Seq<char>),
}

/// What the native side does next in a guarded call.
#[derive(Debug)]
pub enum GuardAction {
    /// The call is over and returned this word.
    Complete(i32),
    /// The sentinel came back: send `fetch_exception_call` and pass its text to `on_exception_text`.
    FetchException,
    /// The host threw: the call ends in a fatal error with this message.
    Fail(String),
}

impl View for GuardAction {
    type V = GuardOutcome;

    open spec fn view(&self) -> GuardOutcome {
        match self {
            GuardAction::Complete(v) => GuardOutcome::Complete(*v),
            GuardAction::FetchException => GuardOutcome::FetchException,
            GuardAction::Fail(m) => GuardOutcome::Fail(m@),
        }
    }
}

/// The decision once a guarded script has returned `ret`.
pub open spec fn after_return(ret: i32) -> GuardOutcome {
    if ret == EXCEPTION_SENTINEL {
        GuardOutcome::FetchException
    } else {
        GuardOutcome::Complete(ret)
    }
}

/// The decision once the last-exception slot has been read as `text`: an empty slot
/// means that the sentinel was the script's own result.
pub open spec fn after_exception_text(text: Seq<char>) -> GuardOutcome {
    if text.len() == 0 {
        GuardOutcome::Complete(EXCEPTION_SENTINEL)
    } else {
        GuardOutcome::Fail(text)
    }
}

/// Decides what follows a guarded script's return.
pub fn on_guarded_return(ret: i32) -> (r: GuardAction)
    ensures
        r@ == after_return(ret),
{
    if ret == EXCEPTION_SENTINEL {
        GuardAction::FetchException
    } else {
        GuardAction::Complete(ret)
    }
}

/// Decides how a guarded call ends once the exception slot has been read.
pub fn on_exception_text(text: String) -> (r: GuardAction)
    ensures
        r@ == after_exception_text(text@),
{
    if text.as_str().is_empty() {
        GuardAction::Complete(EXCEPTION_SENTINEL)
    } else {
        GuardAction::Fail(text)
    }
}

/// The call that reads and clears the host's last-exception slot.
pub fn fetch_exception_call() -> (r: HostCall)
    ensures
        r@ == call_spec(false, FETCH_EXCEPTION_SCRIPT.spec_bytes(), Seq::empty()),
{
    proof {
        reveal_strlit("var exc = WEBPLATFORM.last_exc;WEBPLATFORM.last_exc = null;var str = exc == null ? \"\" : exc.toString();return allocate(intArrayFromString(str), 'i8', ALLOC_STACK);");
        vstd::string::is_ascii_spec_bytes(FETCH_EXCEPTION_SCRIPT);
    }
    let none: [Arg; 0] = [];
    assert(values_of(none@) =~= Seq::empty());
    HostCall::raw(FETCH_EXCEPTION_SCRIPT, &none).unwrap()
}

/// Relies on `std::str::from_utf8`: it accepts exactly the valid UTF-8 byte sequences,
/// and the text it returns is made of those bytes.
#[verifier::external_body]
fn utf8_text(b: &[u8]) -> (r: Option<String>)
    ensures
        r is Some <==> valid_utf8(b@),
        r matches Some(s) ==> encode_utf8(s@) == b@,
{
    match std::str::from_utf8(b) {
        Ok(s) => Some(s.to_owned()),
        Err(_) => None,
    }
}

/// The text of a NUL-terminated buffer that the host filled, where it is valid UTF-8.
pub fn text_from_c(buf: &[u8]) -> (r: Option<String>)
    ensures
        r is Some <==> valid_utf8(c_str_text(buf@)),
        r matches Some(s) ==> encode_utf8(s@) == c_str_text(buf@),
{
    let bytes = c_str_bytes(buf);
    utf8_text(bytes.as_slice())
}

/// What reading and clearing the slot yields: its text, or nothing where it is empty.
pub open spec fn slot_text(slot: Option<Seq<char>>) -> Seq<char> {
    match slot {
        Some(t) => t,
        None => Seq::empty(),
    }
}

/// The slot and the text after a read-and-clear.
pub open spec fn take_spec(slot: Option<Seq<char>>) -> (Option<Seq<char>>, Seq<char>) {
    (None, slot_text(slot))
}

/// The host's last-exception slot: written by a failing guarded call, read and cleared
/// by the native side right after.
pub struct ExceptionSlot {
    last: Option<String>,
}

impl View for ExceptionSlot {
    type V = Option<Seq<char>>;

    closed spec fn view(&self) -> Option<Seq<char>> {
        match self.last {
            Some(t) => Some(t@),
            None => None,
        }
    }
}

impl ExceptionSlot {
    pub fn new() -> (r: ExceptionSlot)
        ensures
            r@ is None,
    {
        ExceptionSlot { last: None }
    }

    /// Records a caught exception's text, replacing what was there.
    pub fn store(&mut self, text: String)
        ensures
            final(self)@ == Some(text@),
    {
        self.last = Some(text);
    }

    /// Whether nothing is recorded.
    pub fn is_empty(&self) -> (r: bool)
        ensures
            r == (self@ is None),
    {
        self.last.is_none()
    }

    /// Reads and clears the slot.
    pub fn take(&mut self) -> (r: String)
        ensures
            (final(self)@, r@) == take_spec(old(self)@),
    {
        match self.last.take() {
            Some(t) => t,
            None => String::new(),
        }
    }
}

/// A guarded call whose script throws a value with a non-empty text ends in a fatal error
/// carrying that text; reading the slot clears it, so the next guarded call that returns
/// normally completes with its own result, and the slot stays empty.
pub proof fn lemma_thrown_value_reported_once(slot: Option<Seq<char>>, thrown: Seq<char>, next: i32)
    requires
        thrown.len() > 0,
        next != EXCEPTION_SENTINEL,
    ensures
        after_return(EXCEPTION_SENTINEL) == GuardOutcome::FetchException,
        after_exception_text(take_spec(Some(thrown)).1) == GuardOutcome::Fail(thrown),
        after_return(next) == GuardOutcome::Complete(next),
        take_spec(take_spec(Some(thrown)).0).1.len() == 0,
{
}

/// Reading and clearing the slot twice in a row is harmless: the second read is empty and
/// leaves the slot empty, and the first is empty too where nothing had been stored.
pub proof fn lemma_clear_twice(slot: Option<Seq<char>>)
    ensures
        take_spec(take_spec(slot).0).1.len() == 0,
        take_spec(take_spec(slot).0).0 is None,
        slot is None ==> take_spec(slot).1.len() == 0,
{
}

} // verus!
