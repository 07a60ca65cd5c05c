use vstd::prelude::*;
use vstd::string::StringSliceAdditionalSpecFns;

use crate::call::{call_ok, call_spec, HostCall};
use crate::callback::Registry;
use crate::handle::{decode_handle, HtmlNode};
use crate::interop::{nul_free, values_of, Arg, MarshalError, Value};
use crate::websocket::WebSocket;

verus! {

/// Sets up the host-side state that every later script relies on.
pub const INIT_SCRIPT: &'static str = "window.WEBPLATFORM || (window.WEBPLATFORM = {rs_refs: [],});";

/// Listens on the window; `$1` event name, `$2` callback, `$3` trampoline, `$4` session.
pub const WINDOW_ON_SCRIPT: &'static str = "window.addEventListener(UTF8ToString($1), function (e) {Runtime.dynCall('viii', $3, [$2, $4, e.target ? WEBPLATFORM.rs_refs.push(e.target) - 1 : -1]);}, false);";

/// Opens a socket to the URL `$0` and returns its handle, or -1.
pub const WEBSOCKET_CREATE_SCRIPT: &'static str = "var value = new WebSocket(UTF8ToString($0));if (!value) {return -1;}value.binaryType = 'arraybuffer';return WEBPLATFORM.rs_refs.push(value) - 1;";

/// Creates an element of tag `$0` and returns its handle, or -1.
pub const ELEMENT_CREATE_SCRIPT: &'static str = "var value = document.createElement(UTF8ToString($0));if (!value) {return -1;}return WEBPLATFORM.rs_refs.push(value) - 1;";

/// Finds the first element that matches selector `$0` and returns its handle, or -1.
pub const ELEMENT_QUERY_SCRIPT: &'static str = "var value = document.querySelector(UTF8ToString($0));if (!value) {return -1;}return WEBPLATFORM.rs_refs.push(value) - 1;";

/// Returns the window's location hash as a NUL-terminated text.
pub const LOCATION_HASH_SCRIPT: &'static str = "return allocate(intArrayFromString(window.location.hash), 'i8', ALLOC_STACK);";

proof fn lemma_document_scripts_nul_free()
    ensures
        nul_free(WINDOW_ON_SCRIPT.spec_bytes()),
        nul_free(WEBSOCKET_CREATE_SCRIPT.spec_bytes()),
        nul_free(ELEMENT_CREATE_SCRIPT.spec_bytes()),
        nul_free(ELEMENT_QUERY_SCRIPT.spec_bytes()),
{
    reveal_strlit("window.addEventListener(UTF8ToString($1), function (e) {Runtime.dynCall('viii', $3, [$2, $4, e.target ? WEBPLATFORM.rs_refs.push(e.target) - 1 : -1]);}, false);");
    reveal_strlit("var value = new WebSocket(UTF8ToString($0));if (!value) {return -1;}value.binaryType = 'arraybuffer';return WEBPLATFORM.rs_refs.push(value) - 1;");
    reveal_strlit("var value = document.createElement(UTF8ToString($0));if (!value) {return -1;}return WEBPLATFORM.rs_refs.push(value) - 1;");
    reveal_strlit("var value = document.querySelector(UTF8ToString($0));if (!value) {return -1;}return WEBPLATFORM.rs_refs.push(value) - 1;");
    vstd::string::is_ascii_spec_bytes(WINDOW_ON_SCRIPT);
    vstd::string::is_ascii_spec_bytes(WEBSOCKET_CREATE_SCRIPT);
    vstd::string::is_ascii_spec_bytes(ELEMENT_CREATE_SCRIPT);
    vstd::string::is_ascii_spec_bytes(ELEMENT_QUERY_SCRIPT);
}

/// The session: owns every callback registered through it, one registry per shape,
/// for as long as it lives.
pub struct Document<E, V, S, B> {
    /// Callbacks that take an event.
    pub refs: Registry<E>,
    /// Callbacks that take nothing.
    pub refs_v: Registry<V>,
    /// Callbacks that take a text.
    pub refs_v_string: Registry<S>,
    /// Callbacks that take bytes.
    pub refs_v_u8array: Registry<B>,
}

/// The arguments of a listener registration on the window.
pub open spec fn window_on_values(name: Seq<u8>, id: usize, trampoline: usize, session: usize) -> Seq<Value> {
    seq![
        Value::Int(0),
        Value::Text(name),
        Value::Opaque(id),
        Value::Opaque(trampoline),
        Value::Opaque(session),
    ]
}

/// The call that sets up the host, sent once before any other.
pub fn init_call() -> (r: HostCall)
    ensures
        r@ == call_spec(false, INIT_SCRIPT.spec_bytes(), Seq::empty()),
{
    proof {
        reveal_strlit("window.WEBPLATFORM || (window.WEBPLATFORM = {rs_refs: [],});");
        vstd::string::is_ascii_spec_bytes(INIT_SCRIPT);
    }
    let none: [Arg; 0] = [];
    assert(values_of(none@) =~= Seq::empty());
    HostCall::raw(INIT_SCRIPT, &none).unwrap()
}

/// A new session with no callbacks, and the call that sets up the host for it.
pub fn init<E, V, S, B>() -> (r: (Document<E, V, S, B>, HostCall))
    ensures
        r.0.refs@.len() == 0,
        r.0.refs_v@.len() == 0,
        r.0.refs_v_string@.len() == 0,
        r.0.refs_v_u8array@.len() == 0,
        r.1@ == call_spec(false, INIT_SCRIPT.spec_bytes(), Seq::empty()),
{
    let doc = Document {
        refs: Registry::new(),
        refs_v: Registry::new(),
        refs_v_string: Registry::new(),
        refs_v_u8array: Registry::new(),
    };
    (doc, init_call())
}

/// The call for a script that takes one text and answers with a handle.
fn lookup_call(script: &str, s: &str) -> (r: Result<HostCall, MarshalError>)
    requires
        nul_free(script.spec_bytes()),
    ensures
        r is Ok <==> nul_free(s.spec_bytes()),
        r matches Ok(c) ==> c@ == call_spec(false, script.spec_bytes(), seq![Value::Text(s.spec_bytes())]),
{
    let args = [Arg::Str(s)];
    let ghost vals = seq![Value::Text(s.spec_bytes())];
    assert(values_of(args@) =~= vals);
    assert(call_ok(script.spec_bytes(), vals) <==> nul_free(s.spec_bytes())) by {
        assert(vals[0] == Value::Text(s.spec_bytes()));
    }
    HostCall::raw(script, &args)
}

impl<E, V, S, B> Document<E, V, S, B> {
    /// Keeps an event callback.
    pub fn push_ref(&mut self, value: E)
        ensures
            final(self).refs@ == old(self).refs@.push(value),
            final(self).refs_v@ == old(self).refs_v@,
            final(self).refs_v_string@ == old(self).refs_v_string@,
            final(self).refs_v_u8array@ == old(self).refs_v_u8array@,
    {
        self.refs.register(value);
    }

    /// Keeps a callback that takes nothing.
    pub fn push_ref_v(&mut self, value: V)
        ensures
            final(self).refs@ == old(self).refs@,
            final(self).refs_v@ == old(self).refs_v@.push(value),
            final(self).refs_v_string@ == old(self).refs_v_string@,
            final(self).refs_v_u8array@ == old(self).refs_v_u8array@,
    {
        self.refs_v.register(value);
    }

    /// Keeps a callback that takes a text.
    pub fn push_ref_v_string(&mut self, value: S)
        ensures
            final(self).refs@ == old(self).refs@,
            final(self).refs_v@ == old(self).refs_v@,
            final(self).refs_v_string@ == old(self).refs_v_string@.push(value),
            final(self).refs_v_u8array@ == old(self).refs_v_u8array@,
    {
        self.refs_v_string.register(value);
    }

    /// Keeps a callback that takes bytes.
    pub fn push_ref_v_u8array(&mut self, value: B)
        ensures
            final(self).refs@ == old(self).refs@,
            final(self).refs_v@ == old(self).refs_v@,
            final(self).refs_v_string@ == old(self).refs_v_string@,
            final(self).refs_v_u8array@ == old(self).refs_v_u8array@.push(value),
    {
        self.refs_v_u8array.register(value);
    }

    /// Registers `f` for window events named `s`. The returned call hands the host the
    /// callback's index, the event trampoline's word and this session's word; `f` is kept
    /// only where the call could be built.
    pub fn on(&mut self, s: &str, f: E, trampoline: usize, session: usize) -> (r: Result<HostCall, MarshalError>)
        ensures
            r is Ok <==> nul_free(s.spec_bytes()),
            r matches Ok(c) ==> c@ == call_spec(
                false,
                WINDOW_ON_SCRIPT.spec_bytes(),
                window_on_values(s.spec_bytes(), old(self).refs@.len() as usize, trampoline, session),
            ),
            r is Ok ==> final(self).refs@ == old(self).refs@.push(f),
            r is Err ==> final(self).refs@ == old(self).refs@,
            final(self).refs_v@ == old(self).refs_v@,
            final(self).refs_v_string@ == old(self).refs_v_string@,
            final(self).refs_v_u8array@ == old(self).refs_v_u8array@,
    {
        proof {
            lemma_document_scripts_nul_free();
        }
        let id = self.refs.len();
        let args = [Arg::Int(0), Arg::Str(s), Arg::Opaque(id), Arg::Opaque(trampoline), Arg::Opaque(session)];
        let ghost vals = window_on_values(s.spec_bytes(), id, trampoline, session);
        assert(values_of(args@) =~= vals);
        assert(call_ok(WINDOW_ON_SCRIPT.spec_bytes(), vals) <==> nul_free(s.spec_bytes())) by {
            assert(vals[0] == Value::Int(0));
            assert(vals[1] == Value::Text(s.spec_bytes()));
            assert(vals[2] == Value::Opaque(id));
            assert(vals[3] == Value::Opaque(trampoline));
            assert(vals[4] == Value::Opaque(session));
        }
        let call = HostCall::raw(WINDOW_ON_SCRIPT, &args);
        match call {
            Ok(c) => {
                self.refs.register(f);
                Ok(c)
            },
            Err(e) => Err(e),
        }
    }

    /// The call that opens a socket to `url`; read its answer with `websocket_from`.
    pub fn websocket_create(&self, url: &str) -> (r: Result<HostCall, MarshalError>)
        ensures
            r is Ok <==> nul_free(url.spec_bytes()),
            r matches Ok(c) ==> c@ == call_spec(
                false,
                WEBSOCKET_CREATE_SCRIPT.spec_bytes(),
                seq![Value::Text(url.spec_bytes())],
            ),
    {
        proof {
            lemma_document_scripts_nul_free();
        }
        lookup_call(WEBSOCKET_CREATE_SCRIPT, url)
    }

    /// The call that creates an element of tag `s`; read its answer with `node_from`.
    pub fn element_create(&self, s: &str) -> (r: Result<HostCall, MarshalError>)
        ensures
            r is Ok <==> nul_free(s.spec_bytes()),
            r matches Ok(c) ==> c@ == call_spec(
                false,
                ELEMENT_CREATE_SCRIPT.spec_bytes(),
                seq![Value::Text(s.spec_bytes())],
            ),
    {
        proof {
            lemma_document_scripts_nul_free();
        }
        lookup_call(ELEMENT_CREATE_SCRIPT, s)
    }

    /// The call that finds the first element matching selector `s`; read its answer with `node_from`.
    pub fn element_query(&self, s: &str) -> (r: Result<HostCall, MarshalError>)
        ensures
            r is Ok <==> nul_free(s.spec_bytes()),
            r matches Ok(c) ==> c@ == call_spec(
                false,
                ELEMENT_QUERY_SCRIPT.spec_bytes(),
                seq![Value::Text(s.spec_bytes())],
            ),
    {
        proof {
            lemma_document_scripts_nul_free();
        }
        lookup_call(ELEMENT_QUERY_SCRIPT, s)
    }

    /// The call that reads the location hash; its answer is a NUL-terminated text.
    pub fn location_hash_get(&self) -> (r: HostCall)
        ensures
            r@ == call_spec(false, LOCATION_HASH_SCRIPT.spec_bytes(), Seq::empty()),
    {
        proof {
            reveal_strlit("return allocate(intArrayFromString(window.location.hash), 'i8', ALLOC_STACK);");
            vstd::string::is_ascii_spec_bytes(LOCATION_HASH_SCRIPT);
        }
        let none: [Arg; 0] = [];
        assert(values_of(none@) =~= Seq::empty());
        HostCall::raw(LOCATION_HASH_SCRIPT, &none).unwrap()
    }
}

/// The node that a lookup's answer names, or none for a negative answer.
pub fn node_from(ret: i32) -> (r: Option<HtmlNode>)
    ensures
        r is None <==> ret < 0,
        r matches Some(n) ==> n.id == ret,
{
    match decode_handle(ret) {
        Some(h) => Some(HtmlNode::new(h)),
        None => None,
    }
}

/// The socket that `websocket_create`'s answer names, or none for a negative answer.
pub fn websocket_from(ret: i32) -> (r: Option<WebSocket>)
    ensures
        r is None <==> ret < 0,
        r matches Some(w) ==> w.id == ret,
{
    match decode_handle(ret) {
        Some(h) => Some(WebSocket::new(h)),
        None => None,
    }
}

} // verus!
