use vstd::prelude::*;
use vstd::string::StringSliceAdditionalSpecFns;

use crate::call::{call_ok, call_spec, HostCall};
use crate::document::Document;
use crate::interop::{nul_free, values_of, Arg, MarshalError, Value};

verus! {

/// Calls trampoline `$2` with callback `$1` and session `$3` when socket `$0` opens.
pub const ON_OPEN_SCRIPT: &'static str = "WEBPLATFORM.rs_refs[$0].addEventListener('open', function (e) {Runtime.dynCall('vii', $2, [$1, $3]);}, false);";

/// Calls trampoline `$2` with callback `$1`, session `$3` and the text of each text message
/// on socket `$0`.
pub const ON_TEXT_MESSAGE_SCRIPT: &'static str = "WEBPLATFORM.rs_refs[$0].addEventListener('message', function (e) {if (typeof e.data != 'string') return;Runtime.dynCall('viii', $2, [$1, $3, allocate(intArrayFromString(e.data), 'i8', ALLOC_STACK)]);}, false);";

/// Calls trampoline `$2` with callback `$1`, session `$3` and the bytes of each binary
/// message on socket `$0`.
pub const ON_BINARY_MESSAGE_SCRIPT: &'static str = "WEBPLATFORM.rs_refs[$0].addEventListener('message', function (e) {if (typeof e.data != 'object') return;var buf = Module._malloc(e.data.byteLength);Module.writeArrayToMemory(new Int8Array(e.data), buf);Runtime.dynCall('viiii', $2, [$1, $3, buf, e.data.byteLength]);}, false);";

/// Sends text `$1` on socket `$0`.
pub const SEND_SCRIPT: &'static str = "WEBPLATFORM.rs_refs[$0].send(UTF8ToString($1));";

/// Sends the bytes that descriptor `$1` points at on socket `$0`.
pub const SEND_BINARY_SCRIPT: &'static str = "var start = HEAPU32[$1 / 4];var length = HEAPU32[$1 / 4 + 1];var sliced = HEAP8.slice(start, start + length * 1);WEBPLATFORM.rs_refs[$0].send(sliced);";

/// Closes socket `$0`.
pub const CLOSE_SCRIPT: &'static str = "WEBPLATFORM.rs_refs[$0].close();";

proof fn lemma_socket_scripts_nul_free()
    ensures
        nul_free(ON_OPEN_SCRIPT.spec_bytes()),
        nul_free(ON_TEXT_MESSAGE_SCRIPT.spec_bytes()),
        nul_free(ON_BINARY_MESSAGE_SCRIPT.spec_bytes()),
        nul_free(SEND_SCRIPT.spec_bytes()),
        nul_free(SEND_BINARY_SCRIPT.spec_bytes()),
        nul_free(CLOSE_SCRIPT.spec_bytes()),
{
    reveal_strlit("WEBPLATFORM.rs_refs[$0].addEventListener('open', function (e) {Runtime.dynCall('vii', $2, [$1, $3]);}, false);");
    reveal_strlit("WEBPLATFORM.rs_refs[$0].addEventListener('message', function (e) {if (typeof e.data != 'string') return;Runtime.dynCall('viii', $2, [$1, $3, allocate(intArrayFromString(e.data), 'i8', ALLOC_STACK)]);}, false);");
    reveal_strlit("WEBPLATFORM.rs_refs[$0].addEventListener('message', function (e) {if (typeof e.data != 'object') return;var buf = Module._malloc(e.data.byteLength);Module.writeArrayToMemory(new Int8Array(e.data), buf);Runtime.dynCall('viiii', $2, [$1, $3, buf, e.data.byteLength]);}, false);");
    reveal_strlit("WEBPLATFORM.rs_refs[$0].send(UTF8ToString($1));");
    reveal_strlit("var start = HEAPU32[$1 / 4];var length = HEAPU32[$1 / 4 + 1];var sliced = HEAP8.slice(start, start + length * 1);WEBPLATFORM.rs_refs[$0].send(sliced);");
    reveal_strlit("WEBPLATFORM.rs_refs[$0].close();");
    vstd::string::is_ascii_spec_bytes(ON_OPEN_SCRIPT);
    vstd::string::is_ascii_spec_bytes(ON_TEXT_MESSAGE_SCRIPT);
    vstd::string::is_ascii_spec_bytes(ON_BINARY_MESSAGE_SCRIPT);
    vstd::string::is_ascii_spec_bytes(SEND_SCRIPT);
    vstd::string::is_ascii_spec_bytes(SEND_BINARY_SCRIPT);
    vstd::string::is_ascii_spec_bytes(CLOSE_SCRIPT);
}

/// A socket of the host's table.
#[derive(Clone, Copy, Debug, PartialEq, Eq, Structural)]
pub struct WebSocket {
    pub id: i32,
}

/// The arguments of a listener registration on a socket.
pub open spec fn listener_values(socket: i32, id: usize, trampoline: usize, session: usize) -> Seq<Value> {
    seq![Value::Int(socket), Value::Opaque(id), Value::Opaque(trampoline), Value::Opaque(session)]
}

fn listener_call(script: &str, socket: i32, id: usize, trampoline: usize, session: usize) -> (r: HostCall)
    requires
        nul_free(script.spec_bytes()),
    ensures
        r@ == call_spec(false, script.spec_bytes(), listener_values(socket, id, trampoline, session)),
{
    let args = [Arg::Int(socket), Arg::Opaque(id), Arg::Opaque(trampoline), Arg::Opaque(session)];
    let ghost vals = listener_values(socket, id, trampoline, session);
    assert(values_of(args@) =~= vals);
    assert(call_ok(script.spec_bytes(), vals)) by {
        assert(vals[0] == Value::Int(socket));
        assert(vals[1] == Value::Opaque(id));
        assert(vals[2] == Value::Opaque(trampoline));
        assert(vals[3] == Value::Opaque(session));
    }
    HostCall::raw(script, &args).unwrap()
}

impl WebSocket {
    pub fn new(id: i32) -> (r: WebSocket)
        ensures
            r.id == id,
    {
        WebSocket { id }
    }

    /// Registers `f` to run when the socket opens, keeping it in `doc`. The returned call
/// hands the host the callback's index, the trampoline's word and the session's word.
    pub fn add_event_listener_open<E, V, S, B>(&self, doc: &mut Document<E, V, S, B>, f: V, trampoline: usize, session: usize) -> (r: HostCall)
        ensures
            r@ == call_spec(
                false,
                ON_OPEN_SCRIPT.spec_bytes(),
                listener_values(self.id, old(doc).refs_v@.len() as usize, trampoline, session),
            ),
            final(doc).refs_v@ == old(doc).refs_v@.push(f),
            final(doc).refs@ == old(doc).refs@,
            final(doc).refs_v_string@ == old(doc).refs_v_string@,
            final(doc).refs_v_u8array@ == old(doc).refs_v_u8array@,
    {
        proof {
            lemma_socket_scripts_nul_free();
        }
        let call = listener_call(ON_OPEN_SCRIPT, self.id, doc.refs_v.len(), trampoline, session);
        doc.push_ref_v(f);
        call
    }

    /// Registers `f` to run with the text of each text message.
    pub fn add_event_listener_message_string<E, V, S, B>(&self, doc: &mut Document<E, V, S, B>, f: S, trampoline: usize, session: usize) -> (r: HostCall)
        ensures
            r@ == call_spec(
                false,
                ON_TEXT_MESSAGE_SCRIPT.spec_bytes(),
                listener_values(self.id, old(doc).refs_v_string@.len() as usize, trampoline, session),
            ),
            final(doc).refs_v_string@ == old(doc).refs_v_string@.push(f),
            final(doc).refs@ == old(doc).refs@,
            final(doc).refs_v@ == old(doc).refs_v@,
            final(doc).refs_v_u8array@ == old(doc).refs_v_u8array@,
    {
        proof {
            lemma_socket_scripts_nul_free();
        }
        let call = listener_call(ON_TEXT_MESSAGE_SCRIPT, self.id, doc.refs_v_string.len(), trampoline, session);
        doc.push_ref_v_string(f);
        call
    }

    /// Registers `f` to run with the bytes of each binary message.
    pub fn add_event_listener_message_binary<E, V, S, B>(&self, doc: &mut Document<E, V, S, B>, f: B, trampoline: usize, session: usize) -> (r: HostCall)
        ensures
            r@ == call_spec(
                false,
                ON_BINARY_MESSAGE_SCRIPT.spec_bytes(),
                listener_values(self.id, old(doc).refs_v_u8array@.len() as usize, trampoline, session),
            ),
            final(doc).refs_v_u8array@ == old(doc).refs_v_u8array@.push(f),
            final(doc).refs@ == old(doc).refs@,
            final(doc).refs_v@ == old(doc).refs_v@,
            final(doc).refs_v_string@ == old(doc).refs_v_string@,
    {
        proof {
            lemma_socket_scripts_nul_free();
        }
        let call = listener_call(ON_BINARY_MESSAGE_SCRIPT, self.id, doc.refs_v_u8array.len(), trampoline, session);
        doc.push_ref_v_u8array(f);
        call
    }

    /// The call that sends text `data`.
    pub fn send(&self, data: &str) -> (r: Result<HostCall, MarshalError>)
        ensures
            r is Ok <==> nul_free(data.spec_bytes()),
            r matches Ok(c) ==> c@ == call_spec(
                false,
                SEND_SCRIPT.spec_bytes(),
                seq![Value::Int(self.id), Value::Text(data.spec_bytes())],
            ),
    {
        proof {
            lemma_socket_scripts_nul_free();
        }
        let args = [Arg::Int(self.id), Arg::Str(data)];
        let ghost vals = seq![Value::Int(self.id), Value::Text(data.spec_bytes())];
        assert(values_of(args@) =~= vals);
        assert(call_ok(SEND_SCRIPT.spec_bytes(), vals) <==> nul_free(data.spec_bytes())) by {
            assert(vals[0] == Value::Int(self.id));
            assert(vals[1] == Value::Text(data.spec_bytes()));
        }
        HostCall::raw(SEND_SCRIPT, &args)
    }

    /// The call that sends the bytes `data`, which the call's arena holds a copy of.
    pub fn send_binary(&self, data: &[u8]) -> (r: HostCall)
        ensures
            r@ == call_spec(false, SEND_BINARY_SCRIPT.spec_bytes(), seq![Value::Int(self.id), Value::Bytes(data@)]),
    {
        proof {
            lemma_socket_scripts_nul_free();
        }
        let args = [Arg::Int(self.id), Arg::Bytes(data)];
        let ghost vals = seq![Value::Int(self.id), Value::Bytes(data@)];
        assert(values_of(args@) =~= vals);
        assert(call_ok(SEND_BINARY_SCRIPT.spec_bytes(), vals)) by {
            assert(vals[0] == Value::Int(self.id));
            assert(vals[1] == Value::Bytes(data@));
        }
        HostCall::raw(SEND_BINARY_SCRIPT, &args).unwrap()
    }

    /// The call that closes the socket.
    pub fn close(&self, data: &str) -> (r: Result<HostCall, MarshalError>)
        ensures
            r is Ok <==> nul_free(data.spec_bytes()),
            r matches Ok(c) ==> c@ == call_spec(
                false,
                CLOSE_SCRIPT.spec_bytes(),
                seq![Value::Int(self.id), Value::Text(data.spec_bytes())],
            ),
    {
        proof {
            lemma_socket_scripts_nul_free();
        }
        let args = [Arg::Int(self.id), Arg::Str(data)];
        let ghost vals = seq![Value::Int(self.id), Value::Text(data.spec_bytes())];
        assert(values_of(args@) =~= vals);
        assert(call_ok(CLOSE_SCRIPT.spec_bytes(), vals) <==> nul_free(data.spec_bytes())) by {
            assert(vals[0] == Value::Int(self.id));
            assert(vals[1] == Value::Text(data.spec_bytes()));
        }
        HostCall::raw(CLOSE_SCRIPT, &args)
    }
}

} // verus!
