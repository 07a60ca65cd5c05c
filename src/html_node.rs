use vstd::prelude::*;
use vstd::string::StringSliceAdditionalSpecFns;
use vstd::string::StrSliceExecFns;

use crate::call::{call_ok, call_spec, HostCall};
use crate::document::Document;
use crate::handle::HtmlNode;
use crate::interop::{nul_free, values_of, Arg, MarshalError, Value};

verus! {
/// Returns the lower-case tag name of node `$0` as a NUL-terminated text.
pub const TAGNAME_SCRIPT: &'static str = "var str = WEBPLATFORM.rs_refs[$0].tagName.toLowerCase();return allocate(intArrayFromString(str), 'i8', ALLOC_STACK);";

/// Focuses node `$0`.
pub const FOCUS_SCRIPT: &'static str = "WEBPLATFORM.rs_refs[$0].focus();";

/// Sets the inner HTML of node `$0` to `$1`.
pub const HTML_SET_SCRIPT: &'static str = "WEBPLATFORM.rs_refs[$0].innerHTML = UTF8ToString($1);";

/// Returns the inner HTML of node `$0` as a NUL-terminated text.
pub const HTML_GET_SCRIPT: &'static str = "return allocate(intArrayFromString(WEBPLATFORM.rs_refs[$0].innerHTML), 'i8', ALLOC_STACK);";

/// Returns the class attribute of node `$0` as a NUL-terminated text.
pub const CLASS_GET_SCRIPT: &'static str = "return allocate(intArrayFromString(WEBPLATFORM.rs_refs[$0].className), 'i8', ALLOC_STACK);";

/// Adds class `$1` to node `$0`.
pub const CLASS_ADD_SCRIPT: &'static str = "WEBPLATFORM.rs_refs[$0].classList.add(UTF8ToString($1));";

/// Toggles class `$1` on node `$0`.
pub const CLASS_TOGGLE_SCRIPT: &'static str = "WEBPLATFORM.rs_refs[$0].classList.toggle(UTF8ToString($1));";

/// Removes class `$1` from node `$0`.
pub const CLASS_REMOVE_SCRIPT: &'static str = "WEBPLATFORM.rs_refs[$0].classList.remove(UTF8ToString($1));";

/// Returns the handle of the parent of node `$0`, or -1.
pub const PARENT_SCRIPT: &'static str = "var value = WEBPLATFORM.rs_refs[$0].parentNode;if (!value) {return -1;}return WEBPLATFORM.rs_refs.push(value) - 1;";

/// Sets data attribute `$1` of node `$0` to `$2`.
pub const DATA_SET_SCRIPT: &'static str = "WEBPLATFORM.rs_refs[$0].dataset[UTF8ToString($1)] = UTF8ToString($2);";

/// Returns data attribute `$1` of node `$0` as a NUL-terminated text, or -1.
pub const DATA_GET_SCRIPT: &'static str = "var str = WEBPLATFORM.rs_refs[$0].dataset[UTF8ToString($1)];if (str == null) return -1;return allocate(intArrayFromString(str), 'i8', ALLOC_STACK);";

/// Sets style property `$1` of node `$0` to `$2`.
pub const STYLE_SET_SCRIPT: &'static str = "WEBPLATFORM.rs_refs[$0].style[UTF8ToString($1)] = UTF8ToString($2);";

/// Returns style property `$1` of node `$0` as a NUL-terminated text.
pub const STYLE_GET_SCRIPT: &'static str = "return allocate(intArrayFromString(WEBPLATFORM.rs_refs[$0].style[UTF8ToString($1)]), 'i8', ALLOC_STACK);";

/// Sets property `$1` of node `$0` to the number `$2`.
pub const PROP_SET_I32_SCRIPT: &'static str = "WEBPLATFORM.rs_refs[$0][UTF8ToString($1)] = $2;";

/// Sets property `$1` of node `$0` to the text `$2`.
pub const PROP_SET_STR_SCRIPT: &'static str = "WEBPLATFORM.rs_refs[$0][UTF8ToString($1)] = UTF8ToString($2);";

/// Returns property `$1` of node `$0` as a number.
pub const PROP_GET_I32_SCRIPT: &'static str = "return Number(WEBPLATFORM.rs_refs[$0][UTF8ToString($1)])";

/// Returns property `$1` of node `$0` as a NUL-terminated text.
pub const PROP_GET_STR_SCRIPT: &'static str = "return allocate(intArrayFromString(WEBPLATFORM.rs_refs[$0][UTF8ToString($1)]), 'i8', ALLOC_STACK);";

/// Appends node `$1` to the children of node `$0`.
pub const APPEND_SCRIPT: &'static str = "WEBPLATFORM.rs_refs[$0].appendChild(WEBPLATFORM.rs_refs[$1]);";

/// Inserts HTML `$1` at the end of node `$0`.
pub const HTML_APPEND_SCRIPT: &'static str = "WEBPLATFORM.rs_refs[$0].insertAdjacentHTML('beforeEnd', UTF8ToString($1));";

/// Inserts HTML `$1` at the start of node `$0`.
pub const HTML_PREPEND_SCRIPT: &'static str = "WEBPLATFORM.rs_refs[$0].insertAdjacentHTML('afterBegin', UTF8ToString($1));";

/// Removes node `$0` from its parent.
pub const REMOVE_SELF_SCRIPT: &'static str = "var s = WEBPLATFORM.rs_refs[$0];s.parentNode.removeChild(s);";

/// Listens on node `$0`; `$1` event name, `$2` callback, `$3` trampoline, `$4` session.
pub const NODE_ON_SCRIPT: &'static str = "WEBPLATFORM.rs_refs[$0].addEventListener(UTF8ToString($1), function (e) {Runtime.dynCall('viii', $3, [$2, $4, e.target ? WEBPLATFORM.rs_refs.push(e.target) - 1 : -1]);}, false);";

/// The same in the capture phase.
pub const NODE_CAPTURED_ON_SCRIPT: &'static str = "WEBPLATFORM.rs_refs[$0].addEventListener(UTF8ToString($1), function (e) {Runtime.dynCall('viii', $3, [$2, $4, e.target ? WEBPLATFORM.rs_refs.push(e.target) - 1 : -1]);}, true);";

proof fn lemma_node_scripts_nul_free()
    ensures
        nul_free(TAGNAME_SCRIPT.spec_bytes()),
        nul_free(FOCUS_SCRIPT.spec_bytes()),
        nul_free(HTML_SET_SCRIPT.spec_bytes()),
        nul_free(HTML_GET_SCRIPT.spec_bytes()),
        nul_free(CLASS_GET_SCRIPT.spec_bytes()),
        nul_free(CLASS_ADD_SCRIPT.spec_bytes()),
        nul_free(CLASS_TOGGLE_SCRIPT.spec_bytes()),
        nul_free(CLASS_REMOVE_SCRIPT.spec_bytes()),
        nul_free(PARENT_SCRIPT.spec_bytes()),
        nul_free(DATA_SET_SCRIPT.spec_bytes()),
        nul_free(DATA_GET_SCRIPT.spec_bytes()),
        nul_free(STYLE_SET_SCRIPT.spec_bytes()),
        nul_free(STYLE_GET_SCRIPT.spec_bytes()),
        nul_free(PROP_SET_I32_SCRIPT.spec_bytes()),
        nul_free(PROP_SET_STR_SCRIPT.spec_bytes()),
        nul_free(PROP_GET_I32_SCRIPT.spec_bytes()),
        nul_free(PROP_GET_STR_SCRIPT.spec_bytes()),
        nul_free(APPEND_SCRIPT.spec_bytes()),
        nul_free(HTML_APPEND_SCRIPT.spec_bytes()),
        nul_free(HTML_PREPEND_SCRIPT.spec_bytes()),
        nul_free(REMOVE_SELF_SCRIPT.spec_bytes()),
        nul_free(NODE_ON_SCRIPT.spec_bytes()),
        nul_free(NODE_CAPTURED_ON_SCRIPT.spec_bytes()),
{
    reveal_strlit("var str = WEBPLATFORM.rs_refs[$0].tagName.toLowerCase();return allocate(intArrayFromString(str), 'i8', ALLOC_STACK);");
    reveal_strlit("WEBPLATFORM.rs_refs[$0].focus();");
    reveal_strlit("WEBPLATFORM.rs_refs[$0].innerHTML = UTF8ToString($1);");
    reveal_strlit("return allocate(intArrayFromString(WEBPLATFORM.rs_refs[$0].innerHTML), 'i8', ALLOC_STACK);");
    reveal_strlit("return allocate(intArrayFromString(WEBPLATFORM.rs_refs[$0].className), 'i8', ALLOC_STACK);");
    reveal_strlit("WEBPLATFORM.rs_refs[$0].classList.add(UTF8ToString($1));");
    reveal_strlit("WEBPLATFORM.rs_refs[$0].classList.toggle(UTF8ToString($1));");
    reveal_strlit("WEBPLATFORM.rs_refs[$0].classList.remove(UTF8ToString($1));");
    reveal_strlit("var value = WEBPLATFORM.rs_refs[$0].parentNode;if (!value) {return -1;}return WEBPLATFORM.rs_refs.push(value) - 1;");
    reveal_strlit("WEBPLATFORM.rs_refs[$0].dataset[UTF8ToString($1)] = UTF8ToString($2);");
    reveal_strlit("var str = WEBPLATFORM.rs_refs[$0].dataset[UTF8ToString($1)];if (str == null) return -1;return allocate(intArrayFromString(str), 'i8', ALLOC_STACK);");
    reveal_strlit("WEBPLATFORM.rs_refs[$0].style[UTF8ToString($1)] = UTF8ToString($2);");
    reveal_strlit("return allocate(intArrayFromString(WEBPLATFORM.rs_refs[$0].style[UTF8ToString($1)]), 'i8', ALLOC_STACK);");
    reveal_strlit("WEBPLATFORM.rs_refs[$0][UTF8ToString($1)] = $2;");
    reveal_strlit("WEBPLATFORM.rs_refs[$0][UTF8ToString($1)] = UTF8ToString($2);");
    reveal_strlit("return Number(WEBPLATFORM.rs_refs[$0][UTF8ToString($1)])");
    reveal_strlit("return allocate(intArrayFromString(WEBPLATFORM.rs_refs[$0][UTF8ToString($1)]), 'i8', ALLOC_STACK);");
    reveal_strlit("WEBPLATFORM.rs_refs[$0].appendChild(WEBPLATFORM.rs_refs[$1]);");
    reveal_strlit("WEBPLATFORM.rs_refs[$0].insertAdjacentHTML('beforeEnd', UTF8ToString($1));");
    reveal_strlit("WEBPLATFORM.rs_refs[$0].insertAdjacentHTML('afterBegin', UTF8ToString($1));");
    reveal_strlit("var s = WEBPLATFORM.rs_refs[$0];s.parentNode.removeChild(s);");
    reveal_strlit("WEBPLATFORM.rs_refs[$0].addEventListener(UTF8ToString($1), function (e) {Runtime.dynCall('viii', $3, [$2, $4, e.target ? WEBPLATFORM.rs_refs.push(e.target) - 1 : -1]);}, false);");
    reveal_strlit("WEBPLATFORM.rs_refs[$0].addEventListener(UTF8ToString($1), function (e) {Runtime.dynCall('viii', $3, [$2, $4, e.target ? WEBPLATFORM.rs_refs.push(e.target) - 1 : -1]);}, true);");
    vstd::string::is_ascii_spec_bytes(TAGNAME_SCRIPT);
    vstd::string::is_ascii_spec_bytes(FOCUS_SCRIPT);
    vstd::string::is_ascii_spec_bytes(HTML_SET_SCRIPT);
    vstd::string::is_ascii_spec_bytes(HTML_GET_SCRIPT);
    vstd::string::is_ascii_spec_bytes(CLASS_GET_SCRIPT);
    vstd::string::is_ascii_spec_bytes(CLASS_ADD_SCRIPT);
    vstd::string::is_ascii_spec_bytes(CLASS_TOGGLE_SCRIPT);
    vstd::string::is_ascii_spec_bytes(CLASS_REMOVE_SCRIPT);
    vstd::string::is_ascii_spec_bytes(PARENT_SCRIPT);
    vstd::string::is_ascii_spec_bytes(DATA_SET_SCRIPT);
    vstd::string::is_ascii_spec_bytes(DATA_GET_SCRIPT);
    vstd::string::is_ascii_spec_bytes(STYLE_SET_SCRIPT);
    vstd::string::is_ascii_spec_bytes(STYLE_GET_SCRIPT);
    vstd::string::is_ascii_spec_bytes(PROP_SET_I32_SCRIPT);
    vstd::string::is_ascii_spec_bytes(PROP_SET_STR_SCRIPT);
    vstd::string::is_ascii_spec_bytes(PROP_GET_I32_SCRIPT);
    vstd::string::is_ascii_spec_bytes(PROP_GET_STR_SCRIPT);
    vstd::string::is_ascii_spec_bytes(APPEND_SCRIPT);
    vstd::string::is_ascii_spec_bytes(HTML_APPEND_SCRIPT);
    vstd::string::is_ascii_spec_bytes(HTML_PREPEND_SCRIPT);
    vstd::string::is_ascii_spec_bytes(REMOVE_SELF_SCRIPT);
    vstd::string::is_ascii_spec_bytes(NODE_ON_SCRIPT);
    vstd::string::is_ascii_spec_bytes(NODE_CAPTURED_ON_SCRIPT);
}

/// A second reference to a node, for callbacks that need one of their own.
#[derive(Clone, Copy, Debug, PartialEq, Eq, Structural)]
pub struct JSRef {
    pub node: HtmlNode,
}

impl JSRef {
    /// The node referred to.
    pub fn deref(&self) -> (r: &HtmlNode)
        ensures
            *r == self.node,
    {
        &self.node
    }
}

/// The arguments of a listener registration on a node.
pub open spec fn node_on_values(node: i32, name: Seq<u8>, id: usize, trampoline: usize, session: usize) -> Seq<Value> {
    seq![
        Value::Int(node),
        Value::Text(name),
        Value::Opaque(id),
        Value::Opaque(trampoline),
        Value::Opaque(session),
    ]
}

impl HtmlNode {
    /// A reference to this node.
    pub fn root_ref(&self) -> (r: JSRef)
        ensures
            r.node == *self,
    {
        JSRef { node: *self }
    }

    /// The call that reads the node's tag name in lower case; its answer points at a text.
    pub fn tagname(&self) -> (r: HostCall)
        ensures
            r@ == call_spec(false, TAGNAME_SCRIPT.spec_bytes(), seq![Value::Int(self.id)]),
    {
        proof {
            lemma_node_scripts_nul_free();
        }
        let args = [Arg::Int(self.id)];
        let ghost vals = seq![Value::Int(self.id)];
        assert(values_of(args@) =~= vals);
        assert(call_ok(TAGNAME_SCRIPT.spec_bytes(), vals)) by {
            assert(vals[0] == Value::Int(self.id));
        }
        HostCall::raw(TAGNAME_SCRIPT, &args).unwrap()
    }

    /// The call that focuses the node.
    pub fn focus(&self) -> (r: HostCall)
        ensures
            r@ == call_spec(false, FOCUS_SCRIPT.spec_bytes(), seq![Value::Int(self.id)]),
    {
        proof {
            lemma_node_scripts_nul_free();
        }
        let args = [Arg::Int(self.id)];
        let ghost vals = seq![Value::Int(self.id)];
        assert(values_of(args@) =~= vals);
        assert(call_ok(FOCUS_SCRIPT.spec_bytes(), vals)) by {
            assert(vals[0] == Value::Int(self.id));
        }
        HostCall::raw(FOCUS_SCRIPT, &args).unwrap()
    }

    /// The call that replaces the node's inner HTML with `s`.
    pub fn html_set(&self, s: &str) -> (r: Result<HostCall, MarshalError>)
        ensures
            r is Ok <==> nul_free(s.spec_bytes()),
            r matches Ok(c) ==> c@ == call_spec(false, HTML_SET_SCRIPT.spec_bytes(), seq![Value::Int(self.id), Value::Text(s.spec_bytes())]),
    {
        proof {
            lemma_node_scripts_nul_free();
        }
        let args = [Arg::Int(self.id), Arg::Str(s)];
        let ghost vals = seq![Value::Int(self.id), Value::Text(s.spec_bytes())];
        assert(values_of(args@) =~= vals);
        assert(call_ok(HTML_SET_SCRIPT.spec_bytes(), vals) <==> nul_free(s.spec_bytes())) by {
            assert(vals[0] == Value::Int(self.id));
            assert(vals[1] == Value::Text(s.spec_bytes()));
        }
        HostCall::raw(HTML_SET_SCRIPT, &args)
    }

    /// The call that reads the node's inner HTML; its answer points at a text.
    pub fn html_get(&self) -> (r: HostCall)
        ensures
            r@ == call_spec(false, HTML_GET_SCRIPT.spec_bytes(), seq![Value::Int(self.id)]),
    {
        proof {
            lemma_node_scripts_nul_free();
        }
        let args = [Arg::Int(self.id)];
        let ghost vals = seq![Value::Int(self.id)];
        assert(values_of(args@) =~= vals);
        assert(call_ok(HTML_GET_SCRIPT.spec_bytes(), vals)) by {
            assert(vals[0] == Value::Int(self.id));
        }
        HostCall::raw(HTML_GET_SCRIPT, &args).unwrap()
    }

    /// The call that reads the node's class attribute; its answer points at a text, which `class_names` splits.
    pub fn class_get(&self) -> (r: HostCall)
        ensures
            r@ == call_spec(false, CLASS_GET_SCRIPT.spec_bytes(), seq![Value::Int(self.id)]),
    {
        proof {
            lemma_node_scripts_nul_free();
        }
        let args = [Arg::Int(self.id)];
        let ghost vals = seq![Value::Int(self.id)];
        assert(values_of(args@) =~= vals);
        assert(call_ok(CLASS_GET_SCRIPT.spec_bytes(), vals)) by {
            assert(vals[0] == Value::Int(self.id));
        }
        HostCall::raw(CLASS_GET_SCRIPT, &args).unwrap()
    }

    /// The call that adds class `s` to the node.
    pub fn class_add(&self, s: &str) -> (r: Result<HostCall, MarshalError>)
        ensures
            r is Ok <==> nul_free(s.spec_bytes()),
            r matches Ok(c) ==> c@ == call_spec(false, CLASS_ADD_SCRIPT.spec_bytes(), seq![Value::Int(self.id), Value::Text(s.spec_bytes())]),
    {
        proof {
            lemma_node_scripts_nul_free();
        }
        let args = [Arg::Int(self.id), Arg::Str(s)];
        let ghost vals = seq![Value::Int(self.id), Value::Text(s.spec_bytes())];
        assert(values_of(args@) =~= vals);
        assert(call_ok(CLASS_ADD_SCRIPT.spec_bytes(), vals) <==> nul_free(s.spec_bytes())) by {
            assert(vals[0] == Value::Int(self.id));
            assert(vals[1] == Value::Text(s.spec_bytes()));
        }
        HostCall::raw(CLASS_ADD_SCRIPT, &args)
    }

    /// The call that toggles class `s` on the node.
    pub fn class_toggle(&self, s: &str) -> (r: Result<HostCall, MarshalError>)
        ensures
            r is Ok <==> nul_free(s.spec_bytes()),
            r matches Ok(c) ==> c@ == call_spec(false, CLASS_TOGGLE_SCRIPT.spec_bytes(), seq![Value::Int(self.id), Value::Text(s.spec_bytes())]),
    {
        proof {
            lemma_node_scripts_nul_free();
        }
        let args = [Arg::Int(self.id), Arg::Str(s)];
        let ghost vals = seq![Value::Int(self.id), Value::Text(s.spec_bytes())];
        assert(values_of(args@) =~= vals);
        assert(call_ok(CLASS_TOGGLE_SCRIPT.spec_bytes(), vals) <==> nul_free(s.spec_bytes())) by {
            assert(vals[0] == Value::Int(self.id));
            assert(vals[1] == Value::Text(s.spec_bytes()));
        }
        HostCall::raw(CLASS_TOGGLE_SCRIPT, &args)
    }

    /// The call that removes class `s` from the node.
    pub fn class_remove(&self, s: &str) -> (r: Result<HostCall, MarshalError>)
        ensures
            r is Ok <==> nul_free(s.spec_bytes()),
            r matches Ok(c) ==> c@ == call_spec(false, CLASS_REMOVE_SCRIPT.spec_bytes(), seq![Value::Int(self.id), Value::Text(s.spec_bytes())]),
    {
        proof {
            lemma_node_scripts_nul_free();
        }
        let args = [Arg::Int(self.id), Arg::Str(s)];
        let ghost vals = seq![Value::Int(self.id), Value::Text(s.spec_bytes())];
        assert(values_of(args@) =~= vals);
        assert(call_ok(CLASS_REMOVE_SCRIPT.spec_bytes(), vals) <==> nul_free(s.spec_bytes())) by {
            assert(vals[0] == Value::Int(self.id));
            assert(vals[1] == Value::Text(s.spec_bytes()));
        }
        HostCall::raw(CLASS_REMOVE_SCRIPT, &args)
    }

    /// The call that finds the node's parent; read its answer with `node_from`.
    pub fn parent(&self) -> (r: HostCall)
        ensures
            r@ == call_spec(false, PARENT_SCRIPT.spec_bytes(), seq![Value::Int(self.id)]),
    {
        proof {
            lemma_node_scripts_nul_free();
        }
        let args = [Arg::Int(self.id)];
        let ghost vals = seq![Value::Int(self.id)];
        assert(values_of(args@) =~= vals);
        assert(call_ok(PARENT_SCRIPT.spec_bytes(), vals)) by {
            assert(vals[0] == Value::Int(self.id));
        }
        HostCall::raw(PARENT_SCRIPT, &args).unwrap()
    }

    /// The call that sets data attribute `s` to `v`.
    pub fn data_set(&self, s: &str, v: &str) -> (r: Result<HostCall, MarshalError>)
        ensures
            r is Ok <==> nul_free(s.spec_bytes()) && nul_free(v.spec_bytes()),
            r matches Ok(c) ==> c@ == call_spec(false, DATA_SET_SCRIPT.spec_bytes(), seq![Value::Int(self.id), Value::Text(s.spec_bytes()), Value::Text(v.spec_bytes())]),
    {
        proof {
            lemma_node_scripts_nul_free();
        }
        let args = [Arg::Int(self.id), Arg::Str(s), Arg::Str(v)];
        let ghost vals = seq![Value::Int(self.id), Value::Text(s.spec_bytes()), Value::Text(v.spec_bytes())];
        assert(values_of(args@) =~= vals);
        assert(call_ok(DATA_SET_SCRIPT.spec_bytes(), vals) <==> nul_free(s.spec_bytes()) && nul_free(v.spec_bytes())) by {
            assert(vals[0] == Value::Int(self.id));
            assert(vals[1] == Value::Text(s.spec_bytes()));
            assert(vals[2] == Value::Text(v.spec_bytes()));
        }
        HostCall::raw(DATA_SET_SCRIPT, &args)
    }

    /// The call that reads data attribute `s`; its answer points at a text, or is -1 where there is none.
    pub fn data_get(&self, s: &str) -> (r: Result<HostCall, MarshalError>)
        ensures
            r is Ok <==> nul_free(s.spec_bytes()),
            r matches Ok(c) ==> c@ == call_spec(false, DATA_GET_SCRIPT.spec_bytes(), seq![Value::Int(self.id), Value::Text(s.spec_bytes())]),
    {
        proof {
            lemma_node_scripts_nul_free();
        }
        let args = [Arg::Int(self.id), Arg::Str(s)];
        let ghost vals = seq![Value::Int(self.id), Value::Text(s.spec_bytes())];
        assert(values_of(args@) =~= vals);
        assert(call_ok(DATA_GET_SCRIPT.spec_bytes(), vals) <==> nul_free(s.spec_bytes())) by {
            assert(vals[0] == Value::Int(self.id));
            assert(vals[1] == Value::Text(s.spec_bytes()));
        }
        HostCall::raw(DATA_GET_SCRIPT, &args)
    }

    /// The call that sets style property `s` to `v`.
    pub fn style_set_str(&self, s: &str, v: &str) -> (r: Result<HostCall, MarshalError>)
        ensures
            r is Ok <==> nul_free(s.spec_bytes()) && nul_free(v.spec_bytes()),
            r matches Ok(c) ==> c@ == call_spec(false, STYLE_SET_SCRIPT.spec_bytes(), seq![Value::Int(self.id), Value::Text(s.spec_bytes()), Value::Text(v.spec_bytes())]),
    {
        proof {
            lemma_node_scripts_nul_free();
        }
        let args = [Arg::Int(self.id), Arg::Str(s), Arg::Str(v)];
        let ghost vals = seq![Value::Int(self.id), Value::Text(s.spec_bytes()), Value::Text(v.spec_bytes())];
        assert(values_of(args@) =~= vals);
        assert(call_ok(STYLE_SET_SCRIPT.spec_bytes(), vals) <==> nul_free(s.spec_bytes()) && nul_free(v.spec_bytes())) by {
            assert(vals[0] == Value::Int(self.id));
            assert(vals[1] == Value::Text(s.spec_bytes()));
            assert(vals[2] == Value::Text(v.spec_bytes()));
        }
        HostCall::raw(STYLE_SET_SCRIPT, &args)
    }

    /// The call that reads style property `s`; its answer points at a text.
    pub fn style_get_str(&self, s: &str) -> (r: Result<HostCall, MarshalError>)
        ensures
            r is Ok <==> nul_free(s.spec_bytes()),
            r matches Ok(c) ==> c@ == call_spec(false, STYLE_GET_SCRIPT.spec_bytes(), seq![Value::Int(self.id), Value::Text(s.spec_bytes())]),
    {
        proof {
            lemma_node_scripts_nul_free();
        }
        let args = [Arg::Int(self.id), Arg::Str(s)];
        let ghost vals = seq![Value::Int(self.id), Value::Text(s.spec_bytes())];
        assert(values_of(args@) =~= vals);
        assert(call_ok(STYLE_GET_SCRIPT.spec_bytes(), vals) <==> nul_free(s.spec_bytes())) by {
            assert(vals[0] == Value::Int(self.id));
            assert(vals[1] == Value::Text(s.spec_bytes()));
        }
        HostCall::raw(STYLE_GET_SCRIPT, &args)
    }

    /// The call that sets property `s` to the number `v`.
    pub fn prop_set_i32(&self, s: &str, v: i32) -> (r: Result<HostCall, MarshalError>)
        ensures
            r is Ok <==> nul_free(s.spec_bytes()),
            r matches Ok(c) ==> c@ == call_spec(false, PROP_SET_I32_SCRIPT.spec_bytes(), seq![Value::Int(self.id), Value::Text(s.spec_bytes()), Value::Int(v)]),
    {
        proof {
            lemma_node_scripts_nul_free();
        }
        let args = [Arg::Int(self.id), Arg::Str(s), Arg::Int(v)];
        let ghost vals = seq![Value::Int(self.id), Value::Text(s.spec_bytes()), Value::Int(v)];
        assert(values_of(args@) =~= vals);
        assert(call_ok(PROP_SET_I32_SCRIPT.spec_bytes(), vals) <==> nul_free(s.spec_bytes())) by {
            assert(vals[0] == Value::Int(self.id));
            assert(vals[1] == Value::Text(s.spec_bytes()));
            assert(vals[2] == Value::Int(v));
        }
        HostCall::raw(PROP_SET_I32_SCRIPT, &args)
    }

    /// The call that sets property `s` to the text `v`.
    pub fn prop_set_str(&self, s: &str, v: &str) -> (r: Result<HostCall, MarshalError>)
        ensures
            r is Ok <==> nul_free(s.spec_bytes()) && nul_free(v.spec_bytes()),
            r matches Ok(c) ==> c@ == call_spec(false, PROP_SET_STR_SCRIPT.spec_bytes(), seq![Value::Int(self.id), Value::Text(s.spec_bytes()), Value::Text(v.spec_bytes())]),
    {
        proof {
            lemma_node_scripts_nul_free();
        }
        let args = [Arg::Int(self.id), Arg::Str(s), Arg::Str(v)];
        let ghost vals = seq![Value::Int(self.id), Value::Text(s.spec_bytes()), Value::Text(v.spec_bytes())];
        assert(values_of(args@) =~= vals);
        assert(call_ok(PROP_SET_STR_SCRIPT.spec_bytes(), vals) <==> nul_free(s.spec_bytes()) && nul_free(v.spec_bytes())) by {
            assert(vals[0] == Value::Int(self.id));
            assert(vals[1] == Value::Text(s.spec_bytes()));
            assert(vals[2] == Value::Text(v.spec_bytes()));
        }
        HostCall::raw(PROP_SET_STR_SCRIPT, &args)
    }

    /// The call that reads property `s` as a number; its answer is that number.
    pub fn prop_get_i32(&self, s: &str) -> (r: Result<HostCall, MarshalError>)
        ensures
            r is Ok <==> nul_free(s.spec_bytes()),
            r matches Ok(c) ==> c@ == call_spec(false, PROP_GET_I32_SCRIPT.spec_bytes(), seq![Value::Int(self.id), Value::Text(s.spec_bytes())]),
    {
        proof {
            lemma_node_scripts_nul_free();
        }
        let args = [Arg::Int(self.id), Arg::Str(s)];
        let ghost vals = seq![Value::Int(self.id), Value::Text(s.spec_bytes())];
        assert(values_of(args@) =~= vals);
        assert(call_ok(PROP_GET_I32_SCRIPT.spec_bytes(), vals) <==> nul_free(s.spec_bytes())) by {
            assert(vals[0] == Value::Int(self.id));
            assert(vals[1] == Value::Text(s.spec_bytes()));
        }
        HostCall::raw(PROP_GET_I32_SCRIPT, &args)
    }

    /// The call that reads property `s` as a text; its answer points at a text.
    pub fn prop_get_str(&self, s: &str) -> (r: Result<HostCall, MarshalError>)
        ensures
            r is Ok <==> nul_free(s.spec_bytes()),
            r matches Ok(c) ==> c@ == call_spec(false, PROP_GET_STR_SCRIPT.spec_bytes(), seq![Value::Int(self.id), Value::Text(s.spec_bytes())]),
    {
        proof {
            lemma_node_scripts_nul_free();
        }
        let args = [Arg::Int(self.id), Arg::Str(s)];
        let ghost vals = seq![Value::Int(self.id), Value::Text(s.spec_bytes())];
        assert(values_of(args@) =~= vals);
        assert(call_ok(PROP_GET_STR_SCRIPT.spec_bytes(), vals) <==> nul_free(s.spec_bytes())) by {
            assert(vals[0] == Value::Int(self.id));
            assert(vals[1] == Value::Text(s.spec_bytes()));
        }
        HostCall::raw(PROP_GET_STR_SCRIPT, &args)
    }

    /// The call that appends node `s` as the last child of this one.
    pub fn append(&self, s: &HtmlNode) -> (r: HostCall)
        ensures
            r@ == call_spec(false, APPEND_SCRIPT.spec_bytes(), seq![Value::Int(self.id), Value::Int(s.id)]),
    {
        proof {
            lemma_node_scripts_nul_free();
        }
        let args = [Arg::Int(self.id), Arg::Int(s.id)];
        let ghost vals = seq![Value::Int(self.id), Value::Int(s.id)];
        assert(values_of(args@) =~= vals);
        assert(call_ok(APPEND_SCRIPT.spec_bytes(), vals)) by {
            assert(vals[0] == Value::Int(self.id));
            assert(vals[1] == Value::Int(s.id));
        }
        HostCall::raw(APPEND_SCRIPT, &args).unwrap()
    }

    /// The call that inserts the HTML `s` at the end of the node.
    pub fn html_append(&self, s: &str) -> (r: Result<HostCall, MarshalError>)
        ensures
            r is Ok <==> nul_free(s.spec_bytes()),
            r matches Ok(c) ==> c@ == call_spec(false, HTML_APPEND_SCRIPT.spec_bytes(), seq![Value::Int(self.id), Value::Text(s.spec_bytes())]),
    {
        proof {
            lemma_node_scripts_nul_free();
        }
        let args = [Arg::Int(self.id), Arg::Str(s)];
        let ghost vals = seq![Value::Int(self.id), Value::Text(s.spec_bytes())];
        assert(values_of(args@) =~= vals);
        assert(call_ok(HTML_APPEND_SCRIPT.spec_bytes(), vals) <==> nul_free(s.spec_bytes())) by {
            assert(vals[0] == Value::Int(self.id));
            assert(vals[1] == Value::Text(s.spec_bytes()));
        }
        HostCall::raw(HTML_APPEND_SCRIPT, &args)
    }

    /// The call that inserts the HTML `s` at the start of the node.
    pub fn html_prepend(&self, s: &str) -> (r: Result<HostCall, MarshalError>)
        ensures
            r is Ok <==> nul_free(s.spec_bytes()),
            r matches Ok(c) ==> c@ == call_spec(false, HTML_PREPEND_SCRIPT.spec_bytes(), seq![Value::Int(self.id), Value::Text(s.spec_bytes())]),
    {
        proof {
            lemma_node_scripts_nul_free();
        }
        let args = [Arg::Int(self.id), Arg::Str(s)];
        let ghost vals = seq![Value::Int(self.id), Value::Text(s.spec_bytes())];
        assert(values_of(args@) =~= vals);
        assert(call_ok(HTML_PREPEND_SCRIPT.spec_bytes(), vals) <==> nul_free(s.spec_bytes())) by {
            assert(vals[0] == Value::Int(self.id));
            assert(vals[1] == Value::Text(s.spec_bytes()));
        }
        HostCall::raw(HTML_PREPEND_SCRIPT, &args)
    }

    /// The call that takes the node out of its parent.
    pub fn remove_self(&self) -> (r: HostCall)
        ensures
            r@ == call_spec(false, REMOVE_SELF_SCRIPT.spec_bytes(), seq![Value::Int(self.id)]),
    {
        proof {
            lemma_node_scripts_nul_free();
        }
        let args = [Arg::Int(self.id)];
        let ghost vals = seq![Value::Int(self.id)];
        assert(values_of(args@) =~= vals);
        assert(call_ok(REMOVE_SELF_SCRIPT.spec_bytes(), vals)) by {
            assert(vals[0] == Value::Int(self.id));
        }
        HostCall::raw(REMOVE_SELF_SCRIPT, &args).unwrap()
    }

    /// Registers `f` for events named `s` on this node, in the bubbling phase. The returned
    /// call hands the host the callback's index, the event trampoline's word and the
    /// session's word; `f` is kept in `doc` only where the call could be built.
    pub fn on<E, V, S, B>(&self, doc: &mut Document<E, V, S, B>, s: &str, f: E, trampoline: usize, session: usize) -> (r: Result<HostCall, MarshalError>)
        ensures
            r is Ok <==> nul_free(s.spec_bytes()),
            r matches Ok(c) ==> c@ == call_spec(
                false,
                NODE_ON_SCRIPT.spec_bytes(),
                node_on_values(self.id, s.spec_bytes(), old(doc).refs@.len() as usize, trampoline, session),
            ),
            r is Ok ==> final(doc).refs@ == old(doc).refs@.push(f),
            r is Err ==> final(doc).refs@ == old(doc).refs@,
            final(doc).refs_v@ == old(doc).refs_v@,
            final(doc).refs_v_string@ == old(doc).refs_v_string@,
            final(doc).refs_v_u8array@ == old(doc).refs_v_u8array@,
    {
        proof {
            lemma_node_scripts_nul_free();
        }
        let id = doc.refs.len();
        let args = [Arg::Int(self.id), Arg::Str(s), Arg::Opaque(id), Arg::Opaque(trampoline), Arg::Opaque(session)];
        let ghost vals = node_on_values(self.id, s.spec_bytes(), id, trampoline, session);
        assert(values_of(args@) =~= vals);
        assert(call_ok(NODE_ON_SCRIPT.spec_bytes(), vals) <==> nul_free(s.spec_bytes())) by {
            assert(vals[0] == Value::Int(self.id));
            assert(vals[1] == Value::Text(s.spec_bytes()));
            assert(vals[2] == Value::Opaque(id));
            assert(vals[3] == Value::Opaque(trampoline));
            assert(vals[4] == Value::Opaque(session));
        }
        match HostCall::raw(NODE_ON_SCRIPT, &args) {
            Ok(c) => {
                doc.push_ref(f);
                Ok(c)
            },
            Err(e) => Err(e),
        }
    }

    /// Registers `f` for events named `s` on this node, in the capture phase. The returned
    /// call hands the host the callback's index, the event trampoline's word and the
    /// session's word; `f` is kept in `doc` only where the call could be built.
    pub fn captured_on<E, V, S, B>(&self, doc: &mut Document<E, V, S, B>, s: &str, f: E, trampoline: usize, session: usize) -> (r: Result<HostCall, MarshalError>)
        ensures
            r is Ok <==> nul_free(s.spec_bytes()),
            r matches Ok(c) ==> c@ == call_spec(
                false,
                NODE_CAPTURED_ON_SCRIPT.spec_bytes(),
                node_on_values(self.id, s.spec_bytes(), old(doc).refs@.len() as usize, trampoline, session),
            ),
            r is Ok ==> final(doc).refs@ == old(doc).refs@.push(f),
            r is Err ==> final(doc).refs@ == old(doc).refs@,
            final(doc).refs_v@ == old(doc).refs_v@,
            final(doc).refs_v_string@ == old(doc).refs_v_string@,
            final(doc).refs_v_u8array@ == old(doc).refs_v_u8array@,
    {
        proof {
            lemma_node_scripts_nul_free();
        }
        let id = doc.refs.len();
        let args = [Arg::Int(self.id), Arg::Str(s), Arg::Opaque(id), Arg::Opaque(trampoline), Arg::Opaque(session)];
        let ghost vals = node_on_values(self.id, s.spec_bytes(), id, trampoline, session);
        assert(values_of(args@) =~= vals);
        assert(call_ok(NODE_CAPTURED_ON_SCRIPT.spec_bytes(), vals) <==> nul_free(s.spec_bytes())) by {
            assert(vals[0] == Value::Int(self.id));
            assert(vals[1] == Value::Text(s.spec_bytes()));
            assert(vals[2] == Value::Opaque(id));
            assert(vals[3] == Value::Opaque(trampoline));
            assert(vals[4] == Value::Opaque(session));
        }
        match HostCall::raw(NODE_CAPTURED_ON_SCRIPT, &args) {
            Ok(c) => {
                doc.push_ref(f);
                Ok(c)
            },
            Err(e) => Err(e),
        }
    }
}

/// The characters with Unicode's White_Space property, which `char::is_whitespace` tests.
pub open spec fn is_white(c: char) -> bool {
    ('\u{9}' <= c && c <= '\u{d}') || c == ' ' || c == '\u{85}' || c == '\u{a0}' || c == '\u{1680}'
        || ('\u{2000}' <= c && c <= '\u{200a}') || c == '\u{2028}' || c == '\u{2029}' || c == '\u{202f}'
        || c == '\u{205f}' || c == '\u{3000}'
}

/// Whether `c` is white space.
pub fn is_white_char(c: char) -> (r: bool)
    ensures
        r == is_white(c),
{
    ('\u{9}' <= c && c <= '\u{d}') || c == ' ' || c == '\u{85}' || c == '\u{a0}' || c == '\u{1680}'
        || ('\u{2000}' <= c && c <= '\u{200a}') || c == '\u{2028}' || c == '\u{2029}' || c == '\u{202f}'
        || c == '\u{205f}' || c == '\u{3000}'
}

/// Index of the first character at or after `i` that is not white space, or the length.
pub open spec fn first_non_white_from(s: Seq<char>, i: int) -> int
    decreases s.len() - i,
{
    if i < 0 || i >= s.len() {
        s.len() as int
    } else if !is_white(s[i]) {
        i
    } else {
        first_non_white_from(s, i + 1)
    }
}

/// One past the last character before `j` that is not white space, or zero.
pub open spec fn non_white_end(s: Seq<char>, j: int) -> int
    decreases j,
{
    if j <= 0 || j > s.len() {
        0
    } else if !is_white(s[j - 1]) {
        j
    } else {
        non_white_end(s, j - 1)
    }
}

/// `s` without leading and trailing white space.
pub open spec fn trimmed(s: Seq<char>) -> Seq<char> {
    let a = first_non_white_from(s, 0);
    let b = non_white_end(s, s.len() as int);
    if a < b {
        s.subrange(a, b)
    } else {
        Seq::empty()
    }
}

/// The pieces of `s` from `start`, cut at every white-space character from `i` on.
pub open spec fn pieces_from(s: Seq<char>, start: int, i: int) -> Seq<Seq<char>>
    decreases s.len() - i,
{
    if i < 0 || i >= s.len() {
        seq![s.subrange(start, s.len() as int)]
    } else if is_white(s[i]) {
        seq![s.subrange(start, i)] + pieces_from(s, i + 1, i + 1)
    } else {
        pieces_from(s, start, i + 1)
    }
}

/// The names of a class attribute: the trimmed text cut at each white-space character.
/// Runs of white space give empty names, and an empty attribute gives one empty name.
pub open spec fn class_names_spec(text: Seq<char>) -> Seq<Seq<char>> {
    pieces_from(trimmed(text), 0, 0)
}

/// Splits a class attribute as `class_names_spec` says; `class_get`'s answer is read with it.
pub fn class_names(text: &str) -> (r: Vec<String>)
    ensures
        r@.map_values(|n: String| n@) == class_names_spec(text@),
{
    let n = text.unicode_len();
    let mut a: usize = 0;
    while a < n && is_white_char(text.get_char(a))
        invariant
            a <= n == text@.len(),
            first_non_white_from(text@, 0) == first_non_white_from(text@, a as int),
        decreases n - a,
    {
        a += 1;
    }
    let mut b: usize = n;
    while b > 0 && is_white_char(text.get_char(b - 1))
        invariant
            b <= n == text@.len(),
            non_white_end(text@, n as int) == non_white_end(text@, b as int),
        decreases b,
    {
        b -= 1;
    }
    proof {
        if a < n {
            lemma_non_white_end_at_least(text@, n as int, a as int);
        }
    }
    let t: &str = if a < b {
        text.substring_char(a, b)
    } else {
        text.substring_char(0, 0)
    };
    assert(t@ =~= trimmed(text@));
    let m = t.unicode_len();
    let mut out: Vec<String> = Vec::new();
    let mut start: usize = 0;
    let mut i: usize = 0;
    while i < m
        invariant
            m == t@.len(),
            start <= i <= m,
            out@.map_values(|n: String| n@) + pieces_from(t@, start as int, i as int) == pieces_from(t@, 0, 0),
        decreases m - i,
    {
        if is_white_char(t.get_char(i)) {
            let piece = t.substring_char(start, i).to_owned();
            let ghost before = out@.map_values(|n: String| n@);
            out.push(piece);
            assert(out@.map_values(|n: String| n@) =~= before.push(piece@));
            assert(pieces_from(t@, start as int, i as int) == seq![t@.subrange(start as int, i as int)] + pieces_from(t@, i + 1, i + 1));
            assert(before.push(piece@) + pieces_from(t@, i + 1, i + 1) =~= before + pieces_from(t@, start as int, i as int));
            i += 1;
            start = i;
        } else {
            i += 1;
        }
    }
    let last = t.substring_char(start, m).to_owned();
    let ghost before = out@.map_values(|n: String| n@);
    out.push(last);
    assert(out@.map_values(|n: String| n@) =~= before.push(last@));
    assert(before + pieces_from(t@, start as int, i as int) =~= before.push(last@));
    out
}

proof fn lemma_non_white_end_at_least(s: Seq<char>, j: int, a: int)
    requires
        0 <= a < j <= s.len(),
        !is_white(s[a]),
    ensures
        non_white_end(s, j) > a,
    decreases j,
{
    if is_white(s[j - 1]) {
        lemma_non_white_end_at_least(s, j - 1, a);
    }
}

} // verus!
