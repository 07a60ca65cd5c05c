use webplatform::call::{
    fetch_exception_call, on_exception_text, on_guarded_return, text_from_c, ExceptionSlot,
    GuardAction, HostCall, EXCEPTION_SENTINEL, GUARD_CLOSE, GUARD_OPEN,
};
use webplatform::interop::{Arg, MarshalError, Marshalled};

/// A stand-in for the host runtime that understands three script forms:
/// `return N;`, `return $K;` and `throw 'TEXT';`.
struct TestHost {
    slot: ExceptionSlot,
}

enum Outcome {
    Value(i32),
    Thrown(String),
}

impl TestHost {
    fn new() -> TestHost {
        TestHost { slot: ExceptionSlot::new() }
    }

    fn run_body(body: &str, call: &HostCall) -> Outcome {
        let body = body.trim();
        if let Some(rest) = body.strip_prefix("throw '") {
            let text = rest.strip_suffix("';").unwrap();
            return Outcome::Thrown(text.to_string());
        }
        let expr = body.strip_prefix("return ").unwrap().strip_suffix(';').unwrap();
        if let Some(k) = expr.strip_prefix('$') {
            let k: usize = k.parse().unwrap();
            match call.args[k] {
                Marshalled::Int(v) => Outcome::Value(v),
                _ => panic!("only integers are echoed"),
            }
        } else {
            Outcome::Value(expr.parse().unwrap())
        }
    }

    /// Runs a call as the host would and returns its word.
    fn invoke(&mut self, call: &HostCall) -> i32 {
        let text = text_from_c(&call.script).unwrap();
        if call.guarded {
            let body = text.strip_prefix(GUARD_OPEN).unwrap().strip_suffix(GUARD_CLOSE).unwrap();
            match TestHost::run_body(body, call) {
                Outcome::Value(v) => v,
                Outcome::Thrown(e) => {
                    self.slot.store(e);
                    EXCEPTION_SENTINEL
                },
            }
        } else {
            match TestHost::run_body(&text, call) {
                Outcome::Value(v) => v,
                Outcome::Thrown(_) => panic!("unguarded script threw"),
            }
        }
    }

    /// Runs a guarded call to its end, reading the exception slot where the sentinel came back.
    fn guarded(&mut self, call: &HostCall) -> Result<i32, String> {
        let ret = self.invoke(call);
        match on_guarded_return(ret) {
            GuardAction::Complete(v) => Ok(v),
            GuardAction::FetchException => {
                let fetch = fetch_exception_call();
                assert!(!fetch.guarded);
                let text = self.slot.take();
                match on_exception_text(text) {
                    GuardAction::Complete(v) => Ok(v),
                    GuardAction::Fail(m) => Err(m),
                    GuardAction::FetchException => unreachable!(),
                }
            },
            GuardAction::Fail(m) => Err(m),
        }
    }
}

#[test]
fn test_js_raw_simple() {
    let mut host = TestHost::new();
    let call = HostCall::raw("return 0;", &[]).unwrap();
    let a = host.invoke(&call);
    assert_eq!(a, 0);
}

#[test]
fn test_js_raw_value() {
    let mut host = TestHost::new();
    let call = HostCall::raw("return $0;", &[Arg::Int(42)]).unwrap();
    let a = host.invoke(&call);
    assert_eq!(a, 42);
}

#[test]
fn test_js_guarded_simple() {
    let mut host = TestHost::new();
    let call = HostCall::guarded("return 0;", &[]).unwrap();
    let a = host.guarded(&call).unwrap();
    assert_eq!(a, 0);
}

#[test]
fn test_js_guarded_value() {
    let mut host = TestHost::new();
    let call = HostCall::guarded("return $0;", &[Arg::Int(42)]).unwrap();
    let a = host.guarded(&call).unwrap();
    assert_eq!(a, 42);
}

#[test]
fn test_js_guarded_exception() {
    let mut host = TestHost::new();
    let call = HostCall::guarded("throw 'exception';", &[]).unwrap();
    let result = host.guarded(&call);
    assert!(result.is_err());
}

#[test]
fn guarded_success_leaves_slot_empty() {
    let mut host = TestHost::new();
    let call = HostCall::guarded("return 0;", &[]).unwrap();
    assert_eq!(host.guarded(&call), Ok(0));
    assert!(host.slot.is_empty());
}

#[test]
fn guarded_throw_reports_text_then_next_call_returns() {
    let mut host = TestHost::new();
    let call = HostCall::guarded("throw 'exception';", &[]).unwrap();
    assert_eq!(host.guarded(&call), Err("exception".to_string()));
    assert!(host.slot.is_empty());
    let next = HostCall::guarded("return 7;", &[]).unwrap();
    assert_eq!(host.guarded(&next), Ok(7));
}

#[test]
fn raw_script_is_terminated() {
    let call = HostCall::raw("return 0;", &[]).unwrap();
    assert_eq!(call.script, b"return 0;\0".to_vec());
    assert!(!call.guarded);
    assert!(call.args.is_empty());
}

#[test]
fn guarded_script_is_wrapped() {
    let call = HostCall::guarded("return 0;", &[]).unwrap();
    let expected = b"try { return 0; } catch (e) { WEBPLATFORM.last_exc = e; return -173642426; }\0".to_vec();
    assert_eq!(call.script, expected);
    assert!(call.guarded);
}

#[test]
fn script_with_nul_is_refused() {
    assert_eq!(HostCall::raw("return\00;", &[]).err(), Some(MarshalError::InteriorNul));
    assert_eq!(HostCall::guarded("a\0", &[]).err(), Some(MarshalError::InteriorNul));
}

#[test]
fn argument_with_nul_is_refused() {
    let r = HostCall::raw("return $0;", &[Arg::Int(1), Arg::Str("a\0b")]);
    assert_eq!(r.err(), Some(MarshalError::InteriorNul));
}

#[test]
fn sentinel_asks_for_the_exception() {
    assert!(matches!(on_guarded_return(EXCEPTION_SENTINEL), GuardAction::FetchException));
    assert!(matches!(on_guarded_return(5), GuardAction::Complete(5)));
    assert!(matches!(on_guarded_return(-1), GuardAction::Complete(-1)));
}

#[test]
fn empty_exception_text_means_a_real_value() {
    assert!(matches!(on_exception_text(String::new()), GuardAction::Complete(EXCEPTION_SENTINEL)));
    match on_exception_text("boom".to_string()) {
        GuardAction::Fail(m) => assert_eq!(m, "boom"),
        _ => panic!("expected a failure"),
    }
}

#[test]
fn clearing_the_slot_twice_is_empty_both_times() {
    let mut slot = ExceptionSlot::new();
    assert_eq!(slot.take(), "");
    assert_eq!(slot.take(), "");
    slot.store("err".to_string());
    assert_eq!(slot.take(), "err");
    assert_eq!(slot.take(), "");
    assert!(slot.is_empty());
}

#[test]
fn fetch_exception_call_is_unguarded() {
    let call = fetch_exception_call();
    assert!(!call.guarded);
    assert!(call.args.is_empty());
    assert_eq!(*call.script.last().unwrap(), 0u8);
    assert!(text_from_c(&call.script).unwrap().contains("WEBPLATFORM.last_exc = null;"));
}

#[test]
fn text_from_c_stops_at_nul_and_checks_utf8() {
    assert_eq!(text_from_c(b"div\0junk"), Some("div".to_string()));
    assert_eq!(text_from_c(b"abc"), Some("abc".to_string()));
    assert_eq!(text_from_c(b"\0abc"), Some(String::new()));
    assert_eq!(text_from_c("h\u{e9}\0".as_bytes()), Some("h\u{e9}".to_string()));
    assert_eq!(text_from_c(&[0xff, 0xfe, 0]), None);
}
