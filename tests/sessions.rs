use std::cell::Cell;
use std::rc::Rc;

use webplatform::callback::Registry;
use webplatform::document::{init, node_from, websocket_from, Document};
use webplatform::handle::{decode_handle, event_for_target, Event, HandleTable, HtmlNode, NO_OBJECT};
use webplatform::html_node::JSRef;
use webplatform::interop::{Marshalled, MarshalError};
use webplatform::websocket::WebSocket;

type Doc = Document<Box<dyn FnMut(Event)>, Box<dyn FnMut()>, Box<dyn FnMut(String)>, Box<dyn FnMut(&[u8])>>;

fn new_doc() -> Doc {
    let (doc, call) = init();
    assert!(!call.guarded);
    doc
}

#[test]
fn handle_words() {
    assert_eq!(decode_handle(NO_OBJECT), None);
    assert_eq!(decode_handle(-5), None);
    assert_eq!(decode_handle(0), Some(0));
    assert_eq!(decode_handle(5), Some(5));
    assert_eq!(node_from(-1), None);
    assert_eq!(node_from(3), Some(HtmlNode::new(3)));
    assert_eq!(websocket_from(-1), None);
    assert_eq!(websocket_from(2), Some(WebSocket::new(2)));
}

#[test]
fn table_appends_fresh_handles() {
    let mut table: HandleTable<&str> = HandleTable::new();
    assert_eq!(table.locate(None), -1);
    assert_eq!(table.len(), 0);
    let a = table.locate(Some("body"));
    let b = table.locate(Some("div"));
    let c = table.push("span");
    assert_eq!((a, b, c), (0, 1, 2));
    assert_eq!(table.locate(None), NO_OBJECT);
    assert_eq!(table.len(), 3);
    assert_eq!(table.get(a), Some(&"body"));
    assert_eq!(table.get(b), Some(&"div"));
    assert_eq!(table.get(3), None);
    assert_eq!(table.get(-1), None);
}

#[test]
fn event_target_absent_or_wrapped() {
    assert_eq!(event_for_target(-1), Event { target: None });
    assert_eq!(event_for_target(5), Event { target: Some(HtmlNode { id: 5 }) });
    assert_eq!(event_for_target(0).target, Some(HtmlNode::new(0)));
}

#[test]
fn unit_callback_fires_once_per_firing() {
    let count = Rc::new(Cell::new(0));
    let mut reg: Registry<Box<dyn FnMut()>> = Registry::new();
    let c = count.clone();
    let id = reg.register(Box::new(move || c.set(c.get() + 1)));
    assert_eq!(id, 0);
    assert_eq!(count.get(), 0);
    assert!(reg.fire(id));
    assert_eq!(count.get(), 1);
    assert!(reg.fire(id));
    assert!(reg.fire(id));
    assert_eq!(count.get(), 3);
    assert!(!reg.fire(1));
    assert_eq!(count.get(), 3);
}

#[test]
fn only_the_named_callback_fires() {
    let hits = Rc::new(Cell::new((0, 0)));
    let mut reg: Registry<Box<dyn FnMut()>> = Registry::new();
    let h1 = hits.clone();
    let h2 = hits.clone();
    let a = reg.register(Box::new(move || h1.set((h1.get().0 + 1, h1.get().1))));
    let b = reg.register(Box::new(move || h2.set((h2.get().0, h2.get().1 + 1))));
    assert_eq!((a, b), (0, 1));
    assert!(reg.fire(b));
    assert_eq!(hits.get(), (0, 1));
    assert_eq!(reg.len(), 2);
}

#[test]
fn event_callback_sees_its_target() {
    let seen: Rc<Cell<Option<Option<i32>>>> = Rc::new(Cell::new(None));
    let mut reg: Registry<Box<dyn FnMut(Event)>> = Registry::new();
    let s = seen.clone();
    let id = reg.register(Box::new(move |e: Event| s.set(Some(e.target.map(|n| n.id)))));
    assert!(reg.fire_event(id, -1));
    assert_eq!(seen.get(), Some(None));
    assert!(reg.fire_event(id, 5));
    assert_eq!(seen.get(), Some(Some(5)));
}

#[test]
fn text_callback_gets_decoded_text() {
    let seen = Rc::new(std::cell::RefCell::new(Vec::new()));
    let mut reg: Registry<Box<dyn FnMut(String)>> = Registry::new();
    let s = seen.clone();
    let id = reg.register(Box::new(move |t: String| s.borrow_mut().push(t)));
    assert!(reg.fire_text(id, b"hello\0rest"));
    assert!(!reg.fire_text(id, &[0xc3, 0x28, 0]));
    assert!(!reg.fire_text(9, b"x\0"));
    assert_eq!(*seen.borrow(), vec!["hello".to_string()]);
}

#[test]
fn bytes_callback_gets_the_bytes() {
    let total = Rc::new(Cell::new(0usize));
    let mut reg: Registry<Box<dyn FnMut(&[u8])>> = Registry::new();
    let t = total.clone();
    let id = reg.register(Box::new(move |b: &[u8]| t.set(t.get() + b.len())));
    assert!(reg.fire_bytes(id, &[1, 2, 3]));
    assert!(reg.fire_bytes(id, &[]));
    assert_eq!(total.get(), 3);
}

#[test]
fn window_listener_registration() {
    let mut doc = new_doc();
    let call = doc.on("click", Box::new(|_e: Event| {}), 77, 88).unwrap();
    assert_eq!(
        call.args,
        vec![Marshalled::Int(0), Marshalled::Str(0), Marshalled::Opaque(0), Marshalled::Opaque(77), Marshalled::Opaque(88)]
    );
    assert_eq!(call.arena.text(0), b"click\0");
    assert_eq!(doc.refs.len(), 1);
    let second = doc.on("keydown", Box::new(|_e: Event| {}), 77, 88).unwrap();
    assert_eq!(second.args[2], Marshalled::Opaque(1));
    assert_eq!(doc.refs.len(), 2);
    assert_eq!(doc.refs_v.len(), 0);
}

#[test]
fn failed_registration_keeps_nothing() {
    let mut doc = new_doc();
    let r = doc.on("bad\0name", Box::new(|_e: Event| {}), 1, 2);
    assert_eq!(r.err(), Some(MarshalError::InteriorNul));
    assert_eq!(doc.refs.len(), 0);
}

#[test]
fn push_refs_fill_their_own_registry() {
    let mut doc = new_doc();
    doc.push_ref(Box::new(|_e: Event| {}));
    doc.push_ref_v(Box::new(|| {}));
    doc.push_ref_v(Box::new(|| {}));
    doc.push_ref_v_string(Box::new(|_s: String| {}));
    doc.push_ref_v_u8array(Box::new(|_b: &[u8]| {}));
    assert_eq!(doc.refs.len(), 1);
    assert_eq!(doc.refs_v.len(), 2);
    assert_eq!(doc.refs_v_string.len(), 1);
    assert_eq!(doc.refs_v_u8array.len(), 1);
}

#[test]
fn socket_listeners_and_sends() {
    let mut doc = new_doc();
    let ws = WebSocket::new(4);
    let open = ws.add_event_listener_open(&mut doc, Box::new(|| {}), 10, 99);
    assert_eq!(
        open.args,
        vec![Marshalled::Int(4), Marshalled::Opaque(0), Marshalled::Opaque(10), Marshalled::Opaque(99)]
    );
    let text = ws.add_event_listener_message_string(&mut doc, Box::new(|_s: String| {}), 11, 99);
    assert_eq!(text.args[1], Marshalled::Opaque(0));
    let bin = ws.add_event_listener_message_binary(&mut doc, Box::new(|_b: &[u8]| {}), 12, 99);
    assert_eq!(bin.args[2], Marshalled::Opaque(12));
    assert_eq!((doc.refs_v.len(), doc.refs_v_string.len(), doc.refs_v_u8array.len()), (1, 1, 1));
    let sent = ws.send_binary(&[5, 6]);
    assert_eq!(sent.args, vec![Marshalled::Int(4), Marshalled::Bytes(0)]);
    assert_eq!(sent.arena.blob(0), &[5u8, 6][..]);
    let msg = ws.send("hi").unwrap();
    assert_eq!(msg.arena.text(0), b"hi\0");
    assert!(ws.close("").is_ok());
}

#[test]
fn node_calls_carry_the_handle() {
    let mut doc = new_doc();
    let node = HtmlNode::new(3);
    let child = HtmlNode::new(8);
    let c = node.append(&child);
    assert_eq!(c.args, vec![Marshalled::Int(3), Marshalled::Int(8)]);
    let c = node.data_set("key", "value").unwrap();
    assert_eq!(c.arena.text(0), b"key\0");
    assert_eq!(c.arena.text(1), b"value\0");
    let c = node.prop_set_i32("value", 9).unwrap();
    assert_eq!(c.args[2], Marshalled::Int(9));
    let c = node.on(&mut doc, "click", Box::new(|_e: Event| {}), 1, 2).unwrap();
    assert_eq!(c.args[0], Marshalled::Int(3));
    let c = node.captured_on(&mut doc, "click", Box::new(|_e: Event| {}), 1, 2).unwrap();
    assert_eq!(c.args[2], Marshalled::Opaque(1));
    assert_eq!(doc.refs.len(), 2);
    assert!(node.html_set("a\0").is_err());
    let r: JSRef = node.root_ref();
    assert_eq!(*r.deref(), node);
}
