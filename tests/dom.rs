use std::collections::HashSet;

use webplatform::call::{text_from_c, HostCall};
use webplatform::document::{
    init, node_from, Document, ELEMENT_CREATE_SCRIPT, ELEMENT_QUERY_SCRIPT, INIT_SCRIPT,
};
use webplatform::handle::{Event, HandleTable, HtmlNode, NO_OBJECT};
use webplatform::html_node::{
    class_names, APPEND_SCRIPT, CLASS_ADD_SCRIPT, CLASS_GET_SCRIPT, CLASS_REMOVE_SCRIPT,
    CLASS_TOGGLE_SCRIPT, DATA_GET_SCRIPT, DATA_SET_SCRIPT, FOCUS_SCRIPT, HTML_APPEND_SCRIPT,
    HTML_GET_SCRIPT, HTML_PREPEND_SCRIPT, HTML_SET_SCRIPT, PARENT_SCRIPT, PROP_GET_STR_SCRIPT,
    PROP_SET_STR_SCRIPT, REMOVE_SELF_SCRIPT, STYLE_GET_SCRIPT, STYLE_SET_SCRIPT, TAGNAME_SCRIPT,
};
use webplatform::interop::Marshalled;

type Doc = Document<Box<dyn FnMut(Event)>, Box<dyn FnMut()>, Box<dyn FnMut(String)>, Box<dyn FnMut(&[u8])>>;

/// One element of the stand-in document.
struct Elem {
    tag: String,
    classes: Vec<String>,
    /// Inner content: text runs and child elements, in order.
    content: Vec<Content>,
    parent: Option<usize>,
    attrs: Vec<(String, String)>,
}

enum Content {
    Text(String),
    Child(usize),
}

/// A stand-in for the host: a small document, the handle table and the host's memory
/// for the texts it answers with.
struct Dom {
    elems: Vec<Elem>,
    refs: HandleTable<usize>,
    memory: Vec<Vec<u8>>,
    body: usize,
}

impl Dom {
    fn new() -> Dom {
        let body = Elem { tag: "body".into(), classes: vec![], content: vec![], parent: None, attrs: vec![] };
        Dom { elems: vec![body], refs: HandleTable::new(), memory: vec![], body: 0 }
    }

    fn new_elem(&mut self, tag: &str) -> usize {
        self.elems.push(Elem { tag: tag.into(), classes: vec![], content: vec![], parent: None, attrs: vec![] });
        self.elems.len() - 1
    }

    /// Parses `<tag class="..">..</tag>` and text, as the tests write them.
    fn parse(&mut self, html: &str, into: usize) -> usize {
        let mut rest = html;
        let mut out = Vec::new();
        while !rest.is_empty() {
            if rest.starts_with("</") {
                break;
            } else if let Some(r) = rest.strip_prefix('<') {
                let end = r.find('>').unwrap();
                let head = &r[..end];
                let mut parts = head.splitn(2, ' ');
                let tag = parts.next().unwrap().to_string();
                let id = self.new_elem(&tag);
                if let Some(attr) = parts.next() {
                    let v = attr.strip_prefix("class=\"").unwrap().strip_suffix('"').unwrap();
                    self.elems[id].classes = v.split(' ').map(|c| c.to_string()).collect();
                }
                self.elems[id].parent = Some(into);
                let used = self.parse(&r[end + 1..], id);
                let after = &r[end + 1 + used..];
                let close = after.find('>').unwrap();
                rest = &after[close + 1..];
                out.push(Content::Child(id));
            } else {
                let end = rest.find('<').unwrap_or(rest.len());
                out.push(Content::Text(rest[..end].to_string()));
                rest = &rest[end..];
            }
        }
        self.elems[into].content.extend(out);
        html.len() - rest.len()
    }

    fn inner_html(&self, id: usize) -> String {
        let mut s = String::new();
        for c in &self.elems[id].content {
            match c {
                Content::Text(t) => s.push_str(t),
                Content::Child(k) => {
                    let e = &self.elems[*k];
                    s.push_str(&format!("<{} class=\"{}\">{}</{}>", e.tag, e.classes.join(" "), self.inner_html(*k), e.tag));
                },
            }
        }
        s
    }

    fn detach(&mut self, id: usize) {
        if let Some(p) = self.elems[id].parent.take() {
            self.elems[p].content.retain(|c| !matches!(c, Content::Child(k) if *k == id));
        }
    }

    fn find(&self, from: usize, sel: &str) -> Option<usize> {
        let e = &self.elems[from];
        let hit = match sel.strip_prefix('.') {
            Some(class) => e.classes.iter().any(|c| c == class),
            None => e.tag == sel,
        };
        if hit {
            return Some(from);
        }
        e.content.iter().find_map(|c| match c {
            Content::Child(k) => self.find(*k, sel),
            Content::Text(_) => None,
        })
    }

    fn answer_text(&mut self, s: &str) -> i32 {
        let mut buf = s.as_bytes().to_vec();
        buf.push(0);
        self.memory.push(buf);
        (self.memory.len() - 1) as i32
    }

    fn text(&self, word: i32) -> String {
        text_from_c(&self.memory[word as usize]).unwrap()
    }

    fn attr(&mut self, id: usize, key: String) -> &mut String {
        let e = &mut self.elems[id];
        if let Some(i) = e.attrs.iter().position(|(k, _)| *k == key) {
            &mut e.attrs[i].1
        } else {
            e.attrs.push((key, String::new()));
            &mut e.attrs.last_mut().unwrap().1
        }
    }

    /// Runs a call as the host would and returns its word.
    fn run(&mut self, call: &HostCall) -> i32 {
        let script = text_from_c(&call.script).unwrap();
        let text = |k: usize| match call.args[k] {
            Marshalled::Str(i) => text_from_c(call.arena.text(i)).unwrap(),
            _ => panic!("not a text"),
        };
        let node = |k: usize, refs: &HandleTable<usize>| match call.args[k] {
            Marshalled::Int(h) => *refs.get(h).unwrap(),
            _ => panic!("not a handle"),
        };
        let s = script.as_str();
        if s == INIT_SCRIPT || s == FOCUS_SCRIPT {
            0
        } else if s == ELEMENT_QUERY_SCRIPT {
            let found = self.find(self.body, &text(0));
            self.refs.locate(found)
        } else if s == ELEMENT_CREATE_SCRIPT {
            let id = self.new_elem(&text(0));
            self.refs.locate(Some(id))
        } else if s == PARENT_SCRIPT {
            let p = self.elems[node(0, &self.refs)].parent;
            self.refs.locate(p)
        } else if s == TAGNAME_SCRIPT {
            let t = self.elems[node(0, &self.refs)].tag.to_lowercase();
            self.answer_text(&t)
        } else if s == HTML_GET_SCRIPT {
            let h = self.inner_html(node(0, &self.refs));
            self.answer_text(&h)
        } else if s == HTML_SET_SCRIPT {
            let id = node(0, &self.refs);
            self.elems[id].content.clear();
            self.parse(&text(1), id);
            0
        } else if s == HTML_APPEND_SCRIPT {
            self.parse(&text(1), node(0, &self.refs));
            0
        } else if s == HTML_PREPEND_SCRIPT {
            let id = node(0, &self.refs);
            let old = std::mem::take(&mut self.elems[id].content);
            self.parse(&text(1), id);
            self.elems[id].content.extend(old);
            0
        } else if s == CLASS_GET_SCRIPT {
            let c = self.elems[node(0, &self.refs)].classes.join(" ");
            self.answer_text(&c)
        } else if s == CLASS_ADD_SCRIPT || s == CLASS_REMOVE_SCRIPT || s == CLASS_TOGGLE_SCRIPT {
            let id = node(0, &self.refs);
            let c = text(1);
            let has = self.elems[id].classes.contains(&c);
            let add = s == CLASS_ADD_SCRIPT || (s == CLASS_TOGGLE_SCRIPT && !has);
            self.elems[id].classes.retain(|x| *x != c);
            if add {
                self.elems[id].classes.push(c);
            }
            0
        } else if s == APPEND_SCRIPT {
            let (p, c) = (node(0, &self.refs), node(1, &self.refs));
            self.detach(c);
            self.elems[c].parent = Some(p);
            self.elems[p].content.push(Content::Child(c));
            0
        } else if s == REMOVE_SELF_SCRIPT {
            self.detach(node(0, &self.refs));
            0
        } else if s == DATA_SET_SCRIPT || s == STYLE_SET_SCRIPT || s == PROP_SET_STR_SCRIPT {
            let id = node(0, &self.refs);
            *self.attr(id, format!("{}:{}", s.len(), text(1))) = text(2);
            0
        } else if s == DATA_GET_SCRIPT || s == STYLE_GET_SCRIPT || s == PROP_GET_STR_SCRIPT {
            let set = if s == DATA_GET_SCRIPT {
                DATA_SET_SCRIPT
            } else if s == STYLE_GET_SCRIPT {
                STYLE_SET_SCRIPT
            } else {
                PROP_SET_STR_SCRIPT
            };
            let id = node(0, &self.refs);
            let key = format!("{}:{}", set.len(), text(1));
            match self.elems[id].attrs.iter().find(|(k, _)| *k == key).map(|(_, v)| v.clone()) {
                Some(v) => self.answer_text(&v),
                None if s == DATA_GET_SCRIPT => NO_OBJECT,
                None => self.answer_text(""),
            }
        } else {
            panic!("unknown script: {}", s)
        }
    }
}

fn query(dom: &mut Dom, doc: &Doc, sel: &str) -> Option<HtmlNode> {
    node_from(dom.run(&doc.element_query(sel).unwrap()))
}

fn create(dom: &mut Dom, doc: &Doc, tag: &str) -> Option<HtmlNode> {
    node_from(dom.run(&doc.element_create(tag).unwrap()))
}

fn classes(dom: &mut Dom, node: &HtmlNode) -> HashSet<String> {
    let ret = dom.run(&node.class_get());
    class_names(&dom.text(ret)).into_iter().collect()
}

fn start() -> (Dom, Doc) {
    let mut dom = Dom::new();
    let (doc, call) = init();
    dom.run(&call);
    (dom, doc)
}

fn with_html(html: &str, action: fn(&mut Dom, &Doc)) {
    let (mut dom, document) = start();
    let body = query(&mut dom, &document, "body").unwrap();
    let elem = create(&mut dom, &document, "div").unwrap();
    dom.run(&elem.html_append(html).unwrap());
    dom.run(&body.append(&elem));
    action(&mut dom, &document);
    dom.run(&elem.remove_self());
}

#[test]
fn test_body_exists() {
    let (mut dom, document) = start();
    assert!(query(&mut dom, &document, "body").is_some());
}

#[test]
fn test_query() {
    with_html(r#"<div class="my_class"></div>"#, |dom, doc| {
        assert!(query(dom, doc, ".my_class").is_some());
    })
}

#[test]
fn test_tagname() {
    with_html(r#"<div class="my_class"></div>"#, |dom, doc| {
        let node = query(dom, doc, ".my_class").unwrap();
        let ret = dom.run(&node.tagname());
        assert_eq!(dom.text(ret), "div");
    })
}

#[test]
fn test_focus() {
    with_html(r#"<div class="my_class"></div>"#, |dom, doc| {
        let node = query(dom, doc, ".my_class").unwrap();
        dom.run(&node.focus());
    })
}

#[test]
fn test_html_set_get() {
    with_html(r#"<div class="my_class"></div>"#, |dom, doc| {
        let elem = query(dom, doc, ".my_class").unwrap();
        dom.run(&elem.html_set("123").unwrap());
        let ret = dom.run(&elem.html_get());
        assert_eq!(dom.text(ret), "123");
    })
}

#[test]
fn test_class_get() {
    with_html(r#"<div class="my_class my_class2"></div>"#, |dom, doc| {
        let expect = ["my_class", "my_class2"];
        let node = query(dom, doc, ".my_class").unwrap();
        let found = classes(dom, &node);
        assert_eq!(found, expect.iter().map(|it| it.to_string()).collect::<HashSet<String>>());
    })
}

#[test]
fn test_class_add() {
    with_html(r#"<div class="my_class"></div>"#, |dom, doc| {
        let node = query(dom, doc, ".my_class").unwrap();
        dom.run(&node.class_add("added_class").unwrap());
        assert!(query(dom, doc, ".added_class").is_some());
    })
}

#[test]
fn test_class_toggle() {
    with_html(r#"<div class="my_class"></div>"#, |dom, doc| {
        let elem = query(dom, doc, ".my_class").unwrap();
        dom.run(&elem.class_toggle("my_class").unwrap());
        assert!(query(dom, doc, ".my_class").is_none());
        dom.run(&elem.class_toggle("my_class").unwrap());
        assert!(query(dom, doc, ".my_class").is_some());
    })
}

#[test]
fn test_class_remove() {
    with_html(r#"<div class="my_class"></div>"#, |dom, doc| {
        let node = query(dom, doc, ".my_class").unwrap();
        dom.run(&node.class_remove("my_class").unwrap());
        assert!(query(dom, doc, ".my_class").is_none());
    })
}

#[test]
fn test_parent() {
    with_html(r#"<div class="parent"><div class="child"></div></div>"#, |dom, doc| {
        let child = query(dom, doc, ".child").unwrap();
        let parent = node_from(dom.run(&child.parent())).unwrap();
        let parent_class = classes(dom, &parent).into_iter().next().unwrap();
        assert_eq!(parent_class, "parent");
    })
}

#[test]
fn test_data_set_get() {
    with_html(r#"<div class="my_class"></div>"#, |dom, doc| {
        let elem = query(dom, doc, ".my_class").unwrap();
        dom.run(&elem.data_set("key", "value").unwrap());
        let ret = dom.run(&elem.data_get("key").unwrap());
        let got = if ret == NO_OBJECT { None } else { Some(dom.text(ret)) };
        assert_eq!(got, Some("value".to_string()));
    })
}

#[test]
fn test_style_set_get() {
    with_html(r#"<div class="my_class"></div>"#, |dom, doc| {
        let elem = query(dom, doc, ".my_class").unwrap();
        dom.run(&elem.style_set_str("color", "red").unwrap());
        let ret = dom.run(&elem.style_get_str("color").unwrap());
        assert_eq!(dom.text(ret), "red".to_string());
    })
}

#[test]
fn test_prop_set_get() {
    with_html(r#"<div class="my_class"></div>"#, |dom, doc| {
        let elem = query(dom, doc, ".my_class").unwrap();
        dom.run(&elem.prop_set_str("id", "value").unwrap());
        let ret = dom.run(&elem.prop_get_str("id").unwrap());
        assert_eq!(dom.text(ret), "value".to_string());
    })
}

#[test]
fn test_append() {
    with_html(r#"<div class="my_class"></div>"#, |dom, doc| {
        let elem1 = query(dom, doc, ".my_class").unwrap();
        let elem2 = create(dom, doc, "div").unwrap();
        dom.run(&elem1.append(&elem2));
        let parent = node_from(dom.run(&elem2.parent())).unwrap();
        let parent_class = classes(dom, &parent).into_iter().next().unwrap();
        assert_eq!(parent_class, "my_class");
    })
}

#[test]
fn test_remove_self() {
    with_html(r#"<div class="my_class"></div>"#, |dom, doc| {
        let node = query(dom, doc, ".my_class").unwrap();
        dom.run(&node.remove_self());
        assert!(query(dom, doc, ".my_class").is_none());
    })
}

#[test]
fn test_html_append() {
    with_html(r#"<div class="my_class">aaa</div>"#, |dom, doc| {
        let elem = query(dom, doc, ".my_class").unwrap();
        dom.run(&elem.html_append("bbb").unwrap());
        let ret = dom.run(&elem.html_get());
        assert_eq!(dom.text(ret), "aaabbb");
    })
}

#[test]
fn test_html_prepend() {
    with_html(r#"<div class="my_class">aaa</div>"#, |dom, doc| {
        let elem = query(dom, doc, ".my_class").unwrap();
        dom.run(&elem.html_prepend("bbb").unwrap());
        let ret = dom.run(&elem.html_get());
        assert_eq!(dom.text(ret), "bbbaaa");
    })
}

#[test]
fn missing_elements_and_data_read_as_absent() {
    with_html(r#"<div class="my_class"></div>"#, |dom, doc| {
        assert!(query(dom, doc, ".nothing").is_none());
        let elem = query(dom, doc, ".my_class").unwrap();
        let ret = dom.run(&elem.data_get("missing").unwrap());
        assert_eq!(ret, NO_OBJECT);
        let body = query(dom, doc, "body").unwrap();
        assert!(node_from(dom.run(&body.parent())).is_none());
    })
}

#[test]
fn class_names_split_like_the_attribute() {
    assert_eq!(class_names("a b"), vec!["a".to_string(), "b".to_string()]);
    assert_eq!(class_names("  a\tb \n"), vec!["a".to_string(), "b".to_string()]);
    assert_eq!(class_names("a  b"), vec!["a".to_string(), String::new(), "b".to_string()]);
    assert_eq!(class_names(""), vec![String::new()]);
    assert_eq!(class_names("   "), vec![String::new()]);
    assert_eq!(class_names("x\u{a0}y"), vec!["x".to_string(), "y".to_string()]);
    assert_eq!(class_names("\u{e9}t\u{e9}"), vec!["\u{e9}t\u{e9}".to_string()]);
}
