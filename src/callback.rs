use vstd::prelude::*;
use vstd::utf8::encode_utf8;
use vstd::utf8::valid_utf8;

use crate::call::text_from_c;
use crate::handle::{event_for_target, event_spec, Event};
use crate::interop::c_str_text;

verus! {

/// Callbacks of one shape, kept alive for as long as their session.
///
/// A callback is named by its index, which the host hands back to a trampoline.
pub struct Registry<C> {
    items: Vec<C>,
}

impl<C> View for Registry<C> {
    type V = Seq<C>;

    closed spec fn view(&self) -> Seq<C> {
        self.items@
    }
}

impl<C> Registry<C> {
    pub fn new() -> (r: Registry<C>)
        ensures
            r@ == Seq::<C>::empty(),
    {
        Registry { items: Vec::new() }
    }

    pub fn len(&self) -> (r: usize)
        ensures
            r == self@.len(),
    {
        self.items.len()
    }

    /// Keeps a callback and returns the index that names it.
    pub fn register(&mut self, c: C) -> (r: usize)
        ensures
            r == old(self)@.len(),
            final(self)@ == old(self)@.push(c),
    {
        let id = self.items.len();
        self.items.push(c);
        id
    }
}

impl<C: FnMut()> Registry<C> {
    /// Calls the callback named `id` once; false, and nothing called, where there is none.
    pub fn fire(&mut self, id: usize) -> (r: bool)
        requires
            id < old(self)@.len() ==> call_requires(old(self)@[id as int], ()),
        ensures
            r == (id < old(self)@.len()),
            final(self)@.len() == old(self)@.len(),
            forall|j: int| 0 <= j < old(self)@.len() && j != id ==> final(self)@[j] == old(self)@[j],
            r ==> call_ensures(old(self)@[id as int], (), ()),
    {
        if id < self.items.len() {
            let f = &mut self.items[id];
            f();
            true
        } else {
            false
        }
    }
}

impl<C: FnMut(Event)> Registry<C> {
    /// Calls the callback named `id` once with the event for `target`.
    pub fn fire_event(&mut self, id: usize, target: i32) -> (r: bool)
        requires
            id < old(self)@.len() ==> call_requires(old(self)@[id as int], (event_spec(target),)),
        ensures
            r == (id < old(self)@.len()),
            final(self)@.len() == old(self)@.len(),
            forall|j: int| 0 <= j < old(self)@.len() && j != id ==> final(self)@[j] == old(self)@[j],
            r ==> call_ensures(old(self)@[id as int], (event_spec(target),), ()),
    {
        if id < self.items.len() {
            let ev = event_for_target(target);
            let f = &mut self.items[id];
            f(ev);
            true
        } else {
            false
        }
    }
}

impl<C: FnMut(String)> Registry<C> {
    /// Calls the callback named `id` once with the text of a NUL-terminated buffer that the
    /// host filled; nothing is called where the text is not valid UTF-8.
    pub fn fire_text(&mut self, id: usize, buf: &[u8]) -> (r: bool)
        requires
            id < old(self)@.len() ==> forall|s: String| call_requires(old(self)@[id as int], (s,)),
        ensures
            r == (id < old(self)@.len() && valid_utf8(c_str_text(buf@))),
            final(self)@.len() == old(self)@.len(),
            forall|j: int| 0 <= j < old(self)@.len() && j != id ==> final(self)@[j] == old(self)@[j],
            r ==> exists|s: String|
                encode_utf8(s@) == c_str_text(buf@) && call_ensures(old(self)@[id as int], (s,), ()),
    {
        if id < self.items.len() {
            match text_from_c(buf) {
                Some(s) => {
                    let ghost s0 = s;
                    let f = &mut self.items[id];
                    f(s);
                    assert(encode_utf8(s0@) == c_str_text(buf@));
                    true
                },
                None => false,
            }
        } else {
            false
        }
    }
}

impl<C: FnMut(&[u8])> Registry<C> {
    /// Calls the callback named `id` once with the bytes that the host delivered.
    pub fn fire_bytes(&mut self, id: usize, data: &[u8]) -> (r: bool)
        requires
            id < old(self)@.len() ==> call_requires(old(self)@[id as int], (data,)),
        ensures
            r == (id < old(self)@.len()),
            final(self)@.len() == old(self)@.len(),
            forall|j: int| 0 <= j < old(self)@.len() && j != id ==> final(self)@[j] == old(self)@[j],
            r ==> call_ensures(old(self)@[id as int], (data,), ()),
    {
        if id < self.items.len() {
            let f = &mut self.items[id];
            f(data);
            true
        } else {
            false
        }
    }
}

} // verus!
