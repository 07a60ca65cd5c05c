use vstd::prelude::*;

verus! {

/// The word that stands for "no object" wherever a handle is returned.
pub const NO_OBJECT: i32 = -1;

/// The handle that a host word names: none for a negative word.
pub open spec fn handle_of(ret: i32) -> Option<i32> {
    if ret < 0 {
        None
    } else {
        Some(ret)
    }
}

/// Reads a word that the host returned in place of an object.
pub fn decode_handle(ret: i32) -> (r: Option<i32>)
    ensures
        r == handle_of(ret),
{
    if ret < 0 {
        None
    } else {
        Some(ret)
    }
}

/// The table after the host looked for an object, and the word it returned: the object
/// is appended and named by its index, or the table is left alone and the word is `NO_OBJECT`.
pub open spec fn locate_spec<T>(table: Seq<T>, found: Option<T>) -> (Seq<T>, i32) {
    match found {
        Some(x) => (table.push(x), table.len() as i32),
        None => (table, NO_OBJECT),
    }
}

/// The host-side table of live foreign objects. It only grows, so a handle keeps naming
/// the object that it was given for.
pub struct HandleTable<T> {
    items: Vec<T>,
}

impl<T> View for HandleTable<T> {
    type V = Seq<T>;

    closed spec fn view(&self) -> Seq<T> {
        self.items@
    }
}

impl<T> HandleTable<T> {
    pub fn new() -> (r: HandleTable<T>)
        ensures
            r@ == Seq::<T>::empty(),
    {
        HandleTable { items: Vec::new() }
    }

    pub fn len(&self) -> (r: usize)
        ensures
            r == self@.len(),
    {
        self.items.len()
    }

    /// Appends an object and returns its handle, the table's former length.
    pub fn push(&mut self, x: T) -> (r: i32)
        requires
            old(self)@.len() < i32::MAX,
        ensures
            r == old(self)@.len(),
            final(self)@ == old(self)@.push(x),
    {
        let h = self.items.len() as i32;
        self.items.push(x);
        h
    }

    /// Reports a lookup to the native side: `NO_OBJECT` where nothing was found, else the
    /// handle of the object, which is appended.
    pub fn locate(&mut self, found: Option<T>) -> (r: i32)
        requires
            old(self)@.len() < i32::MAX,
        ensures
            (final(self)@, r) == locate_spec(old(self)@, found),
    {
        match found {
            Some(x) => self.push(x),
            None => NO_OBJECT,
        }
    }

    /// The object that a handle names, if the table has it.
    pub fn get(&self, h: i32) -> (r: Option<&T>)
        ensures
            (0 <= h < self@.len()) ==> r == Some(&self@[h as int]),
            !(0 <= h < self@.len()) ==> r is None,
    {
        if h >= 0 && (h as usize) < self.items.len() {
            Some(&self.items[h as usize])
        } else {
            None
        }
    }
}

/// A lookup that finds nothing reads back as no object; one that finds an object reads
/// back as a handle past every earlier one of the table, which names the object.
pub proof fn lemma_locate_convention<T>(table: Seq<T>, found: Option<T>)
    requires
        table.len() < i32::MAX,
    ensures
        handle_of(locate_spec(table, found).1) is None <==> found is None,
        found is None ==> locate_spec(table, found).1 == NO_OBJECT,
        found is None ==> locate_spec(table, found).0 == table,
        found matches Some(x) ==> ({
            let (t2, ret) = locate_spec(table, found);
            &&& handle_of(ret) == Some(ret)
            &&& ret == table.len()
            &&& t2[ret as int] == x
            &&& t2.subrange(0, table.len() as int) == table
        }),
{
    if let Some(x) = found {
        assert(locate_spec(table, found).0.subrange(0, table.len() as int) =~= table);
    }
}

/// Two lookups in a row that both find an object yield different handles.
pub proof fn lemma_successive_handles_differ<T>(table: Seq<T>, a: T, b: T)
    requires
        table.len() + 1 < i32::MAX,
    ensures
        ({
            let (t1, h1) = locate_spec(table, Some(a));
            let (t2, h2) = locate_spec(t1, Some(b));
            &&& 0 <= h1 < h2
            &&& t2[h1 as int] == a
            &&& t2[h2 as int] == b
        }),
{
}

/// A reference to an object of the host's table.
#[derive(Clone, Copy, Debug, PartialEq, Eq, Structural)]
pub struct HtmlNode {
    pub id: i32,
}

impl HtmlNode {
    pub fn new(id: i32) -> (r: HtmlNode)
        ensures
            r.id == id,
    {
        HtmlNode { id }
    }
}

/// What an event-shaped callback receives: the event's target, where it has one.
#[derive(Clone, Copy, Debug, PartialEq, Eq, Structural)]
pub struct Event {
    pub target: Option<HtmlNode>,
}

/// The event for a target word computed by the host at firing time.
pub open spec fn event_spec(target: i32) -> Event {
    Event {
        target: match handle_of(target) {
            Some(h) => Some(HtmlNode { id: h }),
            None => None,
        },
    }
}

/// Builds the event for a target word: no target for `NO_OBJECT`, else a node with that handle.
pub fn event_for_target(target: i32) -> (r: Event)
    ensures
        r == event_spec(target),
        target == NO_OBJECT ==> r.target is None,
        target >= 0 ==> r.target == Some(HtmlNode { id: target }),
{
    match decode_handle(target) {
        Some(h) => Event { target: Some(HtmlNode::new(h)) },
        None => Event { target: None },
    }
}

} // verus!
