use vstd::prelude::*;
use vstd::string::StringSliceAdditionalSpecFns;

verus! {

/// Why a native value could not be put across the call boundary.
#[derive(Clone, Copy, Debug, PartialEq, Eq, Structural)]
pub enum MarshalError {
    /// A text holds a zero byte, which would cut its C string short.
    InteriorNul,
}

/// No byte of `s` is zero.
pub open spec fn nul_free(s: Seq<u8>) -> bool {
    forall|i: int| 0 <= i < s.len() ==> s[i] != 0
}

/// Index of the first zero byte of `buf` at or after `i`, or its length where none is.
pub open spec fn first_nul_from(buf: Seq<u8>, i: int) -> int
    decreases buf.len() - i,
{
    if i < 0 || i >= buf.len() {
        buf.len() as int
    } else if buf[i] == 0 {
        i
    } else {
        first_nul_from(buf, i + 1)
    }
}

/// What a reader of a NUL-terminated buffer sees: the bytes before the first zero.
pub open spec fn c_str_text(buf: Seq<u8>) -> Seq<u8> {
    buf.subrange(0, first_nul_from(buf, 0))
}

/// The bytes of a text with its zero terminator added.
pub open spec fn c_string_of(text: Seq<u8>) -> Seq<u8> {
    text.push(0)
}

/// A native value as the call boundary sees it.
pub ghost enum Value {
    Int(i32),
    Text(Seq<u8>),
    Bytes(Seq<u8>),
    Opaque(usize),
}

/// Whether a value can be put across the boundary without loss.
pub open spec fn representable(v: Value) -> bool {
    match v {
        Value::Text(t) => nul_free(t),
        _ => true,
    }
}

/// One machine word handed to the host, before addresses are taken.
///
/// `Str(i)` stands for the address of the arena's `i`-th NUL-terminated buffer,
/// `Bytes(i)` for the address of the descriptor of its `i`-th byte buffer.
#[derive(Clone, Copy, Debug, PartialEq, Eq, Structural)]
pub enum Marshalled {
    Int(i32),
    Str(usize),
    Bytes(usize),
    Opaque(usize),
}

/// A native argument of one of the kinds that the boundary supports.
pub enum Arg<'a> {
    Int(i32),
    Str(&'a str),
    Bytes(&'a [u8]),
    Opaque(usize),
}

impl<'a> Arg<'a> {
    pub open spec fn value(&self) -> Value {
        match *self {
            Arg::Int(v) => Value::Int(v),
            Arg::Str(s) => Value::Text(s.spec_bytes()),
            Arg::Bytes(b) => Value::Bytes(b@),
            Arg::Opaque(p) => Value::Opaque(p),
        }
    }
}

/// The values of a list of arguments.
pub open spec fn values_of<'a>(args: Seq<Arg<'a>>) -> Seq<Value> {
    args.map_values(|a: Arg<'a>| a.value())
}

/// The arena's contents: the NUL-terminated text buffers and the byte buffers it owns.
pub ghost struct ArenaView {
    pub texts: Seq<Seq<u8>>,
    pub blobs: Seq<Seq<u8>>,
}

impl ArenaView {
    /// Room is left to index one more buffer of each kind by a machine word.
    pub open spec fn has_room(self) -> bool {
        self.texts.len() < usize::MAX && self.blobs.len() < usize::MAX
    }
}

/// The arena after marshalling `v`, and the word that stands for `v`.
pub open spec fn marshal_spec(a: ArenaView, v: Value) -> (ArenaView, Marshalled) {
    match v {
        Value::Int(x) => (a, Marshalled::Int(x)),
        Value::Text(t) => (
            ArenaView { texts: a.texts.push(c_string_of(t)), blobs: a.blobs },
            Marshalled::Str(a.texts.len() as usize),
        ),
        Value::Bytes(b) => (
            ArenaView { texts: a.texts, blobs: a.blobs.push(b) },
            Marshalled::Bytes(a.blobs.len() as usize),
        ),
        Value::Opaque(p) => (a, Marshalled::Opaque(p)),
    }
}

/// Marshalling a list of values from left to right.
pub open spec fn marshal_all_spec(a: ArenaView, vs: Seq<Value>) -> (ArenaView, Seq<Marshalled>)
    decreases vs.len(),
{
    if vs.len() == 0 {
        (a, Seq::empty())
    } else {
        let (a1, ms) = marshal_all_spec(a, vs.drop_last());
        let (a2, m) = marshal_spec(a1, vs.last());
        (a2, ms.push(m))
    }
}

/// What the host reads back from a word, given the arena that the call was made with.
pub open spec fn decode_spec(a: ArenaView, m: Marshalled) -> Option<Value> {
    match m {
        Marshalled::Int(x) => Some(Value::Int(x)),
        Marshalled::Str(i) => if i < a.texts.len() {
            Some(Value::Text(c_str_text(a.texts[i as int])))
        } else {
            None
        },
        Marshalled::Bytes(i) => if i < a.blobs.len() {
            Some(Value::Bytes(a.blobs[i as int]))
        } else {
            None
        },
        Marshalled::Opaque(p) => Some(Value::Opaque(p)),
    }
}

/// A zero-terminated text reads back as the text itself.
pub proof fn lemma_c_str_text_of_c_string(t: Seq<u8>)
    requires
        nul_free(t),
    ensures
        c_str_text(c_string_of(t)) == t,
{
    let buf = c_string_of(t);
    lemma_first_nul_from_before(buf, t.len() as int, 0);
    assert(buf.subrange(0, t.len() as int) =~= t);
}

proof fn lemma_first_nul_from_before(buf: Seq<u8>, n: int, i: int)
    requires
        0 <= i <= n < buf.len(),
        buf[n] == 0,
        forall|j: int| 0 <= j < n ==> buf[j] != 0,
    ensures
        first_nul_from(buf, i) == n,
    decreases n - i,
{
    if i < n {
        lemma_first_nul_from_before(buf, n, i + 1);
    }
}

/// Marshalling a representable value and reading its word back gives the value.
pub proof fn lemma_marshal_round_trip(a: ArenaView, v: Value)
    requires
        a.has_room(),
        representable(v),
    ensures
        decode_spec(marshal_spec(a, v).0, marshal_spec(a, v).1) == Some(v),
{
    match v {
        Value::Text(t) => {
            lemma_c_str_text_of_c_string(t);
            let a2 = marshal_spec(a, v).0;
            assert(a2.texts[a.texts.len() as int] == c_string_of(t));
        },
        _ => {},
    }
}

/// Marshalling only appends to the arena.
proof fn lemma_marshal_extends(a: ArenaView, v: Value)
    ensures
        marshal_spec(a, v).0.texts.len() >= a.texts.len(),
        marshal_spec(a, v).0.blobs.len() >= a.blobs.len(),
        marshal_spec(a, v).0.texts.len() <= a.texts.len() + 1,
        marshal_spec(a, v).0.blobs.len() <= a.blobs.len() + 1,
        marshal_spec(a, v).0.texts.subrange(0, a.texts.len() as int) == a.texts,
        marshal_spec(a, v).0.blobs.subrange(0, a.blobs.len() as int) == a.blobs,
{
    let a2 = marshal_spec(a, v).0;
    assert(a2.texts.subrange(0, a.texts.len() as int) =~= a.texts);
    assert(a2.blobs.subrange(0, a.blobs.len() as int) =~= a.blobs);
}

/// A word keeps reading back the same value as the arena grows.
proof fn lemma_decode_stable(a: ArenaView, b: ArenaView, m: Marshalled)
    requires
        a.texts.len() <= b.texts.len(),
        a.blobs.len() <= b.blobs.len(),
        b.texts.subrange(0, a.texts.len() as int) == a.texts,
        b.blobs.subrange(0, a.blobs.len() as int) == a.blobs,
        decode_spec(a, m) is Some,
    ensures
        decode_spec(b, m) == decode_spec(a, m),
{
    match m {
        Marshalled::Str(i) => {
            assert(b.texts.subrange(0, a.texts.len() as int)[i as int] == b.texts[i as int]);
        },
        Marshalled::Bytes(i) => {
            assert(b.blobs.subrange(0, a.blobs.len() as int)[i as int] == b.blobs[i as int]);
        },
        _ => {},
    }
}

/// Marshalling a list of representable values gives one word per value, and each word
/// reads back, in the final arena, as its value.
pub proof fn lemma_marshal_all_round_trip(a: ArenaView, vs: Seq<Value>)
    requires
        a.texts.len() + vs.len() < usize::MAX,
        a.blobs.len() + vs.len() < usize::MAX,
        forall|i: int| 0 <= i < vs.len() ==> representable(#[trigger] vs[i]),
    ensures
        ({
            let (a2, ms) = marshal_all_spec(a, vs);
            &&& ms.len() == vs.len()
            &&& a.texts.len() <= a2.texts.len() <= a.texts.len() + vs.len()
            &&& a.blobs.len() <= a2.blobs.len() <= a.blobs.len() + vs.len()
            &&& a2.texts.subrange(0, a.texts.len() as int) == a.texts
            &&& a2.blobs.subrange(0, a.blobs.len() as int) == a.blobs
            &&& forall|i: int| 0 <= i < vs.len() ==> decode_spec(a2, #[trigger] ms[i]) == Some(vs[i])
        }),
    decreases vs.len(),
{
    if vs.len() > 0 {
        let init = vs.drop_last();
        assert forall|i: int| 0 <= i < init.len() implies representable(#[trigger] init[i]) by {
            assert(init[i] == vs[i]);
        }
        lemma_marshal_all_round_trip(a, init);
        let (a1, ms1) = marshal_all_spec(a, init);
        let (a2, m) = marshal_spec(a1, vs.last());
        lemma_marshal_round_trip(a1, vs.last());
        lemma_marshal_extends(a1, vs.last());
        let ms = ms1.push(m);
        assert(a2.texts.subrange(0, a.texts.len() as int) =~= a.texts) by {
            assert(a2.texts.subrange(0, a1.texts.len() as int).subrange(0, a.texts.len() as int)
                =~= a2.texts.subrange(0, a.texts.len() as int));
        }
        assert(a2.blobs.subrange(0, a.blobs.len() as int) =~= a.blobs) by {
            assert(a2.blobs.subrange(0, a1.blobs.len() as int).subrange(0, a.blobs.len() as int)
                =~= a2.blobs.subrange(0, a.blobs.len() as int));
        }
        assert forall|i: int| 0 <= i < vs.len() implies decode_spec(a2, #[trigger] ms[i]) == Some(vs[i]) by {
            if i < init.len() {
                assert(ms[i] == ms1[i]);
                assert(init[i] == vs[i]);
                lemma_decode_stable(a1, a2, ms1[i]);
            }
        }
    }
}

/// Owns, for the length of one call, the buffers that the call's words point at.
///
/// Byte slices are copied, so no word points into memory that the caller may free early.
pub struct Arena {
    texts: Vec<Vec<u8>>,
    blobs: Vec<Vec<u8>>,
}

impl View for Arena {
    type V = ArenaView;

    closed spec fn view(&self) -> ArenaView {
        ArenaView {
            texts: self.texts@.map_values(|b: Vec<u8>| b@),
            blobs: self.blobs@.map_values(|b: Vec<u8>| b@),
        }
    }
}

/// The bytes of `b` with a zero appended, or an error where `b` holds a zero itself.
pub fn to_c_string(b: &[u8]) -> (r: Result<Vec<u8>, MarshalError>)
    ensures
        r is Ok <==> nul_free(b@),
        r matches Ok(buf) ==> buf@ == c_string_of(b@),
{
    let mut out: Vec<u8> = Vec::new();
    let mut i: usize = 0;
    while i < b.len()
        invariant
            i <= b@.len(),
            out@ == b@.subrange(0, i as int),
            nul_free(b@.subrange(0, i as int)),
        decreases b@.len() - i,
    {
        if b[i] == 0 {
            return Err(MarshalError::InteriorNul);
        }
        out.push(b[i]);
        i += 1;
        assert(b@.subrange(0, i as int) =~= b@.subrange(0, i - 1).push(b@[i - 1]));
    }
    out.push(0);
    assert(b@.subrange(0, i as int) =~= b@);
    Ok(out)
}

/// The text of a NUL-terminated buffer: its bytes before the first zero.
pub fn c_str_bytes(buf: &[u8]) -> (r: Vec<u8>)
    ensures
        r@ == c_str_text(buf@),
{
    let mut out: Vec<u8> = Vec::new();
    let mut i: usize = 0;
    while i < buf.len() && buf[i] != 0
        invariant
            i <= buf@.len(),
            out@ == buf@.subrange(0, i as int),
            first_nul_from(buf@, 0) == first_nul_from(buf@, i as int),
        decreases buf@.len() - i,
    {
        out.push(buf[i]);
        i += 1;
        assert(out@ =~= buf@.subrange(0, i as int));
    }
    out
}

/// A copy of `b` that the arena can own.
fn copy_bytes(b: &[u8]) -> (r: Vec<u8>)
    ensures
        r@ == b@,
{
    let mut out: Vec<u8> = Vec::new();
    let mut i: usize = 0;
    while i < b.len()
        invariant
            i <= b@.len(),
            out@ == b@.subrange(0, i as int),
        decreases b@.len() - i,
    {
        out.push(b[i]);
        i += 1;
        assert(out@ =~= b@.subrange(0, i as int));
    }
    assert(b@.subrange(0, i as int) =~= b@);
    out
}

impl Arena {
    pub fn new() -> (r: Arena)
        ensures
            r@.texts.len() == 0,
            r@.blobs.len() == 0,
    {
        let r = Arena { texts: Vec::new(), blobs: Vec::new() };
        assert(r@.texts =~= Seq::<Seq<u8>>::empty());
        assert(r@.blobs =~= Seq::<Seq<u8>>::empty());
        r
    }

    /// Number of text buffers held.
    pub fn text_count(&self) -> (r: usize)
        ensures
            r == self@.texts.len(),
    {
        self.texts.len()
    }

    /// Number of byte buffers held.
    pub fn blob_count(&self) -> (r: usize)
        ensures
            r == self@.blobs.len(),
    {
        self.blobs.len()
    }

    /// The `i`-th NUL-terminated text buffer.
    pub fn text(&self, i: usize) -> (r: &[u8])
        requires
            i < self@.texts.len(),
        ensures
            r@ == self@.texts[i as int],
    {
        self.texts[i].as_slice()
    }

    /// The `i`-th byte buffer.
    pub fn blob(&self, i: usize) -> (r: &[u8])
        requires
            i < self@.blobs.len(),
        ensures
            r@ == self@.blobs[i as int],
    {
        self.blobs[i].as_slice()
    }

    /// Marshals one argument; a text with a zero byte is refused and leaves the arena as it was.
    pub fn marshal(&mut self, arg: &Arg) -> (r: Result<Marshalled, MarshalError>)
        ensures
            r is Ok <==> representable(arg.value()),
            r matches Ok(m) ==> (final(self)@, m) == marshal_spec(old(self)@, arg.value()),
            r is Err ==> final(self)@ == old(self)@,
    {
        match arg {
            Arg::Int(v) => Ok(Marshalled::Int(*v)),
            Arg::Opaque(p) => Ok(Marshalled::Opaque(*p)),
            Arg::Str(s) => {
                let buf = to_c_string(s.as_bytes());
                match buf {
                    Ok(buf) => {
                        let idx = self.texts.len();
                        self.texts.push(buf);
                        assert(self@.texts =~= old(self)@.texts.push(c_string_of(s.spec_bytes())));
                        Ok(Marshalled::Str(idx))
                    },
                    Err(e) => Err(e),
                }
            },
            Arg::Bytes(b) => {
                let idx = self.blobs.len();
                self.blobs.push(copy_bytes(b));
                assert(self@.blobs =~= old(self)@.blobs.push(b@));
                Ok(Marshalled::Bytes(idx))
            },
        }
    }

    /// Marshals arguments in order; fails, before any word is used, on the first one
    /// that cannot be represented.
    pub fn marshal_all(&mut self, args: &[Arg]) -> (r: Result<Vec<Marshalled>, MarshalError>)
        ensures
            r is Ok <==> (forall|i: int| 0 <= i < args@.len() ==> representable(#[trigger] args@[i].value())),
            r matches Ok(ms) ==> (final(self)@, ms@) == marshal_all_spec(old(self)@, values_of(args@)),
    {
        let mut out: Vec<Marshalled> = Vec::new();
        let mut i: usize = 0;
        while i < args.len()
            invariant
                i <= args@.len(),
                (self@, out@) == marshal_all_spec(old(self)@, values_of(args@.subrange(0, i as int))),
                forall|j: int| 0 <= j < i ==> representable(#[trigger] args@[j].value()),
            decreases args@.len() - i,
        {
            let m = self.marshal(&args[i]);
            match m {
                Ok(m) => {
                    proof {
                        let vs = values_of(args@.subrange(0, i + 1));
                        assert(vs.drop_last() =~= values_of(args@.subrange(0, i as int)));
                        assert(vs.last() == args@[i as int].value());
                    }
                    out.push(m);
                    i += 1;
                },
                Err(e) => {
                    return Err(e);
                },
            }
        }
        assert(args@.subrange(0, i as int) =~= args@);
        Ok(out)
    }
}

} // verus!
