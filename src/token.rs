//! File references and their text tokens.
//!
//! A reference is laid out as a protobuf message: the outer message holds the
//! version as a one-of whose only variant so far (field 1) is the `V1` message,
//! and `V1` holds `created_at` (field 1, varint), `random` (field 2, bytes) and
//! the optional declared `size` (field 3, varint). Fields left at their default
//! are not written. The bytes are then written as URL-safe base64 without
//! padding.
use vstd::prelude::*;
use vstd::slice::slice_subrange;
use vstd::slice::slice_to_vec;
use crate::varint::{
    lemma_varint_read_len, lemma_varint_round_trip, put_varint, read_varint, varint_bytes,
    varint_read,
};

verus! {

/// First version of a file reference.
#[derive(Clone, Debug)]
pub struct FileRefV1 {
    /// Seconds since the Unix epoch at which the upload started.
    pub created_at: u64,
    /// Random bytes that make the reference unique.
    pub random: Vec<u8>,
    /// Declared total size in bytes, when known.
    pub size: Option<u64>,
}

/// The versions a reference can take.
#[derive(Clone, Debug)]
pub enum Version {
    V1(FileRefV1),
}

/// A versioned reference to a stored file. A reference whose version is not
/// recognised has `version == None`.
#[derive(Clone, Debug)]
pub struct FileRef {
    pub version: Option<Version>,
}

/// What a `V1` reference holds.
pub struct FileRefV1View {
    pub created_at: u64,
    pub random: Seq<u8>,
    pub size: Option<u64>,
}

impl View for FileRefV1 {
    type V = FileRefV1View;

    open spec fn view(&self) -> FileRefV1View {
        FileRefV1View { created_at: self.created_at, random: self.random@, size: self.size }
    }
}

impl View for FileRef {
    type V = Option<FileRefV1View>;

    open spec fn view(&self) -> Option<FileRefV1View> {
        match self.version {
            Some(Version::V1(v)) => Some(v@),
            None => None,
        }
    }
}

/// The `V1` value that decoding starts from: every field at its default.
pub open spec fn v1_default() -> FileRefV1View {
    FileRefV1View { created_at: 0, random: Seq::empty(), size: None }
}

/// A reference whose encoding fits the length fields of the layout.
pub open spec fn representable(r: Option<FileRefV1View>) -> bool {
    r matches Some(v) ==> v.random.len() + 64 <= u64::MAX
}

/// The bytes of a `V1` message.
pub open spec fn v1_bytes(v: FileRefV1View) -> Seq<u8> {
    (if v.created_at != 0 {
        seq![8u8] + varint_bytes(v.created_at as nat)
    } else {
        Seq::empty()
    }) + (if v.random.len() > 0 {
        seq![18u8] + varint_bytes(v.random.len()) + v.random
    } else {
        Seq::empty()
    }) + (match v.size {
        Some(n) => seq![24u8] + varint_bytes(n as nat),
        None => Seq::empty(),
    })
}

/// The bytes of a reference.
pub open spec fn ref_bytes(r: Option<FileRefV1View>) -> Seq<u8> {
    match r {
        Some(v) => seq![10u8] + varint_bytes(v1_bytes(v).len()) + v1_bytes(v),
        None => Seq::empty(),
    }
}

/// The field at the front of `s`: its number, its wire type, its value when it
/// is a varint, its payload when it is length-delimited, and the number of
/// bytes it takes. Fixed-width fields are recognised so they can be skipped.
pub open spec fn field_at(s: Seq<u8>) -> Option<(u64, u64, u64, Seq<u8>, nat)> {
    match varint_read(s) {
        None => None,
        Some((key, n)) => {
            let rest = s.skip(n as int);
            if key > 0xFFFF_FFFF || key / 8 == 0 {
                None
            } else if key % 8 == 0 {
                match varint_read(rest) {
                    Some((v, m)) => Some((key / 8, 0u64, v, Seq::empty(), n + m)),
                    None => None,
                }
            } else if key % 8 == 2 {
                match varint_read(rest) {
                    Some((len, m)) => if m + len <= rest.len() {
                        Some((key / 8, 2u64, 0u64, rest.subrange(m as int, m + len), (n + m + len) as nat))
                    } else {
                        None
                    },
                    None => None,
                }
            } else if key % 8 == 1 {
                if rest.len() >= 8 {
                    Some((key / 8, 1u64, 0u64, Seq::empty(), n + 8))
                } else {
                    None
                }
            } else if key % 8 == 5 {
                if rest.len() >= 4 {
                    Some((key / 8, 5u64, 0u64, Seq::empty(), n + 4))
                } else {
                    None
                }
            } else {
                None
            }
        },
    }
}

/// One field applied to a `V1` value; a known field with the wrong wire type is
/// an error, an unknown field is skipped.
pub open spec fn v1_apply(acc: FileRefV1View, f: (u64, u64, u64, Seq<u8>, nat)) -> Option<
    FileRefV1View,
> {
    if f.0 == 1 {
        if f.1 == 0 {
            Some(FileRefV1View { created_at: f.2, ..acc })
        } else {
            None
        }
    } else if f.0 == 2 {
        if f.1 == 2 {
            Some(FileRefV1View { random: f.3, ..acc })
        } else {
            None
        }
    } else if f.0 == 3 {
        if f.1 == 0 {
            Some(FileRefV1View { size: Some(f.2), ..acc })
        } else {
            None
        }
    } else {
        Some(acc)
    }
}

/// The fields of `s` applied in order to `acc`.
pub open spec fn v1_merge(s: Seq<u8>, acc: FileRefV1View) -> Option<FileRefV1View>
    decreases s.len(),
{
    if s.len() == 0 {
        Some(acc)
    } else {
        match field_at(s) {
            Some(f) => if 1 <= f.4 <= s.len() {
                match v1_apply(acc, f) {
                    Some(a) => v1_merge(s.skip(f.4 as int), a),
                    None => None,
                }
            } else {
                None
            },
            None => None,
        }
    }
}

/// One field applied to a reference: a `V1` payload is merged into the `V1`
/// value already there, or into the default one.
pub open spec fn ref_apply(acc: Option<FileRefV1View>, f: (u64, u64, u64, Seq<u8>, nat)) -> Option<
    Option<FileRefV1View>,
> {
    if f.0 == 1 {
        if f.1 == 2 {
            match v1_merge(
                f.3,
                match acc {
                    Some(v) => v,
                    None => v1_default(),
                },
            ) {
                Some(v) => Some(Some(v)),
                None => None,
            }
        } else {
            None
        }
    } else {
        Some(acc)
    }
}

/// The fields of `s` applied in order to `acc`.
pub open spec fn ref_merge(s: Seq<u8>, acc: Option<FileRefV1View>) -> Option<
    Option<FileRefV1View>,
>
    decreases s.len(),
{
    if s.len() == 0 {
        Some(acc)
    } else {
        match field_at(s) {
            Some(f) => if 1 <= f.4 <= s.len() {
                match ref_apply(acc, f) {
                    Some(a) => ref_merge(s.skip(f.4 as int), a),
                    None => None,
                }
            } else {
                None
            },
            None => None,
        }
    }
}

/// The reference that the bytes `s` hold, if they are well formed.
pub open spec fn parse_ref(s: Seq<u8>) -> Option<Option<FileRefV1View>> {
    ref_merge(s, None)
}

/// Reads the field at `s[pos..]`: number, wire type, varint value, payload
/// start and length, and the bytes taken.
fn read_field(s: &[u8], pos: usize) -> (r: Option<(u64, u64, u64, usize, usize, usize)>)
    requires
        pos <= s@.len(),
    ensures
        match field_at(s@.skip(pos as int)) {
            Some(f) => r matches Some((num, wt, val, ps, pl, n)) && num == f.0 && wt == f.1
                && val == f.2 && n == f.4 && ps + pl <= s@.len() && s@.subrange(
                ps as int,
                ps + pl,
            ) == f.3,
            None => r is None,
        },
{
    let ghost t = s@.skip(pos as int);
    let _ = s.len();
    proof {
        lemma_varint_read_len(t);
    }
    let (key, n) = match read_varint(s, pos) {
        Some(x) => x,
        None => return None,
    };
    let p = pos + n;
    proof {
        assert(t.skip(n as int) =~= s@.skip(p as int));
        lemma_varint_read_len(s@.skip(p as int));
    }
    if key > 0xFFFF_FFFF || key / 8 == 0 {
        return None;
    }
    let wt = key % 8;
    if wt == 0 {
        match read_varint(s, p) {
            Some((v, m)) => {
                assert(s@.subrange((p + m) as int, (p + m) as int) =~= Seq::<u8>::empty());
                Some((key / 8, 0, v, p + m, 0, n + m))
            },
            None => None,
        }
    } else if wt == 2 {
        match read_varint(s, p) {
            Some((len, m)) => {
                if len > (s.len() - p - m) as u64 {
                    None
                } else {
                    let l = len as usize;
                    assert(s@.subrange((p + m) as int, (p + m + l) as int) =~= s@.skip(
                        p as int,
                    ).subrange(m as int, m + l));
                    Some((key / 8, 2, 0, p + m, l, n + m + l))
                }
            },
            None => None,
        }
    } else if wt == 1 {
        if s.len() - p >= 8 {
            assert(s@.subrange(p as int, p as int) =~= Seq::<u8>::empty());
            Some((key / 8, 1, 0, p, 0, n + 8))
        } else {
            None
        }
    } else if wt == 5 {
        if s.len() - p >= 4 {
            assert(s@.subrange(p as int, p as int) =~= Seq::<u8>::empty());
            Some((key / 8, 5, 0, p, 0, n + 4))
        } else {
            None
        }
    } else {
        None
    }
}

/// Applies the fields of `s` to `acc`.
fn decode_v1(s: &[u8], acc: FileRefV1) -> (r: Option<FileRefV1>)
    ensures
        match v1_merge(s@, acc@) {
            Some(v) => r matches Some(w) && w@ == v,
            None => r is None,
        },
{
    let ghost target = v1_merge(s@, acc@);
    let mut cur = acc;
    let mut pos: usize = 0;
    assert(s@.skip(0) =~= s@);
    while pos < s.len()
        invariant
            pos <= s@.len(),
            v1_merge(s@.skip(pos as int), cur@) == target,
            target == v1_merge(s@, acc@),
        decreases s@.len() - pos,
    {
        let ghost t = s@.skip(pos as int);
        assert(t.len() > 0);
        let (num, wt, val, ps, pl, n) = match read_field(s, pos) {
            Some(f) => f,
            None => return None,
        };
        if n < 1 || n > s.len() - pos {
            return None;
        }
        assert(t.skip(n as int) =~= s@.skip(pos + n));
        if num == 1 {
            if wt != 0 {
                return None;
            }
            cur.created_at = val;
        } else if num == 2 {
            if wt != 2 {
                return None;
            }
            let payload = slice_subrange(s, ps, ps + pl);
            cur.random = slice_to_vec(payload);
        } else if num == 3 {
            if wt != 0 {
                return None;
            }
            cur.size = Some(val);
        }
        pos = pos + n;
    }
    assert(s@.skip(pos as int) =~= Seq::<u8>::empty());
    Some(cur)
}

/// URL-safe base64 text of `b`, without padding.
pub uninterp spec fn base64_url_text(b: Seq<u8>) -> Seq<char>;

/// The bytes that the URL-safe, unpadded base64 text `t` spells, if it is valid.
pub uninterp spec fn base64_url_bytes(t: Seq<char>) -> Option<Seq<u8>>;

/// Relies on base64's `URL_SAFE_NO_PAD` engine and `Engine::encode`: the text it
/// writes decodes, with the same engine, to the bytes it was given.
#[verifier::external_body]
fn base64_encode(b: &[u8]) -> (r: String)
    ensures
        r@ == base64_url_text(b@),
        base64_url_bytes(r@) == Some(b@),
{
    base64::Engine::encode(&base64::prelude::BASE64_URL_SAFE_NO_PAD, b)
}

/// Relies on base64's `URL_SAFE_NO_PAD` engine and `Engine::decode`, which fails
/// exactly on text that is not valid unpadded URL-safe base64.
#[verifier::external_body]
fn base64_decode(t: &str) -> (r: Option<Vec<u8>>)
    ensures
        match base64_url_bytes(t@) {
            Some(b) => r matches Some(v) && v@ == b,
            None => r is None,
        },
{
    base64::Engine::decode(&base64::prelude::BASE64_URL_SAFE_NO_PAD, t).ok()
}

/// The reference that the token `t` stands for, if it is well formed.
pub open spec fn token_ref(t: Seq<char>) -> Option<Option<FileRefV1View>> {
    match base64_url_bytes(t) {
        Some(b) => parse_ref(b),
        None => None,
    }
}

/// The token of a reference.
pub open spec fn ref_token(r: Option<FileRefV1View>) -> Seq<char> {
    base64_url_text(ref_bytes(r))
}

proof fn lemma_small_key(key: u8, rest: Seq<u8>)
    requires
        key < 128,
    ensures
        varint_read(seq![key] + rest) == Some((key as u64, 1nat)),
{
    lemma_varint_round_trip(key as u64, rest);
    assert(varint_bytes(key as nat) =~= seq![key]);
}

proof fn lemma_varint_bytes_len(x: u64)
    ensures
        1 <= varint_bytes(x as nat).len() <= 10,
{
    lemma_varint_round_trip(x, Seq::empty());
    assert(varint_bytes(x as nat) + Seq::<u8>::empty() =~= varint_bytes(x as nat));
    lemma_varint_read_len(varint_bytes(x as nat));
}

proof fn lemma_field_varint(key: u8, val: u64, rest: Seq<u8>)
    requires
        key < 128,
        key % 8 == 0,
        key / 8 != 0,
    ensures
        field_at(seq![key] + varint_bytes(val as nat) + rest) == Some(
            ((key / 8) as u64, 0u64, val, Seq::<u8>::empty(), 1 + varint_bytes(val as nat).len()),
        ),
{
    let s = seq![key] + varint_bytes(val as nat) + rest;
    assert(s =~= seq![key] + (varint_bytes(val as nat) + rest));
    lemma_small_key(key, varint_bytes(val as nat) + rest);
    assert(s.skip(1) =~= varint_bytes(val as nat) + rest);
    lemma_varint_round_trip(val, rest);
}

proof fn lemma_field_bytes(key: u8, payload: Seq<u8>, rest: Seq<u8>)
    requires
        key < 128,
        key % 8 == 2,
        key / 8 != 0,
        payload.len() <= u64::MAX,
    ensures
        field_at(seq![key] + varint_bytes(payload.len()) + payload + rest) == Some(
            (
                (key / 8) as u64,
                2u64,
                0u64,
                payload,
                1 + varint_bytes(payload.len()).len() + payload.len(),
            ),
        ),
{
    let len = payload.len() as u64;
    let s = seq![key] + varint_bytes(payload.len()) + payload + rest;
    assert(s =~= seq![key] + (varint_bytes(len as nat) + (payload + rest)));
    lemma_small_key(key, varint_bytes(len as nat) + (payload + rest));
    let r1 = s.skip(1);
    assert(r1 =~= varint_bytes(len as nat) + (payload + rest));
    lemma_varint_round_trip(len, payload + rest);
    let m = varint_bytes(len as nat).len();
    assert(r1.subrange(m as int, m + len) =~= payload);
}

/// One field at the front, read and applied, leaves the rest to merge.
proof fn lemma_v1_step(a: Seq<u8>, rest: Seq<u8>, acc: FileRefV1View, f: (u64, u64, u64, Seq<u8>, nat))
    requires
        a.len() > 0,
        field_at(a + rest) == Some(f),
        f.4 == a.len(),
    ensures
        v1_merge(a + rest, acc) == match v1_apply(acc, f) {
            Some(n) => v1_merge(rest, n),
            None => None,
        },
{
    assert((a + rest).skip(a.len() as int) =~= rest);
}

proof fn lemma_v1_round_trip(v: FileRefV1View)
    requires
        v.random.len() <= u64::MAX,
    ensures
        v1_merge(v1_bytes(v), v1_default()) == Some(v),
{
    let d = v1_default();
    let a = if v.created_at != 0 {
        seq![8u8] + varint_bytes(v.created_at as nat)
    } else {
        Seq::empty()
    };
    let b = if v.random.len() > 0 {
        seq![18u8] + varint_bytes(v.random.len()) + v.random
    } else {
        Seq::empty()
    };
    let c = match v.size {
        Some(n) => seq![24u8] + varint_bytes(n as nat),
        None => Seq::empty(),
    };
    assert(v1_bytes(v) =~= a + (b + c));
    let acc1 = FileRefV1View { created_at: v.created_at, ..d };
    if v.created_at != 0 {
        lemma_field_varint(8, v.created_at, b + c);
        assert(a + (b + c) =~= seq![8u8] + varint_bytes(v.created_at as nat) + (b + c));
        lemma_v1_step(a, b + c, d, field_at(a + (b + c)).unwrap());
    } else {
        assert(a + (b + c) =~= b + c);
    }
    assert(v1_merge(a + (b + c), d) == v1_merge(b + c, acc1));
    let acc2 = FileRefV1View { random: v.random, ..acc1 };
    if v.random.len() > 0 {
        lemma_field_bytes(18, v.random, c);
        lemma_v1_step(b, c, acc1, field_at(b + c).unwrap());
    } else {
        assert(b + c =~= c);
        assert(acc2.random =~= acc1.random);
    }
    assert(v1_merge(b + c, acc1) == v1_merge(c, acc2));
    match v.size {
        Some(n) => {
            assert(c =~= seq![24u8] + varint_bytes(n as nat) + Seq::<u8>::empty());
            lemma_field_varint(24, n, Seq::empty());
            assert(c + Seq::<u8>::empty() =~= c);
            lemma_v1_step(c, Seq::empty(), acc2, field_at(c).unwrap());
            assert(v1_merge(Seq::<u8>::empty(), v) == Some(v));
        },
        None => {},
    }
}

/// Decoding the bytes of a reference gives that reference back.
pub proof fn lemma_round_trip(r: Option<FileRefV1View>)
    requires
        representable(r),
    ensures
        parse_ref(ref_bytes(r)) == Some(r),
{
    match r {
        Some(v) => {
            lemma_v1_round_trip(v);
            let inner = v1_bytes(v);
            lemma_varint_bytes_len(v.random.len() as u64);
            if let Some(n) = v.size {
                lemma_varint_bytes_len(n);
            }
            lemma_varint_bytes_len(v.created_at);
            assert(inner.len() <= u64::MAX);
            let s = ref_bytes(r);
            assert(s =~= seq![10u8] + varint_bytes(inner.len()) + inner + Seq::<u8>::empty());
            lemma_field_bytes(10, inner, Seq::empty());
            assert(s.skip(s.len() as int) =~= Seq::<u8>::empty());
            assert(ref_merge(Seq::<u8>::empty(), Some(v)) == Some(Some(v)));
        },
        None => {},
    }
}

/// Appends the bytes of the `V1` message `v`.
fn encode_v1(v: &FileRefV1, out: &mut Vec<u8>)
    ensures
        final(out)@ == old(out)@ + v1_bytes(v@),
{
    let ghost start = out@;
    if v.created_at != 0 {
        out.push(8);
        put_varint(v.created_at, out);
    }
    let ghost mid = out@;
    if v.random.len() > 0 {
        out.push(18);
        put_varint(v.random.len() as u64, out);
        let mut copy = slice_to_vec(v.random.as_slice());
        out.append(&mut copy);
    }
    let ghost mid2 = out@;
    match v.size {
        Some(n) => {
            out.push(24);
            put_varint(n, out);
        },
        None => {},
    }
    assert(out@ =~= start + v1_bytes(v@));
}

impl FileRefV1 {
    /// A `V1` value with every field at its default.
    pub fn empty() -> (r: FileRefV1)
        ensures
            r@ == v1_default(),
    {
        FileRefV1 { created_at: 0, random: Vec::new(), size: None }
    }
}

impl FileRef {
    /// A `V1` reference with the given fields.
    pub fn new_v1(created_at: u64, random: Vec<u8>, size: Option<u64>) -> (r: FileRef)
        ensures
            r@ == Some(FileRefV1View { created_at, random: random@, size }),
    {
        FileRef { version: Some(Version::V1(FileRefV1 { created_at, random, size })) }
    }

    /// The `V1` fields, when the version is `V1`.
    pub fn v1(&self) -> (r: Option<&FileRefV1>)
        ensures
            match self@ {
                Some(v) => r matches Some(w) && w@ == v,
                None => r is None,
            },
    {
        match &self.version {
            Some(Version::V1(v)) => Some(v),
            None => None,
        }
    }

    /// The bytes of this reference.
    pub fn encode_to_vec(&self) -> (r: Vec<u8>)
        ensures
            r@ == ref_bytes(self@),
    {
        let mut out: Vec<u8> = Vec::new();
        match &self.version {
            Some(Version::V1(v)) => {
                let mut inner: Vec<u8> = Vec::new();
                encode_v1(v, &mut inner);
                out.push(10);
                put_varint(inner.len() as u64, &mut out);
                out.append(&mut inner);
            },
            None => {},
        }
        assert(out@ =~= ref_bytes(self@));
        out
    }

    /// The text token of this reference; it reads back as the same reference.
    pub fn to_ref_string(&self) -> (r: String)
        ensures
            r@ == ref_token(self@),
            representable(self@) ==> token_ref(r@) == Some(self@),
    {
        let bytes = self.encode_to_vec();
        proof {
            if representable(self@) {
                lemma_round_trip(self@);
            }
        }
        base64_encode(bytes.as_slice())
    }

    /// The reference that a text token stands for, or `None` when the text is
    /// not valid base64 or the bytes are not a well-formed reference.
    pub fn from_ref_string(input: String) -> (r: Option<FileRef>)
        ensures
            match token_ref(input@) {
                Some(v) => r matches Some(w) && w@ == v,
                None => r is None,
            },
    {
        match base64_decode(input.as_str()) {
            Some(bytes) => FileRef::decode(bytes.as_slice()),
            None => None,
        }
    }

    /// The reference held by the bytes `s`, or `None` when they are malformed.
    pub fn decode(s: &[u8]) -> (r: Option<FileRef>)
        ensures
            match parse_ref(s@) {
                Some(v) => r matches Some(w) && w@ == v,
                None => r is None,
            },
    {
        let ghost target = parse_ref(s@);
        let mut cur: Option<FileRefV1> = None;
        let mut pos: usize = 0;
        assert(s@.skip(0) =~= s@);
        while pos < s.len()
            invariant
                pos <= s@.len(),
                ref_merge(
                    s@.skip(pos as int),
                    match cur {
                        Some(v) => Some(v@),
                        None => None,
                    },
                ) == target,
                target == parse_ref(s@),
            decreases s@.len() - pos,
        {
            let ghost t = s@.skip(pos as int);
            assert(t.len() > 0);
            let (num, wt, _val, ps, pl, n) = match read_field(s, pos) {
                Some(f) => f,
                None => return None,
            };
            if n < 1 || n > s.len() - pos {
                return None;
            }
            assert(t.skip(n as int) =~= s@.skip(pos + n));
            if num == 1 {
                if wt != 2 {
                    return None;
                }
                let base = match cur {
                    Some(v) => v,
                    None => FileRefV1::empty(),
                };
                let payload = slice_subrange(s, ps, ps + pl);
                match decode_v1(payload, base) {
                    Some(v) => {
                        cur = Some(v);
                    },
                    None => return None,
                }
            }
            pos = pos + n;
        }
        assert(s@.skip(pos as int) =~= Seq::<u8>::empty());
        match cur {
            Some(v) => Some(FileRef { version: Some(Version::V1(v)) }),
            None => Some(FileRef { version: None }),
        }
    }
}

} // verus!
