//! The value envelope: a payload paired with an optional absolute expiry,
//! and its byte encoding `{"expires_at":<uint|null>,"value":<payload>}`.
use crate::utils::{
    decimal, is_canonical_decimal, is_digit, lemma_canonical_is_decimal,
    lemma_decimal_round_trip, now, parse_decimal, push_decimal,
};
use std::time::SystemTimeError;
use vstd::prelude::*;

verus! {

/// What an envelope holds: when it expires, if ever, and the payload's bytes.
pub struct Envelope {
    pub expires_at: Option<u64>,
    pub payload: Seq<u8>,
}

/// Whether an expiry has passed at time `now`: absent means never.
pub open spec fn expired(expires_at: Option<u64>, now: u64) -> bool {
    match expires_at {
        Some(t) => t < now,
        None => false,
    }
}

/// `a + b`, or `u64::MAX` where the sum does not fit.
pub open spec fn saturating_sum(a: u64, b: u64) -> u64 {
    if a + b <= u64::MAX {
        (a + b) as u64
    } else {
        u64::MAX
    }
}

/// The bytes `{"expires_at":`.
pub open spec fn head_text() -> Seq<u8> {
    seq![123u8, 34, 101, 120, 112, 105, 114, 101, 115, 95, 97, 116, 34, 58]
}

/// The bytes `null`.
pub open spec fn null_text() -> Seq<u8> {
    seq![110u8, 117, 108, 108]
}

/// The bytes `,"value":`.
pub open spec fn separator_text() -> Seq<u8> {
    seq![44u8, 34, 118, 97, 108, 117, 101, 34, 58]
}

/// How an expiry is written: its decimal text, or `null` when absent.
pub open spec fn expiry_text(expires_at: Option<u64>) -> Seq<u8> {
    match expires_at {
        Some(t) => decimal(t as nat),
        None => null_text(),
    }
}

/// The encoding of an envelope.
pub open spec fn frame(expires_at: Option<u64>, payload: Seq<u8>) -> Seq<u8> {
    head_text() + expiry_text(expires_at) + separator_text() + payload + seq![125u8]
}

/// The bytes `{"value":`.
pub open spec fn bare_head_text() -> Seq<u8> {
    seq![123u8, 34, 118, 97, 108, 117, 101, 34, 58]
}

/// The encoding of an envelope without expiry that leaves the field out.
pub open spec fn bare_frame(payload: Seq<u8>) -> Seq<u8> {
    bare_head_text() + payload + seq![125u8]
}

/// Whether `b` encodes `e`: in full, or, without expiry, leaving it out.
pub open spec fn encodes(b: Seq<u8>, e: Envelope) -> bool {
    ||| b == frame(e.expires_at, e.payload)
    ||| e.expires_at is None && b == bare_frame(e.payload)
}

/// Whether `b` is the encoding of some envelope.
pub open spec fn is_frame(b: Seq<u8>) -> bool {
    exists|e: Envelope| encodes(b, e)
}

/// Whether `b` is one well-formed JSON document.
pub uninterp spec fn is_json(b: Seq<u8>) -> bool;

/// Relies on `serde_json::from_slice`: it succeeds on the bytes of one JSON
/// document and fails on anything else, depending on the bytes alone.
#[verifier::external_body]
pub(crate) fn json_valid(b: &[u8]) -> (r: bool)
    ensures
        r == is_json(b@),
{
    serde_json::from_slice::<serde_json::Value>(b).is_ok()
}

/// A decoded envelope, owning its payload.
pub struct Value {
    expires_at: Option<u64>,
    value: Vec<u8>,
}

impl View for Value {
    type V = Envelope;

    closed spec fn view(&self) -> Envelope {
        Envelope { expires_at: self.expires_at, payload: self.value@ }
    }
}

impl Value {
    /// Returns the payload's bytes, to be parsed into a typed value.
    pub fn into_parsed(self) -> (r: Vec<u8>)
        ensures
            r@ == self@.payload,
    {
        self.value
    }

    /// Sets the expiry to `lifetime` seconds from the current time.
    pub fn set_lifetime(&mut self, lifetime: u64) -> (r: Result<(), SystemTimeError>)
        ensures
            final(self)@.payload == old(self)@.payload,
            r is Ok ==> exists|t: u64| final(self)@.expires_at == Some(saturating_sum(t, lifetime)),
            r is Err ==> final(self)@ == old(self)@,
    {
        let t: u64 = now()?;
        self.set_lifetime_at(t, lifetime);
        Ok(())
    }

    /// Sets the expiry to `lifetime` seconds after `now`, capped at the
    /// largest timestamp (which then never passes).
    pub fn set_lifetime_at(&mut self, now: u64, lifetime: u64)
        ensures
            final(self)@ == (Envelope {
                expires_at: Some(saturating_sum(now, lifetime)),
                payload: old(self)@.payload,
            }),
    {
        self.expires_at = Some(now.saturating_add(lifetime));
    }

    /// Returns the UNIX timestamp at which the value expires, if any.
    pub fn get_expires_at(&self) -> (r: Option<u64>)
        ensures
            r == self@.expires_at,
    {
        self.expires_at
    }

    /// Whether the value has expired at the current time.
    pub fn is_expired(&self) -> (r: Result<bool, SystemTimeError>)
        ensures
            r matches Ok(b) ==> exists|t: u64| b == expired(self@.expires_at, t),
    {
        let t: u64 = now()?;
        Ok(self.is_expired_at(t))
    }

    /// Whether the value has expired at time `now`.
    pub fn is_expired_at(&self, now: u64) -> (r: bool)
        ensures
            r == expired(self@.expires_at, now),
    {
        match self.expires_at {
            Some(t) => t < now,
            None => false,
        }
    }

    /// Encodes the envelope to bytes.
    pub fn encode(&self) -> (r: Vec<u8>)
        ensures
            r@ == frame(self@.expires_at, self@.payload),
    {
        encode_value(self.expires_at, self.value.as_slice())
    }
}

/// An envelope that borrows its payload, for writing.
pub struct ValueRef<'a> {
    expires_at: Option<u64>,
    value: &'a [u8],
}

impl<'a> View for ValueRef<'a> {
    type V = Envelope;

    closed spec fn view(&self) -> Envelope {
        Envelope { expires_at: self.expires_at, payload: self.value@ }
    }
}

impl<'a> ValueRef<'a> {
    /// Creates an envelope without expiry around `value`.
    pub fn new(value: &'a [u8]) -> (r: Self)
        ensures
            r@ == (Envelope { expires_at: None, payload: value@ }),
    {
        ValueRef { value, expires_at: None }
    }

    /// Sets the UNIX timestamp at which the value expires.
    pub fn set_expires_at(&mut self, expires_at: u64)
        ensures
            final(self)@ == (Envelope { expires_at: Some(expires_at), payload: old(self)@.payload }),
    {
        self.expires_at = Some(expires_at);
    }

    /// Encodes the envelope to bytes.
    pub fn encode(&self) -> (r: Vec<u8>)
        ensures
            r@ == frame(self@.expires_at, self@.payload),
    {
        encode_value(self.expires_at, self.value)
    }
}

fn head_bytes() -> (r: Vec<u8>)
    ensures
        r@ == head_text(),
{
    let r: Vec<u8> = vec![123u8, 34, 101, 120, 112, 105, 114, 101, 115, 95, 97, 116, 34, 58];
    assert(r@ =~= head_text());
    r
}

fn null_bytes() -> (r: Vec<u8>)
    ensures
        r@ == null_text(),
{
    let r: Vec<u8> = vec![110u8, 117, 108, 108];
    assert(r@ =~= null_text());
    r
}

fn separator_bytes() -> (r: Vec<u8>)
    ensures
        r@ == separator_text(),
{
    let r: Vec<u8> = vec![44u8, 34, 118, 97, 108, 117, 101, 34, 58];
    assert(r@ =~= separator_text());
    r
}

/// Appends `tail` to `out`.
fn push_all(out: &mut Vec<u8>, tail: &[u8])
    ensures
        final(out)@ == old(out)@ + tail@,
{
    let mut i: usize = 0;
    while i < tail.len()
        invariant
            0 <= i <= tail@.len(),
            out@ == old(out)@ + tail@.take(i as int),
        decreases tail@.len() - i,
    {
        out.push(tail[i]);
        i = i + 1;
        assert(out@ =~= old(out)@ + tail@.take(i as int));
    }
    assert(tail@.take(i as int) =~= tail@);
}

/// Encodes an envelope with the given expiry around `payload`.
pub fn encode_value(expires_at: Option<u64>, payload: &[u8]) -> (r: Vec<u8>)
    ensures
        r@ == frame(expires_at, payload@),
{
    let mut out = head_bytes();
    match expires_at {
        Some(t) => push_decimal(&mut out, t),
        None => push_all(&mut out, null_bytes().as_slice()),
    }
    push_all(&mut out, separator_bytes().as_slice());
    push_all(&mut out, payload);
    out.push(125u8);
    assert(out@ =~= frame(expires_at, payload@));
    out
}

/// Whether the bytes of `pat` stand in `b` from `pos` on.
fn matches_at(b: &[u8], pos: usize, pat: &[u8]) -> (r: bool)
    ensures
        r == (pos + pat@.len() <= b@.len() && b@.subrange(pos as int, pos + pat@.len()) == pat@),
{
    if pat.len() > b.len() || pos > b.len() - pat.len() {
        return false;
    }
    let mut i: usize = 0;
    while i < pat.len()
        invariant
            pos + pat@.len() <= b@.len(),
            b@.len() == b.len(),
            0 <= i <= pat@.len(),
            forall|k: int| 0 <= k < i ==> b@[pos + k] == pat@[k],
        decreases pat@.len() - i,
    {
        if b[pos + i] != pat[i] {
            assert(b@.subrange(pos as int, pos + pat@.len())[i as int] != pat@[i as int]);
            return false;
        }
        i = i + 1;
    }
    assert(b@.subrange(pos as int, pos + pat@.len()) =~= pat@);
    true
}

/// The first index from `from` on where `b` holds `byte`.
fn find_byte(b: &[u8], from: usize, byte: u8) -> (r: Option<usize>)
    requires
        from <= b@.len(),
    ensures
        match r {
            Some(j) => {
                &&& from <= j < b@.len()
                &&& b@[j as int] == byte
                &&& forall|k: int| from <= k < j ==> b@[k] != byte
            },
            None => forall|k: int| from <= k < b@.len() ==> b@[k] != byte,
        },
{
    let mut i: usize = from;
    while i < b.len()
        invariant
            from <= i <= b@.len(),
            forall|k: int| from <= k < i ==> b@[k] != byte,
        decreases b@.len() - i,
    {
        if b[i] == byte {
            return Some(i);
        }
        i = i + 1;
    }
    None
}

/// The parts of an encoded envelope, where they stand.
proof fn lemma_frame_parts(expires_at: Option<u64>, payload: Seq<u8>)
    ensures
        ({
            let f = frame(expires_at, payload);
            let t = expiry_text(expires_at);
            let j = 14 + t.len() as int;
            &&& t.len() >= 1
            &&& f.len() == j + 10 + payload.len()
            &&& f.subrange(0, 14) == head_text()
            &&& f.subrange(14, j) == t
            &&& forall|k: int| 14 <= k < j ==> f[k] != 44
            &&& f[j] == 44
            &&& f.subrange(j, j + 9) == separator_text()
            &&& f.subrange(j + 9, f.len() - 1) == payload
            &&& f[f.len() - 1] == 125
        }),
        expires_at matches Some(n) ==> is_canonical_decimal(expiry_text(expires_at))
            && crate::utils::decimal_value(expiry_text(expires_at)) == n,
        expires_at is Some ==> expiry_text(expires_at) != null_text(),
{
    let f = frame(expires_at, payload);
    let t = expiry_text(expires_at);
    let j = 14 + t.len() as int;
    if let Some(n) = expires_at {
        lemma_decimal_round_trip(n as nat);
        assert(is_digit(t[0]));
        assert(!is_digit(null_text()[0]));
    }
    assert(f.subrange(0, 14) =~= head_text());
    assert(f.subrange(14, j) =~= t);
    assert forall|k: int| 14 <= k < j implies f[k] != 44 by {
        assert(f[k] == t[k - 14]);
        if let Some(n) = expires_at {
            assert(is_digit(t[k - 14]));
        }
    }
    assert(f.subrange(j, j + 9) =~= separator_text());
    assert(f.subrange(j + 9, f.len() - 1) =~= payload);
}

/// An encoding determines the envelope it encodes.
pub proof fn lemma_frame_injective(ea: Option<u64>, pa: Seq<u8>, eb: Option<u64>, pb: Seq<u8>)
    requires
        frame(ea, pa) == frame(eb, pb),
    ensures
        ea == eb,
        pa == pb,
{
    lemma_frame_parts(ea, pa);
    lemma_frame_parts(eb, pb);
    let f = frame(ea, pa);
    let ja = 14 + expiry_text(ea).len() as int;
    let jb = 14 + expiry_text(eb).len() as int;
    if ja < jb {
        assert(f[ja] == 44);
    } else if jb < ja {
        assert(f[jb] == 44);
    }
    assert(expiry_text(ea) == expiry_text(eb));
}

fn bare_head_bytes() -> (r: Vec<u8>)
    ensures
        r@ == bare_head_text(),
{
    let r: Vec<u8> = vec![123u8, 34, 118, 97, 108, 117, 101, 34, 58];
    assert(r@ =~= bare_head_text());
    r
}

/// An encoding determines the envelope it encodes.
pub proof fn lemma_encodes_injective(b: Seq<u8>, ea: Envelope, eb: Envelope)
    requires
        encodes(b, ea),
        encodes(b, eb),
    ensures
        ea == eb,
{
    if b == frame(ea.expires_at, ea.payload) && b == frame(eb.expires_at, eb.payload) {
        lemma_frame_injective(ea.expires_at, ea.payload, eb.expires_at, eb.payload);
    } else if b == bare_frame(ea.payload) && b == bare_frame(eb.payload) {
        assert(ea.payload =~= b.subrange(9, b.len() - 1));
        assert(eb.payload =~= b.subrange(9, b.len() - 1));
    } else if b == frame(ea.expires_at, ea.payload) {
        assert(b[2] == head_text()[2]);
        assert(b[2] == bare_head_text()[2]);
    } else {
        assert(b[2] == bare_head_text()[2]);
        assert(b[2] == head_text()[2]);
    }
}

/// Reads the envelope that `b` encodes, if it encodes one. Only the compact
/// forms are read, as `encode_value` writes them (and `{"value":<payload>}`):
/// no whitespace around the fields and `expires_at` first; a document that
/// spaces or reorders its fields is not an envelope here.
pub fn parse_frame(b: &[u8]) -> (r: Option<Value>)
    ensures
        match r {
            Some(v) => encodes(b@, v@),
            None => !is_frame(b@),
        },
{
    let n: usize = b.len();
    let bare = bare_head_bytes();
    if n >= 10 && b[n - 1] == 125 && matches_at(b, 0, bare.as_slice()) {
        let mut value: Vec<u8> = Vec::new();
        push_all(&mut value, &b[9..n - 1]);
        assert(b@ =~= bare_frame(value@));
        return Some(Value { expires_at: None, value });
    }
    proof {
        assert forall|p: Seq<u8>| b@ != #[trigger] bare_frame(p) by {
            if b@ == bare_frame(p) {
                assert(b@.subrange(0, 9) =~= bare_head_text());
            }
        }
    }
    let r = parse_full_frame(b);
    proof {
        if r is None {
            assert forall|e: Envelope| !encodes(b@, e) by {
                assert(b@ != frame(e.expires_at, e.payload));
                assert(b@ != bare_frame(e.payload));
            }
        }
    }
    r
}

/// Reads the envelope that `b` encodes in full, if it encodes one so.
fn parse_full_frame(b: &[u8]) -> (r: Option<Value>)
    ensures
        match r {
            Some(v) => b@ == frame(v@.expires_at, v@.payload),
            None => forall|e: Envelope| b@ != #[trigger] frame(e.expires_at, e.payload),
        },
{
    let n: usize = b.len();
    let head = head_bytes();
    if n < 25 || b[n - 1] != 125 || !matches_at(b, 0, head.as_slice()) {
        proof {
            assert forall|e: Envelope| b@ != #[trigger] frame(e.expires_at, e.payload) by {
                lemma_frame_parts(e.expires_at, e.payload);
            }
        }
        return None;
    }
    let j = match find_byte(b, 14, 44) {
        Some(j) => j,
        None => {
            proof {
                assert forall|e: Envelope| b@ != #[trigger] frame(e.expires_at, e.payload) by {
                    lemma_frame_parts(e.expires_at, e.payload);
                    let k = 14 + expiry_text(e.expires_at).len() as int;
                    if b@ == frame(e.expires_at, e.payload) {
                        assert(b@[k] == 44);
                    }
                }
            }
            return None;
        },
    };
    let null = null_bytes();
    let expires_at = if j == 18 && matches_at(b, 14, null.as_slice()) {
        None
    } else {
        match parse_decimal(&b[14..j]) {
            Some(t) => Some(t),
            None => {
                proof {
                    assert forall|e: Envelope| b@ != #[trigger] frame(e.expires_at, e.payload) by {
                        lemma_frame_parts(e.expires_at, e.payload);
                        let k = 14 + expiry_text(e.expires_at).len() as int;
                        if b@ == frame(e.expires_at, e.payload) {
                            assert(b@[k] == 44);
                            assert(j == k);
                            assert(b@.subrange(14, j as int) == expiry_text(e.expires_at));
                        }
                    }
                }
                return None;
            },
        }
    };
    let sep = separator_bytes();
    if j > n - 10 || !matches_at(b, j, sep.as_slice()) {
        proof {
            assert forall|e: Envelope| b@ != #[trigger] frame(e.expires_at, e.payload) by {
                lemma_frame_parts(e.expires_at, e.payload);
                let k = 14 + expiry_text(e.expires_at).len() as int;
                if b@ == frame(e.expires_at, e.payload) {
                    assert(b@[k] == 44);
                    assert(j == k);
                }
            }
        }
        return None;
    }
    let mut value: Vec<u8> = Vec::new();
    push_all(&mut value, &b[j + 9..n - 1]);
    proof {
        let mid = b@.subrange(14, j as int);
        if expires_at is None {
            assert(mid =~= null_text());
        } else {
            lemma_canonical_is_decimal(mid);
        }
        assert(mid == expiry_text(expires_at));
        assert(b@ =~= frame(expires_at, value@));
    }
    Some(Value { expires_at, value })
}

/// Decodes stored bytes into an envelope whose payload is a JSON document.
pub fn decode_value(b: &[u8]) -> (r: Option<Value>)
    ensures
        match r {
            Some(v) => encodes(b@, v@) && is_json(v@.payload),
            None => forall|e: Envelope| #[trigger] encodes(b@, e) ==> !is_json(e.payload),
        },
{
    match parse_frame(b) {
        Some(v) => {
            if json_valid(v.value.as_slice()) {
                Some(v)
            } else {
                proof {
                    assert forall|e: Envelope| #[trigger] encodes(b@, e) implies !is_json(
                        e.payload,
                    ) by {
                        lemma_encodes_injective(b@, e, v@);
                    }
                }
                None
            }
        },
        None => None,
    }
}

} // verus!
