//! What a session handle decides around its backend round trips: which
//! bytes `set` and `expire` write, and what `get` returns, with lazy expiry
//! and the carrying of a live expiry across overwrites.
use crate::utils::now;
use crate::value::{
    decode_value, encode_value, expired, frame, is_json, json_valid, lemma_encodes_injective, encodes,
    saturating_sum, Envelope, Value,
};
use std::time::SystemTimeError;
use vstd::prelude::*;

verus! {

/// An error of a session operation that the library itself detects.
#[derive(Debug)]
pub enum SessionError {
    /// The clock could not be read to check whether a value expired.
    CheckExpired(SystemTimeError),
    /// The stored bytes are not an envelope around a JSON document.
    DecodeValue,
    /// The payload to store is not a JSON document.
    EncodeValue,
    /// The clock could not be read to set an expiry.
    ExpireValue(SystemTimeError),
}

/// The bytes of a backend read, if it found any.
pub open spec fn bytes_of(stored: Option<Vec<u8>>) -> Option<Seq<u8>> {
    match stored {
        Some(b) => Some(b@),
        None => None,
    }
}

/// Whether stored bytes are an envelope around a JSON document.
pub open spec fn is_stored_envelope(b: Seq<u8>) -> bool {
    exists|e: Envelope| encodes(b, e) && is_json(e.payload)
}

/// The envelope that stored bytes hold.
pub open spec fn stored_envelope(b: Seq<u8>) -> Envelope
    recommends
        is_stored_envelope(b),
{
    choose|e: Envelope| encodes(b, e) && is_json(e.payload)
}

/// The expiry that a write over `previous` at time `now` keeps: the previous
/// one while it has not passed, otherwise none.
pub open spec fn carried_expiry(previous: Envelope, now: u64) -> Option<u64> {
    if expired(previous.expires_at, now) {
        None
    } else {
        previous.expires_at
    }
}

/// The bytes that `set` writes over `stored` at time `now`, or its error.
pub open spec fn set_outcome(stored: Option<Seq<u8>>, now: u64, payload: Seq<u8>) -> Result<
    Seq<u8>,
    SessionError,
> {
    match stored {
        Some(b) if !is_stored_envelope(b) => Err(SessionError::DecodeValue),
        _ => if !is_json(payload) {
            Err(SessionError::EncodeValue)
        } else {
            match stored {
                Some(b) => Ok(frame(carried_expiry(stored_envelope(b), now), payload)),
                None => Ok(frame(None, payload)),
            }
        },
    }
}

/// What `get` returns for `stored` at time `now`: the payload of a live value.
pub open spec fn get_outcome(stored: Option<Seq<u8>>, now: u64) -> Result<
    Option<Seq<u8>>,
    SessionError,
> {
    match stored {
        None => Ok(None),
        Some(b) => if !is_stored_envelope(b) {
            Err(SessionError::DecodeValue)
        } else if expired(stored_envelope(b).expires_at, now) {
            Ok(None)
        } else {
            Ok(Some(stored_envelope(b).payload))
        },
    }
}

/// The bytes that `expire` writes over `stored` at time `now`, none when
/// there is no value, or its error.
pub open spec fn expire_outcome(stored: Option<Seq<u8>>, now: u64, seconds: u64) -> Result<
    Option<Seq<u8>>,
    SessionError,
> {
    match stored {
        None => Ok(None),
        Some(b) => if !is_stored_envelope(b) {
            Err(SessionError::DecodeValue)
        } else {
            Ok(Some(frame(Some(saturating_sum(now, seconds)), stored_envelope(b).payload)))
        },
    }
}

/// Stored bytes determine the envelope they hold.
pub proof fn lemma_stored_envelope(b: Seq<u8>, e: Envelope)
    requires
        encodes(b, e),
        is_json(e.payload),
    ensures
        is_stored_envelope(b),
        stored_envelope(b) == e,
{
    let c = stored_envelope(b);
    lemma_encodes_injective(b, c, e);
}

/// A value set without an expiry reads back unchanged at every later time:
/// when `set` of `payload` succeeds over a store that holds no live expiry for
/// the key, `get` on the written bytes returns `payload`, whatever the time.
pub proof fn lemma_set_get_round_trip(
    stored: Option<Seq<u8>>,
    set_at: u64,
    payload: Seq<u8>,
    get_at: u64,
)
    requires
        set_outcome(stored, set_at, payload) is Ok,
        stored matches Some(b) ==> carried_expiry(stored_envelope(b), set_at) is None,
    ensures
        get_outcome(Some(set_outcome(stored, set_at, payload)->Ok_0), get_at) == Ok::<
            Option<Seq<u8>>,
            SessionError,
        >(Some(payload)),
{
    let e = Envelope { expires_at: None, payload };
    lemma_stored_envelope(frame(None, payload), e);
}

/// A value whose expiry was set reads back as absent once that expiry has
/// passed, and as its payload until then.
pub proof fn lemma_expire_then_get(stored: Seq<u8>, expire_at: u64, seconds: u64, get_at: u64)
    requires
        is_stored_envelope(stored),
    ensures
        ({
            let written = expire_outcome(Some(stored), expire_at, seconds)->Ok_0->Some_0;
            &&& expire_at + seconds < get_at ==> get_outcome(Some(written), get_at) == Ok::<
                Option<Seq<u8>>,
                SessionError,
            >(None)
            &&& get_at <= expire_at + seconds ==> get_outcome(Some(written), get_at) == Ok::<
                Option<Seq<u8>>,
                SessionError,
            >(Some(stored_envelope(stored).payload))
        }),
{
    let e = stored_envelope(stored);
    let t = saturating_sum(expire_at, seconds);
    lemma_stored_envelope(frame(Some(t), e.payload), Envelope { expires_at: Some(t), payload: e.payload });
}

/// Overwriting keeps a live expiry and drops a passed one: after `set` of
/// `first`, `expire` by `seconds` at `expire_at`, and `set` of `second` at
/// `set_at`, the envelope holds `second` with the expiry from `expire` if that
/// had not passed at `set_at`, and with no expiry otherwise.
pub proof fn lemma_expiry_carried_forward(
    first: Seq<u8>,
    first_at: u64,
    expire_at: u64,
    seconds: u64,
    second: Seq<u8>,
    set_at: u64,
)
    requires
        is_json(first),
        is_json(second),
    ensures
        ({
            let b1 = set_outcome(None, first_at, first)->Ok_0;
            let b2 = expire_outcome(Some(b1), expire_at, seconds)->Ok_0->Some_0;
            let deadline = saturating_sum(expire_at, seconds);
            &&& set_at <= deadline ==> set_outcome(Some(b2), set_at, second) == Ok::<
                Seq<u8>,
                SessionError,
            >(frame(Some(deadline), second))
            &&& deadline < set_at ==> set_outcome(Some(b2), set_at, second) == Ok::<
                Seq<u8>,
                SessionError,
            >(frame(None, second))
        }),
{
    let deadline = saturating_sum(expire_at, seconds);
    lemma_stored_envelope(frame(None, first), Envelope { expires_at: None, payload: first });
    lemma_stored_envelope(
        frame(Some(deadline), first),
        Envelope { expires_at: Some(deadline), payload: first },
    );
}

/// The bytes to write for `set` of `payload` over `stored`, reading the clock
/// where a previous envelope's expiry has to be checked.
pub fn prepare_set(stored: &Option<Vec<u8>>, payload: &[u8]) -> (r: Result<Vec<u8>, SessionError>)
    ensures
        stored is None ==> match r {
            Ok(v) => set_outcome(None, 0, payload@) == Ok::<Seq<u8>, SessionError>(v@),
            Err(e) => set_outcome(None, 0, payload@) == Err::<Seq<u8>, SessionError>(e),
        },
        r matches Ok(v) ==> exists|t: u64| set_outcome(bytes_of(*stored), t, payload@) == Ok::<
            Seq<u8>,
            SessionError,
        >(v@),
        r matches Err(e) ==> e is CheckExpired || exists|t: u64|
            set_outcome(bytes_of(*stored), t, payload@) == Err::<Seq<u8>, SessionError>(e),
{
    let t: u64 = if stored.is_some() {
        match now() {
            Ok(t) => t,
            Err(e) => return Err(SessionError::CheckExpired(e)),
        }
    } else {
        0
    };
    prepare_set_at(stored, t, payload)
}

/// The bytes to write for `set` of `payload` over `stored` at time `now`.
pub fn prepare_set_at(stored: &Option<Vec<u8>>, now: u64, payload: &[u8]) -> (r: Result<
    Vec<u8>,
    SessionError,
>)
    ensures
        match r {
            Ok(v) => set_outcome(bytes_of(*stored), now, payload@) == Ok::<Seq<u8>, SessionError>(
                v@,
            ),
            Err(e) => set_outcome(bytes_of(*stored), now, payload@) == Err::<
                Seq<u8>,
                SessionError,
            >(e),
        },
{
    let previous = match stored {
        Some(b) => match decode_value(b.as_slice()) {
            Some(old) => {
                proof {
                    lemma_stored_envelope(b@, old@);
                }
                Some(old)
            },
            None => return Err(SessionError::DecodeValue),
        },
        None => None,
    };
    if !json_valid(payload) {
        return Err(SessionError::EncodeValue);
    }
    Ok(envelope_for_set(&previous, now, payload))
}

/// Encodes `payload` for a write over `previous` at time `now`: it keeps the
/// previous expiry while that has not passed, and has none otherwise.
pub fn envelope_for_set(previous: &Option<Value>, now: u64, payload: &[u8]) -> (r: Vec<u8>)
    ensures
        r@ == frame(
            match previous {
                Some(v) => carried_expiry(v@, now),
                None => None,
            },
            payload@,
        ),
{
    let mut expires_at: Option<u64> = None;
    if let Some(old) = previous {
        if !old.is_expired_at(now) {
            expires_at = old.get_expires_at();
        }
    }
    encode_value(expires_at, payload)
}

/// The payload that `get` returns, reading the clock where a value is stored.
pub fn resolve_get(stored: &Option<Vec<u8>>) -> (r: Result<Option<Vec<u8>>, SessionError>)
    ensures
        stored is None ==> r matches Ok(None),
        r matches Ok(Some(p)) ==> exists|t: u64| get_outcome(bytes_of(*stored), t) == Ok::<
            Option<Seq<u8>>,
            SessionError,
        >(Some(p@)),
        r matches Ok(None) ==> exists|t: u64| get_outcome(bytes_of(*stored), t) == Ok::<
            Option<Seq<u8>>,
            SessionError,
        >(None),
        r matches Err(e) ==> e is CheckExpired || get_outcome(bytes_of(*stored), 0) == Err::<
            Option<Seq<u8>>,
            SessionError,
        >(e),
{
    let t: u64 = if stored.is_some() {
        match now() {
            Ok(t) => t,
            Err(e) => return Err(SessionError::CheckExpired(e)),
        }
    } else {
        0
    };
    resolve_get_at(stored, t)
}

/// The payload that `get` returns for `stored` at time `now`: none when
/// nothing is stored or the value has expired.
pub fn resolve_get_at(stored: &Option<Vec<u8>>, now: u64) -> (r: Result<
    Option<Vec<u8>>,
    SessionError,
>)
    ensures
        match r {
            Ok(Some(p)) => get_outcome(bytes_of(*stored), now) == Ok::<
                Option<Seq<u8>>,
                SessionError,
            >(Some(p@)),
            Ok(None) => get_outcome(bytes_of(*stored), now) == Ok::<
                Option<Seq<u8>>,
                SessionError,
            >(None),
            Err(e) => get_outcome(bytes_of(*stored), now) == Err::<
                Option<Seq<u8>>,
                SessionError,
            >(e),
        },
{
    match stored {
        Some(b) => match decode_value(b.as_slice()) {
            Some(v) => {
                proof {
                    lemma_stored_envelope(b@, v@);
                }
                Ok(visible_payload(v, now))
            },
            None => Err(SessionError::DecodeValue),
        },
        None => Ok(None),
    }
}

/// The payload of `v` while it has not expired at time `now`.
pub fn visible_payload(v: Value, now: u64) -> (r: Option<Vec<u8>>)
    ensures
        match r {
            Some(p) => !expired(v@.expires_at, now) && p@ == v@.payload,
            None => expired(v@.expires_at, now),
        },
{
    if v.is_expired_at(now) {
        None
    } else {
        Some(v.into_parsed())
    }
}

/// The bytes that `expire` writes, reading the clock where a value is stored.
pub fn prepare_expire(stored: &Option<Vec<u8>>, seconds: u64) -> (r: Result<
    Option<Vec<u8>>,
    SessionError,
>)
    ensures
        stored is None <==> r matches Ok(None),
        r matches Ok(Some(w)) ==> exists|t: u64| expire_outcome(bytes_of(*stored), t, seconds) == Ok::<
            Option<Seq<u8>>,
            SessionError,
        >(Some(w@)),
        r matches Err(e) ==> e is ExpireValue || expire_outcome(bytes_of(*stored), 0, seconds)
            == Err::<Option<Seq<u8>>, SessionError>(e),
{
    let t: u64 = if stored.is_some() {
        match now() {
            Ok(t) => t,
            Err(e) => return Err(SessionError::ExpireValue(e)),
        }
    } else {
        0
    };
    prepare_expire_at(stored, t, seconds)
}

/// The bytes that `expire` writes over `stored` at time `now`: the same
/// payload, expiring `seconds` later; nothing when no value is stored.
pub fn prepare_expire_at(stored: &Option<Vec<u8>>, now: u64, seconds: u64) -> (r: Result<
    Option<Vec<u8>>,
    SessionError,
>)
    ensures
        match r {
            Ok(Some(w)) => expire_outcome(bytes_of(*stored), now, seconds) == Ok::<
                Option<Seq<u8>>,
                SessionError,
            >(Some(w@)),
            Ok(None) => expire_outcome(bytes_of(*stored), now, seconds) == Ok::<
                Option<Seq<u8>>,
                SessionError,
            >(None),
            Err(e) => expire_outcome(bytes_of(*stored), now, seconds) == Err::<
                Option<Seq<u8>>,
                SessionError,
            >(e),
        },
{
    match stored {
        Some(b) => match decode_value(b.as_slice()) {
            Some(v) => {
                proof {
                    lemma_stored_envelope(b@, v@);
                }
                let mut v = v;
                v.set_lifetime_at(now, seconds);
                Ok(Some(v.encode()))
            },
            None => Err(SessionError::DecodeValue),
        },
        None => Ok(None),
    }
}

} // verus!
