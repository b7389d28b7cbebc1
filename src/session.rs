//! The key source of one build session: an override given from outside, or
//! random bytes drawn once and kept for the rest of the session.
use vstd::prelude::*;
use vstd::slice::slice_to_vec;

verus! {

/// Length of a randomly drawn secret key.
pub const RANDOM_KEY_LEN: usize = 64;

/// Why no secret key could be had.
#[derive(Clone, Copy, Debug, PartialEq, Eq, Structural)]
pub enum KeyError {
    /// The operating system's random source failed.
    RandomUnavailable,
}

/// The abstract state of a key source.
pub struct SessionState {
    /// The key given from outside, if any.
    pub override_key: Option<Seq<u8>>,
    /// The key drawn at random earlier in the session, if any.
    pub cached: Option<Seq<u8>>,
}

impl SessionState {
    /// The key of the session once it is known: the override, else the
    /// cached random key.
    pub open spec fn key(self) -> Option<Seq<u8>> {
        if self.override_key is Some {
            self.override_key
        } else {
            self.cached
        }
    }
}

pub open spec fn bytes_of(v: Option<Vec<u8>>) -> Option<Seq<u8>> {
    match v {
        Some(b) => Some(b@),
        None => None,
    }
}

pub open spec fn outcome(r: Result<Vec<u8>, KeyError>) -> Option<Seq<u8>> {
    match r {
        Ok(k) => Some(k@),
        Err(_) => None,
    }
}

/// One request for the key, from state `pre` to state `post`, with
/// `out` the key handed back (`None` on failure) and `fresh` the random
/// bytes drawn, if any. A known key is returned and nothing changes; an
/// unknown one becomes the fresh bytes, and failure changes nothing.
pub open spec fn key_request(
    pre: SessionState,
    post: SessionState,
    fresh: Option<Seq<u8>>,
    out: Option<Seq<u8>>,
) -> bool {
    match pre.key() {
        Some(k) => post == pre && out == Some(k),
        None => match fresh {
            Some(d) => out == Some(d) && post == SessionState { cached: Some(d), ..pre },
            None => out is None && post == pre,
        },
    }
}

/// A request for the key went from `pre` to `post` and handed back
/// `post.key()`: the known key if there was one, else freshly drawn random
/// bytes of `RANDOM_KEY_LEN` bytes, else nothing (a failed draw).
pub open spec fn acquired(pre: SessionState, post: SessionState) -> bool {
    exists|fresh: Option<Seq<u8>>|
        key_request(pre, post, fresh, post.key()) && (fresh matches Some(d) ==> d.len()
            == RANDOM_KEY_LEN)
}

/// Where the secret key of a build session comes from.
pub struct KeySource {
    override_key: Option<Vec<u8>>,
    cached: Option<Vec<u8>>,
}

impl View for KeySource {
    type V = SessionState;

    closed spec fn view(&self) -> SessionState {
        SessionState { override_key: bytes_of(self.override_key), cached: bytes_of(self.cached) }
    }
}

/// Relies on rand's `OsRng::try_fill_bytes`: on success it has written
/// every byte of the buffer, which keeps its length; on failure it reports
/// an error.
#[verifier::external_body]
fn os_random_bytes(len: usize) -> (r: Option<Vec<u8>>)
    ensures
        r matches Some(v) ==> v@.len() == len,
{
    let mut buf = vec![0u8; len];
    match rand::RngCore::try_fill_bytes(&mut rand::rngs::OsRng, &mut buf) {
        Ok(()) => Some(buf),
        Err(_) => None,
    }
}

impl KeySource {
    /// A new session, with the key given from outside if there is one.
    pub fn new(override_key: Option<Vec<u8>>) -> (r: KeySource)
        ensures
            r@.override_key == bytes_of(override_key),
            r@.cached is None,
    {
        KeySource { override_key, cached: None }
    }

    /// The session's key if it is already known, else `fresh`, which then
    /// becomes the session's key; `KeyError::RandomUnavailable` when neither
    /// is there.
    pub fn acquire_from(&mut self, fresh: Option<Vec<u8>>) -> (r: Result<Vec<u8>, KeyError>)
        ensures
            key_request(old(self)@, final(self)@, bytes_of(fresh), outcome(r)),
    {
        match &self.override_key {
            Some(k) => {
                return Ok(slice_to_vec(k.as_slice()));
            },
            None => {},
        }
        match &self.cached {
            Some(k) => {
                return Ok(slice_to_vec(k.as_slice()));
            },
            None => {},
        }
        match fresh {
            Some(d) => {
                let out = slice_to_vec(d.as_slice());
                self.cached = Some(d);
                Ok(out)
            },
            None => Err(KeyError::RandomUnavailable),
        }
    }

    /// The session's key: the override if there is one, else random bytes
    /// drawn on the first request and returned unchanged on every later one.
    /// Fails only when a draw is needed and the random source fails.
    pub fn acquire(&mut self) -> (r: Result<Vec<u8>, KeyError>)
        ensures
            acquired(old(self)@, final(self)@),
            outcome(r) == final(self)@.key(),
            old(self)@.key() is Some ==> r is Ok,
    {
        if self.override_key.is_some() || self.cached.is_some() {
            self.acquire_from(None)
        } else {
            let fresh = os_random_bytes(RANDOM_KEY_LEN);
            self.acquire_from(fresh)
        }
    }
}

/// Once a request has returned a key, every later request in the same
/// session returns the same bytes.
pub proof fn lemma_session_determinism(
    s0: SessionState,
    s1: SessionState,
    s2: SessionState,
    fresh1: Option<Seq<u8>>,
    fresh2: Option<Seq<u8>>,
    k1: Seq<u8>,
    out2: Option<Seq<u8>>,
)
    requires
        key_request(s0, s1, fresh1, Some(k1)),
        key_request(s1, s2, fresh2, out2),
    ensures
        out2 == Some(k1),
        s2 == s1,
{
}

} // verus!
