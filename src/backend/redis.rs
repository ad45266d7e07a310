//! The redis backend's naming: one hash per session under a namespace, and
//! one hash per namespace from session id to creation time.
use vstd::prelude::*;
use vstd::string::*;

verus! {

/// Relies on `impl From<&str> for String`: the string holds a copy of the
/// characters of `s`.
pub assume_specification<'a>[ <String as From<&'a str>>::from ](s: &str) -> (r: String)
    ensures
        r@ == s@,
;

/// The names a redis backend stores under.
pub struct RedisNames {
    pub namespace: Seq<char>,
    pub sessions_key: Seq<char>,
}

/// Redis powered session backend.
#[derive(Clone)]
pub struct RedisBackend<C> {
    namespace: String,
    sessions_key: String,
    connection: C,
}

impl<C> View for RedisBackend<C> {
    type V = RedisNames;

    closed spec fn view(&self) -> RedisNames {
        RedisNames { namespace: self.namespace@, sessions_key: self.sessions_key@ }
    }
}

impl<C> RedisBackend<C> {
    /// The prefix of every key this backend stores under.
    pub closed spec fn spec_namespace(&self) -> String {
        self.namespace
    }

    /// The connection commands run on.
    pub closed spec fn spec_connection(&self) -> C {
        self.connection
    }

    /// Creates a backend whose keys all start with `namespace`, over
    /// `connection`.
    pub fn new<N: Into<String>>(namespace: N, connection: C) -> (r: Self)
        ensures
            call_ensures(N::into, (namespace,), r.spec_namespace()),
            r@.namespace == r.spec_namespace()@,
            r.spec_connection() == connection,
            r@.sessions_key == r@.namespace + ":__seance_sessions"@,
    {
        let namespace: String = namespace.into();
        let mut sessions_key = namespace.clone();
        sessions_key.append(":__seance_sessions");
        RedisBackend { namespace, sessions_key, connection }
    }

    /// The key of the hash that holds a session's values.
    pub fn get_session_key(&self, session_id: &str) -> (r: String)
        ensures
            r@ == self@.namespace + ":"@ + session_id@,
    {
        let mut key = self.namespace.clone();
        key.append(":");
        key.append(session_id);
        key
    }

    /// The key of the hash from session id to creation time.
    pub fn sessions_key(&self) -> (r: &String)
        ensures
            r@ == self@.sessions_key,
    {
        &self.sessions_key
    }

    /// The connection, for running commands.
    pub fn connection(&mut self) -> (r: &mut C)
        ensures
            *r == old(self).spec_connection(),
            final(self)@ == old(self)@,
            final(self).spec_connection() == *final(r),
    {
        &mut self.connection
    }
}

} // verus!
