//! Sessions: a random identifier with some data, and a store for one of
//! them.

use vstd::prelude::*;
use rand::Rng;
use vstd::std_specs::cmp::PartialEqSpecImpl;
use crate::repositories::RepositoryError;

verus! {

/// The identifier of a session: 32 bytes drawn at random.
#[derive(Debug, Clone, Copy, Eq)]
pub struct SessionId([u8; 32]);

impl PartialEq for SessionId {
    fn eq(&self, other: &Self) -> (r: bool) {
        let mut i: usize = 0;
        while i < 32
            invariant
                i <= 32,
                forall|j: int| 0 <= j < i ==> self.0@[j] == other.0@[j],
            decreases 32 - i,
        {
            if self.0[i] != other.0[i] {
                return false;
            }
            i = i + 1;
        }
        assert(self.0 =~= other.0);
        true
    }
}

impl PartialEqSpecImpl for SessionId {
    open spec fn obeys_eq_spec() -> bool {
        true
    }

    open spec fn eq_spec(&self, other: &Self) -> bool {
        *self == *other
    }
}

impl SessionId {
    /// Draws an identifier with `rand::thread_rng().gen()`. Nothing is
    /// claimed of the bytes that come back: two draws may even agree.
    #[verifier::external_body]
    fn new() -> SessionId {
        Self(rand::thread_rng().gen::<[u8; 32]>())
    }
}

/// What may be kept in a session.
pub trait SessionData: Clone + std::marker::Sync + std::marker::Send + 'static {

}

/// A session: its identifier and its data.
#[derive(Debug, PartialEq, Eq)]
pub struct Session<D> {
    pub id: SessionId,
    pub data: D,
}

impl<D: Clone> Clone for Session<D> {
    fn clone(&self) -> (r: Self)
        ensures
            r.id == self.id,
            cloned(self.data, r.data),
    {
        Session { id: self.id, data: self.data.clone() }
    }
}

impl<D> Session<D> {
    /// A session for `data` under a newly drawn identifier.
    pub fn new(data: D) -> (r: Self)
        ensures
            r.data == data,
    {
        Self { id: SessionId::new(), data }
    }
}

/// A store of sessions: a map from identifiers to data.
pub trait SessionRepository<D: Clone> {
    /// The sessions that the store holds at present.
    spec fn sessions(&self) -> Map<SessionId, D>;

    /// Opens a session for `data` and hands it back. The store holds a copy
    /// of it afterwards; which other sessions it still holds is up to the
    /// store.
    fn add(&mut self, data: D) -> (r: Session<D>)
        ensures
            r.data == data,
            final(self).sessions().contains_key(r.id),
            cloned(data, final(self).sessions()[r.id]),
    ;

    /// A copy of the session under `sessid`, if the store holds one.
    fn get(&self, sessid: SessionId) -> (r: Option<Session<D>>)
        ensures
            r is Some <==> self.sessions().contains_key(sessid),
            r matches Some(found) ==> found.id == sessid && cloned(
                self.sessions()[sessid],
                found.data,
            ),
    ;

    /// The session under `sessid` with `data` in place of its own. The store
    /// itself keeps what it had.
    fn update(&self, sessid: SessionId, data: D) -> (r: Result<Session<D>, RepositoryError>)
        ensures
            match r {
                Ok(session) => self.sessions().contains_key(sessid) && session.id == sessid
                    && session.data == data,
                Err(e) => !self.sessions().contains_key(sessid) && e == RepositoryError::NotFound,
            },
    ;

    /// Closes the session under `sessid`, if the store holds one.
    fn delete(&mut self, sessid: SessionId)
        ensures
            final(self).sessions() == old(self).sessions().remove(sessid),
    ;

    /// Closes every session.
    fn clear(&mut self)
        ensures
            final(self).sessions() == Map::<SessionId, D>::empty(),
    ;
}

/// A store in memory that holds one session at most: opening a session
/// closes the one before.
#[derive(Debug)]
pub struct SingletonSessionRepositoryForMemory<D> {
    store: Option<Session<D>>,
}

impl<D: Clone> Clone for SingletonSessionRepositoryForMemory<D> {
    fn clone(&self) -> (r: Self) {
        Self {
            store: match &self.store {
                Some(session) => Some(session.clone()),
                None => None,
            },
        }
    }
}

impl<D> SingletonSessionRepositoryForMemory<D> where D: SessionData {
    /// A store without a session.
    pub fn new() -> (r: Self)
        ensures
            r.sessions() == Map::<SessionId, D>::empty(),
    {
        Self { store: None }
    }
}

impl<D> SessionRepository<D> for SingletonSessionRepositoryForMemory<D> where D: SessionData {
    closed spec fn sessions(&self) -> Map<SessionId, D> {
        match self.store {
            Some(session) => Map::<SessionId, D>::empty().insert(session.id, session.data),
            None => Map::<SessionId, D>::empty(),
        }
    }

    fn add(&mut self, data: D) -> (r: Session<D>)
        ensures
            final(self).sessions().dom() == Set::<SessionId>::empty().insert(r.id),
    {
        let sess = Session::new(data);
        self.store = Some(sess.clone());
        assert(self.sessions().dom() =~= Set::<SessionId>::empty().insert(sess.id));
        sess
    }

    fn get(&self, sessid: SessionId) -> (r: Option<Session<D>>) {
        match &self.store {
            Some(sess) => {
                if sess.id == sessid {
                    Some(Session { id: sess.id, data: sess.data.clone() })
                } else {
                    None
                }
            },
            None => None,
        }
    }

    fn update(&self, sessid: SessionId, data: D) -> (r: Result<Session<D>, RepositoryError>) {
        match &self.store {
            Some(sess) => {
                if sess.id == sessid {
                    Ok(Session { id: sess.id, data })
                } else {
                    Err(RepositoryError::NotFound)
                }
            },
            None => Err(RepositoryError::NotFound),
        }
    }

    fn delete(&mut self, sessid: SessionId) {
        let found = match &self.store {
            Some(sess) => sess.id == sessid,
            None => false,
        };
        if found {
            self.store = None;
        }
        assert(self.sessions() =~= old(self).sessions().remove(sessid));
    }

    fn clear(&mut self) {
        self.store = None;
    }
}

} // verus!
