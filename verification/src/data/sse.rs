//! The server-sent-events sessions of each account.
use std::collections::HashMap;
use vstd::prelude::*;

verus! {

broadcast use vstd::std_specs::hash::group_hash_axioms;

/// The open sessions of each account, each under a key, holding the sender
/// that feeds it.
#[verifier::reject_recursive_types(S)]
pub struct SseHandler<S> {
    account_session: HashMap<i32, HashMap<usize, S>>,
}

/// The sessions of an account, none when it has none.
pub open spec fn sessions_of<S>(m: Map<i32, Map<usize, S>>, account_id: i32) -> Map<usize, S> {
    if m.contains_key(account_id) { m[account_id] } else { Map::empty() }
}

/// The sessions after one opens for the account: it takes the number of the
/// account's sessions as its key.
pub open spec fn open_session<S>(m: Map<i32, Map<usize, S>>, account_id: i32, tx: S) -> Map<i32, Map<usize, S>> {
    let mine = sessions_of(m, account_id);
    m.insert(account_id, mine.insert(mine.len() as usize, tx))
}

/// The sessions after the account's session `key` closes; an account with
/// no sessions is left as it is.
pub open spec fn close_session<S>(m: Map<i32, Map<usize, S>>, account_id: i32, key: usize) -> Map<i32, Map<usize, S>> {
    if m.contains_key(account_id) {
        m.insert(account_id, m[account_id].remove(key))
    } else {
        m
    }
}

impl<S> View for SseHandler<S> {
    type V = Map<i32, Map<usize, S>>;

    closed spec fn view(&self) -> Map<i32, Map<usize, S>> {
        self.account_session@.map_values(|m: HashMap<usize, S>| m@)
    }
}

impl<S> SseHandler<S> {
    /// A handler with no sessions.
    pub fn new() -> (h: Self)
        ensures
            h@ == Map::<i32, Map<usize, S>>::empty(),
    {
        let h = SseHandler { account_session: HashMap::new() };
        proof {
            assert(h@ =~= Map::<i32, Map<usize, S>>::empty());
        }
        h
    }

    /// Opens a session for the account, fed by `tx`; gives back its key.
    pub fn new_session(&mut self, account_id: i32, tx: S) -> (key: usize)
        ensures
            key == sessions_of(old(self)@, account_id).len(),
            final(self)@ == open_session(old(self)@, account_id, tx),
    {
        let ghost before = self@;
        let mut mine = match self.account_session.remove(&account_id) {
            Some(m) => m,
            None => HashMap::new(),
        };
        proof {
            assert(mine@ == sessions_of(before, account_id));
        }
        let l = mine.len();
        mine.insert(l, tx);
        self.account_session.insert(account_id, mine);
        proof {
            assert(self@ =~= open_session(before, account_id, tx));
        }
        l
    }

    /// Closes the account's session `key`.
    pub fn close_session(&mut self, account_id: i32, key: usize)
        ensures
            final(self)@ == close_session(old(self)@, account_id, key),
    {
        let ghost before = self@;
        match self.account_session.remove(&account_id) {
            Some(mut mine) => {
                mine.remove(&key);
                self.account_session.insert(account_id, mine);
                proof {
                    assert(self@ =~= close_session(before, account_id, key));
                }
            },
            None => {
                proof {
                    assert(self@ =~= before);
                }
            },
        }
    }

    /// The senders of the account's sessions, by key.
    pub fn sessions(&self, account_id: i32) -> (r: Option<&HashMap<usize, S>>)
        ensures
            match r {
                Some(m) => self@.contains_key(account_id) && m@ == self@[account_id],
                None => !self@.contains_key(account_id),
            },
    {
        self.account_session.get(&account_id)
    }
}

/// A session opened after `n` others, none of them closed, takes the key `n`,
/// which no other session holds; the keys stay `0` to `n`. Once session
/// `key` closes, no session of the account holds `key`.
pub proof fn law_session_keys<S>(m: Map<i32, Map<usize, S>>, account_id: i32, tx: S, key: usize)
    requires
        m.contains_key(account_id) ==> m[account_id].dom().finite(),
        sessions_of(m, account_id).len() < usize::MAX,
        forall|k: usize| sessions_of(m, account_id).contains_key(k) <==> k < sessions_of(m, account_id).len(),
    ensures
        !sessions_of(m, account_id).contains_key(sessions_of(m, account_id).len() as usize),
        forall|k: usize| #[trigger] sessions_of(open_session(m, account_id, tx), account_id).contains_key(k)
            <==> k <= sessions_of(m, account_id).len(),
        sessions_of(open_session(m, account_id, tx), account_id)[sessions_of(m, account_id).len() as usize] == tx,
        !sessions_of(close_session(m, account_id, key), account_id).contains_key(key),
{
    let mine = sessions_of(m, account_id);
    assert(mine.dom().finite());
}

/// Closing one session of an account closes only that one: every other
/// session of the account keeps its key and its sender, and the sessions of
/// every other account are as they were.
pub proof fn law_close_keeps_other_sessions<S>(m: Map<i32, Map<usize, S>>, account_id: i32, key: usize, k: usize, other: i32)
    ensures
        k != key ==> sessions_of(close_session(m, account_id, key), account_id).get(k) == sessions_of(m, account_id).get(k),
        other != account_id ==> sessions_of(close_session(m, account_id, key), other) == sessions_of(m, other),
        !sessions_of(close_session(m, account_id, key), account_id).contains_key(key),
{
    if m.contains_key(account_id) {
        assert(sessions_of(close_session(m, account_id, key), account_id) == m[account_id].remove(key));
    } else {
        assert(close_session(m, account_id, key) == m);
    }
}

} // verus!
