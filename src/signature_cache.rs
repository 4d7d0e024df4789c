//! The store of continuity tokens, one per client session.

use vstd::prelude::*;
use crate::table::{table_view, table_get, table_insert, table_evict_oldest, };

verus! {

/// Tokens of this many characters or fewer are placeholders and are not kept.
pub const MIN_SIGNATURE_LEN: usize = 50;

/// How many sessions a cache made by `new` keeps.
pub const DEFAULT_SIGNATURE_CAPACITY: usize = 10000;

/// A token is kept only when it is longer than the placeholder threshold.
pub open spec fn keeps_token(token: Seq<char>) -> bool {
    token.len() > MIN_SIGNATURE_LEN
}

/// The sessions and tokens that `c` holds after `token` is offered for `key`.
pub open spec fn stored_after(c: SignatureCache, key: Seq<char>, token: Seq<char>) -> Map<Seq<char>, Seq<char>> {
    if !keeps_token(token) {
        c@
    } else if c.is_full() && !c@.contains_key(key) {
        c@.remove(c.oldest_key()).insert(key, token)
    } else {
        c@.insert(key, token)
    }
}

/// Offering a token and then reading the session gives back that token when
/// it is longer than the threshold; a shorter token leaves every session as
/// it was.
pub proof fn lemma_put_then_get(c: SignatureCache, key: Seq<char>, token: Seq<char>)
    ensures
        keeps_token(token) ==> stored_after(c, key, token).contains_key(key) && stored_after(c, key, token)[key] == token,
        !keeps_token(token) ==> stored_after(c, key, token) == c@,
{
}

/// Latest continuity token per session key. When full, storing a new
/// session drops the session written least recently.
pub struct SignatureCache {
    entries: Vec<(String, String)>,
    capacity: usize,
}

impl View for SignatureCache {
    type V = Map<Seq<char>, Seq<char>>;

    closed spec fn view(&self) -> Map<Seq<char>, Seq<char>> {
        table_view(self.entries@)
    }
}

impl SignatureCache {
    pub closed spec fn wf(&self) -> bool {
        0 < self.capacity && self.entries@.len() <= self.capacity
    }

    pub closed spec fn capacity_spec(&self) -> nat {
        self.capacity as nat
    }

    /// Whether storing one more session first drops the least recent one.
    pub closed spec fn is_full(&self) -> bool {
        self.entries@.len() >= self.capacity
    }

    /// The session written least recently.
    pub closed spec fn oldest_key(&self) -> Seq<char> {
        self.entries@[0].0@
    }

    pub fn new() -> (r: Self)
        ensures
            r.wf(),
            r@ == Map::<Seq<char>, Seq<char>>::empty(),
            r.capacity_spec() == DEFAULT_SIGNATURE_CAPACITY,
    {
        SignatureCache { entries: Vec::new(), capacity: DEFAULT_SIGNATURE_CAPACITY }
    }

    /// A cache that keeps at most `capacity` sessions.
    pub fn with_capacity(capacity: usize) -> (r: Self)
        requires
            capacity > 0,
        ensures
            r.wf(),
            r@ == Map::<Seq<char>, Seq<char>>::empty(),
            r.capacity_spec() == capacity,
    {
        SignatureCache { entries: Vec::new(), capacity }
    }

    /// Records `signature` as the latest token of `session_id`, unless it is a
    /// placeholder.
    pub fn cache_session_signature(&mut self, session_id: &str, signature: String)
        requires
            old(self).wf(),
        ensures
            final(self).wf(),
            final(self).capacity_spec() == old(self).capacity_spec(),
            final(self)@ == stored_after(*old(self), session_id@, signature@),
    {
        if signature.as_str().unicode_len() <= MIN_SIGNATURE_LEN {
            return;
        }
        let key = session_id.to_string();
        let present = table_get(&self.entries, &key).is_some();
        if self.entries.len() >= self.capacity && !present {
            table_evict_oldest(&mut self.entries);
        }
        table_insert(&mut self.entries, key, signature);
    }

    /// The latest token of `session_id`, if one is kept.
    pub fn get_session_signature(&self, session_id: &str) -> (r: Option<String>)
        ensures
            r is Some <==> self@.contains_key(session_id@),
            r is Some ==> r->0@ == self@[session_id@],
    {
        let key = session_id.to_string();
        match table_get(&self.entries, &key) {
            Some(s) => Some(s.clone()),
            None => None,
        }
    }
}

} // verus!
