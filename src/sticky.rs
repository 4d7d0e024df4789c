//! Session affinity: which account serves each client conversation.

use vstd::prelude::*;
use crate::table::{table_view, table_get, table_insert, table_remove};

verus! {

/// Session key to account id.
pub struct StickyRouter {
    bindings: Vec<(String, String)>,
}

impl View for StickyRouter {
    type V = Map<Seq<char>, Seq<char>>;

    closed spec fn view(&self) -> Map<Seq<char>, Seq<char>> {
        table_view(self.bindings@)
    }
}

/// The bindings left when every binding to `account_id` is dropped.
pub open spec fn without_account(m: Map<Seq<char>, Seq<char>>, account_id: Seq<char>) -> Map<Seq<char>, Seq<char>> {
    m.restrict(m.dom().filter(|k: Seq<char>| m[k] != account_id))
}

impl StickyRouter {
    pub fn new() -> (r: Self)
        ensures
            r@ == Map::<Seq<char>, Seq<char>>::empty(),
    {
        StickyRouter { bindings: Vec::new() }
    }

    pub fn bind(&mut self, session_key: &str, account_id: &str)
        ensures
            final(self)@ == old(self)@.insert(session_key@, account_id@),
    {
        table_insert(&mut self.bindings, session_key.to_string(), account_id.to_string());
    }

    pub fn lookup(&self, session_key: &str) -> (r: Option<String>)
        ensures
            r is Some <==> self@.contains_key(session_key@),
            r is Some ==> r->0@ == self@[session_key@],
    {
        let k = session_key.to_string();
        match table_get(&self.bindings, &k) {
            Some(v) => Some(v.clone()),
            None => None,
        }
    }

    pub fn clear(&mut self, session_key: &str)
        ensures
            final(self)@ == old(self)@.remove(session_key@),
    {
        let k = session_key.to_string();
        table_remove(&mut self.bindings, &k);
    }

    pub fn clear_all(&mut self)
        ensures
            final(self)@ == Map::<Seq<char>, Seq<char>>::empty(),
    {
        self.bindings = Vec::new();
    }

    /// Drops every binding to `account_id`.
    pub fn clear_account(&mut self, account_id: &str)
        ensures
            final(self)@ == without_account(old(self)@, account_id@),
    {
        let ghost m0 = self@;
        let mut kept: Vec<(String, String)> = Vec::new();
        let mut i: usize = 0;
        let id = account_id.to_string();
        while i < self.bindings.len()
            invariant
                i <= self.bindings.len(),
                id@ == account_id@,
                table_view(self.bindings@) == m0,
                forall|k: Seq<char>| #[trigger] table_view(kept@).contains_key(k) ==> table_view(kept@)[k] != account_id@,
                forall|k: Seq<char>| table_view(kept@).contains_key(k) <==> (#[trigger] table_view(self.bindings@.subrange(0, i as int)).contains_key(k)
                    && table_view(self.bindings@.subrange(0, i as int))[k] != account_id@),
                forall|k: Seq<char>| #[trigger] table_view(kept@).contains_key(k) ==> table_view(kept@)[k] == table_view(self.bindings@.subrange(0, i as int))[k],
            decreases self.bindings.len() - i,
        {
            let ghost pre = self.bindings@.subrange(0, i as int);
            let ghost next = self.bindings@.subrange(0, i + 1);
            assert(next.drop_last() =~= pre);
            assert(table_view(next) == table_view(pre).insert(self.bindings@[i as int].0@, self.bindings@[i as int].1@));
            let k = self.bindings[i].0.clone();
            if self.bindings[i].1 != id {
                table_insert(&mut kept, k, self.bindings[i].1.clone());
            } else {
                table_remove(&mut kept, &k);
            }
            i = i + 1;
        }
        assert(self.bindings@.subrange(0, self.bindings@.len() as int) =~= self.bindings@);
        assert(table_view(kept@) =~= without_account(m0, account_id@));
        self.bindings = kept;
    }
}

} // verus!
