//! The pool of upstream accounts and the policy that picks one per request.

use vstd::prelude::*;
use crate::sticky::{StickyRouter, without_account};
use crate::text::str_eq;

verus! {

#[derive(Debug)]
pub struct ModelQuota {
    pub name: String,
    pub percentage: i32,
    pub reset_time: String,
}

#[derive(Debug)]
pub struct QuotaSnapshot {
    pub models: Vec<ModelQuota>,
    pub last_updated: i64,
    pub subscription_tier: Option<String>,
    pub is_forbidden: bool,
}

/// An upstream identity with its health flags.
#[derive(Debug)]
pub struct Account {
    pub id: String,
    pub email: String,
    pub name: Option<String>,
    pub refresh_token: String,
    pub access_token: String,
    pub disabled: bool,
    pub disabled_reason: Option<String>,
    pub disabled_at: Option<i64>,
    pub proxy_disabled: bool,
    pub proxy_disabled_reason: Option<String>,
    pub proxy_disabled_at: Option<i64>,
    /// Models this account is kept out of automatic selection for.
    pub protected_models: Vec<String>,
    pub last_used: i64,
    pub quota: Option<QuotaSnapshot>,
    pub device_bound: bool,
}

impl Account {
    /// A healthy account with no protected models and no quota snapshot.
    pub fn new(id: String, email: String, refresh_token: String, access_token: String) -> (r: Account)
        ensures
            r.id == id,
            r.email == email,
            r.refresh_token == refresh_token,
            r.access_token == access_token,
            !r.disabled && !r.proxy_disabled,
            r.disabled_reason is None && r.proxy_disabled_reason is None,
            r.protected_models@.len() == 0,
            r.last_used == 0,
            r.quota is None,
            !r.device_bound,
    {
        Account {
            id,
            email,
            name: None,
            refresh_token,
            access_token,
            disabled: false,
            disabled_reason: None,
            disabled_at: None,
            proxy_disabled: false,
            proxy_disabled_reason: None,
            proxy_disabled_at: None,
            protected_models: Vec::new(),
            last_used: 0,
            quota: None,
            device_bound: false,
        }
    }
}

/// `id` is one of `ids`.
pub open spec fn lists(ids: Seq<String>, id: Seq<char>) -> bool {
    exists|j: int| 0 <= j < ids.len() && (#[trigger] ids[j])@ == id
}

/// Whether `a` may serve a request for `model`, given the accounts already
/// skipped in this dispatch.
pub open spec fn eligible(a: Account, model: Option<Seq<char>>, skipped: Seq<String>) -> bool {
    &&& !a.disabled
    &&& !a.proxy_disabled
    &&& !(model is Some && lists(a.protected_models@, model->0))
    &&& !lists(skipped, a.id@)
}

pub fn lists_id(ids: &Vec<String>, id: &str) -> (r: bool)
    ensures
        r == lists(ids@, id@),
{
    let mut i: usize = 0;
    while i < ids.len()
        invariant
            i <= ids.len(),
            forall|j: int| 0 <= j < i ==> (#[trigger] ids@[j])@ != id@,
        decreases ids.len() - i,
    {
        if str_eq(ids[i].as_str(), id) {
            return true;
        }
        i = i + 1;
    }
    false
}

pub fn is_eligible(a: &Account, model: Option<&str>, skipped: &Vec<String>) -> (r: bool)
    ensures
        r == eligible(*a, match model { Some(m) => Some(m@), None => None }, skipped@),
{
    if a.disabled || a.proxy_disabled {
        return false;
    }
    if let Some(m) = model {
        if lists_id(&a.protected_models, m) {
            return false;
        }
    }
    !lists_id(skipped, a.id.as_str())
}

/// The position of the last account with id `id`.
pub open spec fn index_of(accts: Seq<Account>, id: Seq<char>) -> Option<int>
    decreases accts.len(),
{
    if accts.len() == 0 {
        None
    } else if accts.last().id@ == id {
        Some(accts.len() - 1)
    } else {
        index_of(accts.drop_last(), id)
    }
}

pub open spec fn ids_unique(accts: Seq<Account>) -> bool {
    forall|i: int, j: int| 0 <= i < accts.len() && 0 <= j < accts.len() && i != j ==> accts[i].id@ != accts[j].id@
}

pub proof fn lemma_index_of(accts: Seq<Account>, id: Seq<char>)
    ensures
        index_of(accts, id) matches Some(i) ==> 0 <= i < accts.len() && accts[i].id@ == id,
        index_of(accts, id) is None ==> forall|j: int| 0 <= j < accts.len() ==> accts[j].id@ != id,
    decreases accts.len(),
{
    if accts.len() > 0 {
        lemma_index_of(accts.drop_last(), id);
        if accts.last().id@ != id {
            assert forall|j: int| 0 <= j < accts.len() - 1 implies accts[j] == accts.drop_last()[j] by {}
        }
    }
}

pub proof fn lemma_index_of_unique(accts: Seq<Account>, i: int)
    requires
        ids_unique(accts),
        0 <= i < accts.len(),
    ensures
        index_of(accts, accts[i].id@) == Some(i),
    decreases accts.len(),
{
    if i < accts.len() - 1 {
        assert(accts.drop_last()[i] == accts[i]);
        lemma_index_of_unique(accts.drop_last(), i);
    }
}

pub proof fn lemma_same_ids_unique(a: Seq<Account>, b: Seq<Account>)
    requires
        a.len() == b.len(),
        forall|j: int| 0 <= j < a.len() ==> (#[trigger] a[j]).id@ == b[j].id@,
    ensures
        ids_unique(a) == ids_unique(b),
{
    if ids_unique(a) {
        assert forall|i: int, j: int| 0 <= i < b.len() && 0 <= j < b.len() && i != j implies b[i].id@ != b[j].id@ by {
            assert(a[i].id@ == b[i].id@);
            assert(a[j].id@ == b[j].id@);
        }
    }
    if ids_unique(b) {
        assert forall|i: int, j: int| 0 <= i < a.len() && 0 <= j < a.len() && i != j implies a[i].id@ != a[j].id@ by {
            assert(a[i].id@ == b[i].id@);
            assert(a[j].id@ == b[j].id@);
        }
    }
}

/// Two account lists with the same ids position by id alike.
pub proof fn lemma_index_of_same_ids(a: Seq<Account>, b: Seq<Account>, id: Seq<char>)
    requires
        a.len() == b.len(),
        forall|j: int| 0 <= j < a.len() ==> (#[trigger] a[j]).id@ == b[j].id@,
    ensures
        index_of(a, id) == index_of(b, id),
    decreases a.len(),
{
    if a.len() > 0 {
        lemma_index_of_same_ids(a.drop_last(), b.drop_last(), id);
    }
}

/// The abstract state of a pool.
pub struct PoolView {
    pub accounts: Seq<Account>,
    pub cursor: nat,
    pub preferred: Option<Seq<char>>,
    pub bindings: Map<Seq<char>, Seq<char>>,
    pub switching: bool,
    pub current: Option<Seq<char>>,
}

/// The preferred account, when it exists and is eligible.
pub open spec fn pinned(v: PoolView, model: Option<Seq<char>>, skipped: Seq<String>) -> Option<int> {
    match v.preferred {
        Some(pid) => match index_of(v.accounts, pid) {
            Some(i) => if eligible(v.accounts[i], model, skipped) { Some(i) } else { None },
            None => None,
        },
        None => None,
    }
}

/// The account bound to the session, when there is one and it is eligible.
pub open spec fn affine(v: PoolView, key: Option<Seq<char>>, model: Option<Seq<char>>, skipped: Seq<String>) -> Option<int> {
    match key {
        Some(k) => if v.bindings.contains_key(k) {
            match index_of(v.accounts, v.bindings[k]) {
                Some(i) => if eligible(v.accounts[i], model, skipped) { Some(i) } else { None },
                None => None,
            }
        } else {
            None
        },
        None => None,
    }
}

/// The first eligible account at `start + k` or later, going round once.
pub open spec fn first_from(accts: Seq<Account>, start: int, k: int, model: Option<Seq<char>>, skipped: Seq<String>) -> Option<int>
    decreases accts.len() - k,
{
    if k < 0 || k >= accts.len() {
        None
    } else if eligible(accts[(start + k) % (accts.len() as int)], model, skipped) {
        Some((start + k) % (accts.len() as int))
    } else {
        first_from(accts, start, k + 1, model, skipped)
    }
}

/// The next eligible account in round-robin order from the cursor.
pub open spec fn rotation(v: PoolView, model: Option<Seq<char>>, skipped: Seq<String>) -> Option<int> {
    if v.accounts.len() == 0 {
        None
    } else {
        first_from(v.accounts, (v.cursor % v.accounts.len()) as int, 0, model, skipped)
    }
}

/// The account a selection returns: the pinned one, else the session's
/// bound one, else the next in rotation.
pub open spec fn selection(v: PoolView, key: Option<Seq<char>>, model: Option<Seq<char>>, skipped: Seq<String>) -> Option<int> {
    match pinned(v, model, skipped) {
        Some(i) => Some(i),
        None => match affine(v, key, model, skipped) {
            Some(i) => Some(i),
            None => rotation(v, model, skipped),
        },
    }
}

/// The pool with account `i` marked as used at `now`.
pub open spec fn touched(v: PoolView, i: int, now: i64) -> PoolView {
    PoolView { accounts: v.accounts.update(i, Account { last_used: now, ..v.accounts[i] }), ..v }
}

/// The pool after a selection.
pub open spec fn after_select(v: PoolView, key: Option<Seq<char>>, model: Option<Seq<char>>, skipped: Seq<String>, now: i64) -> PoolView {
    match pinned(v, model, skipped) {
        Some(i) => touched(v, i, now),
        None => match affine(v, key, model, skipped) {
            Some(i) => touched(v, i, now),
            None => {
                let v1 = match key {
                    Some(k) => PoolView { bindings: v.bindings.remove(k), ..v },
                    None => v,
                };
                match rotation(v, model, skipped) {
                    Some(i) => touched(
                        PoolView {
                            cursor: ((i + 1) % (v.accounts.len() as int)) as nat,
                            bindings: match key {
                                Some(k) => v1.bindings.insert(k, v.accounts[i].id@),
                                None => v1.bindings,
                            },
                            ..v1
                        },
                        i,
                        now,
                    ),
                    None => v1,
                }
            },
        },
    }
}

/// How an upstream failure bears on the account that met it.
#[derive(Debug, Clone, Copy, PartialEq, Eq, Structural)]
pub enum FailureKind {
    /// The credential is revoked or invalid: the account is disabled.
    AuthTerminal,
    /// Rate limited or out of quota: skipped for the rest of this dispatch only.
    QuotaTransient,
    /// The call ran out of time: skipped for the rest of this dispatch only.
    UpstreamTimeout,
}

/// The pool after a failure of account `id`.
pub open spec fn after_failure(v: PoolView, id: Seq<char>, kind: FailureKind, reason: String, now: i64) -> PoolView {
    match (kind, index_of(v.accounts, id)) {
        (FailureKind::AuthTerminal, Some(i)) => PoolView {
            accounts: v.accounts.update(
                i,
                Account { disabled: true, disabled_reason: Some(reason), disabled_at: Some(now), ..v.accounts[i] },
            ),
            bindings: without_account(v.bindings, id),
            ..v
        },
        _ => v,
    }
}

/// `b` has the identity and health of `a`.
pub open spec fn same_health(a: Account, b: Account) -> bool {
    a.id@ == b.id@ && a.disabled == b.disabled && a.proxy_disabled == b.proxy_disabled
        && a.protected_models@ == b.protected_models@
}

proof fn lemma_first_from(accts: Seq<Account>, start: int, k: int, model: Option<Seq<char>>, skipped: Seq<String>)
    ensures
        first_from(accts, start, k, model, skipped) matches Some(j) ==> 0 <= j < accts.len() && eligible(accts[j], model, skipped),
    decreases accts.len() - k,
{
    if 0 <= k < accts.len() && !eligible(accts[(start + k) % (accts.len() as int)], model, skipped) {
        lemma_first_from(accts, start, k + 1, model, skipped);
    }
}

/// A selected account is in the pool and eligible.
pub proof fn lemma_selection_eligible(v: PoolView, key: Option<Seq<char>>, model: Option<Seq<char>>, skipped: Seq<String>)
    ensures
        selection(v, key, model, skipped) matches Some(i) ==> 0 <= i < v.accounts.len() && eligible(v.accounts[i], model, skipped),
{
    if let Some(pid) = v.preferred {
        lemma_index_of(v.accounts, pid);
    }
    if let Some(k) = key {
        lemma_index_of(v.accounts, v.bindings[k]);
    }
    if v.accounts.len() > 0 {
        lemma_first_from(v.accounts, (v.cursor % v.accounts.len()) as int, 0, model, skipped);
    }
}

/// Selection depends on the accounts only through their identity and health.
proof fn lemma_selection_same_health(v: PoolView, w: PoolView, key: Option<Seq<char>>, model: Option<Seq<char>>, skipped: Seq<String>)
    requires
        v.accounts.len() == w.accounts.len(),
        forall|j: int| 0 <= j < v.accounts.len() ==> same_health(#[trigger] v.accounts[j], w.accounts[j]),
        v.preferred == w.preferred,
    ensures
        pinned(v, model, skipped) == pinned(w, model, skipped),
        v.bindings == w.bindings ==> affine(v, key, model, skipped) == affine(w, key, model, skipped),
{
    assert forall|j: int| 0 <= j < v.accounts.len() implies (#[trigger] v.accounts[j]).id@ == w.accounts[j].id@ by {
        assert(same_health(v.accounts[j], w.accounts[j]));
    }
    if let Some(pid) = v.preferred {
        lemma_index_of_same_ids(v.accounts, w.accounts, pid);
        lemma_index_of(v.accounts, pid);
    }
    if let Some(k) = key {
        if v.bindings == w.bindings {
            lemma_index_of_same_ids(v.accounts, w.accounts, v.bindings[k]);
            lemma_index_of(v.accounts, v.bindings[k]);
        }
    }
}

/// Once a session has been served by an account, selecting again for that
/// session returns the same account while it stays eligible.
pub proof fn lemma_affinity(v: PoolView, key: Seq<char>, model: Option<Seq<char>>, skipped: Seq<String>, now: i64)
    requires
        ids_unique(v.accounts),
        selection(v, Some(key), model, skipped) is Some,
    ensures
        selection(after_select(v, Some(key), model, skipped, now), Some(key), model, skipped) == selection(v, Some(key), model, skipped),
{
    let i = selection(v, Some(key), model, skipped)->0;
    lemma_selection_eligible(v, Some(key), model, skipped);
    let w = after_select(v, Some(key), model, skipped, now);
    assert(w.accounts.len() == v.accounts.len());
    assert forall|j: int| 0 <= j < v.accounts.len() implies same_health(#[trigger] v.accounts[j], w.accounts[j]) by {}
    lemma_selection_same_health(v, w, Some(key), model, skipped);
    if pinned(v, model, skipped) is None && affine(v, Some(key), model, skipped) is None {
        assert(w.bindings.contains_key(key) && w.bindings[key] == v.accounts[i].id@);
        assert forall|j: int| 0 <= j < v.accounts.len() implies (#[trigger] w.accounts[j]).id@ == v.accounts[j].id@ by {}
        lemma_index_of_same_ids(w.accounts, v.accounts, v.accounts[i].id@);
        lemma_index_of_unique(v.accounts, i);
        assert(same_health(v.accounts[i], w.accounts[i]));
    }
}

/// Selecting for another session leaves this session's binding as it was,
/// and an eligible bound account keeps being returned for it.
pub proof fn lemma_affinity_across_sessions(
    v: PoolView,
    key: Seq<char>,
    other: Seq<char>,
    model: Option<Seq<char>>,
    skipped: Seq<String>,
    other_model: Option<Seq<char>>,
    now: i64,
)
    requires
        ids_unique(v.accounts),
        key != other,
        affine(v, Some(key), model, skipped) is Some,
    ensures
        after_select(v, Some(other), other_model, skipped, now).bindings.contains_key(key),
        after_select(v, Some(other), other_model, skipped, now).bindings[key] == v.bindings[key],
        affine(after_select(v, Some(other), other_model, skipped, now), Some(key), model, skipped) == affine(v, Some(key), model, skipped),
{
    let w = after_select(v, Some(other), other_model, skipped, now);
    lemma_selection_eligible(v, Some(other), other_model, skipped);
    assert(w.accounts.len() == v.accounts.len());
    assert forall|j: int| 0 <= j < v.accounts.len() implies same_health(#[trigger] v.accounts[j], w.accounts[j]) by {}
    assert forall|j: int| 0 <= j < v.accounts.len() implies (#[trigger] w.accounts[j]).id@ == v.accounts[j].id@ by {
        assert(same_health(v.accounts[j], w.accounts[j]));
    }
    lemma_index_of_same_ids(w.accounts, v.accounts, v.bindings[key]);
    lemma_index_of(v.accounts, v.bindings[key]);
    let i = affine(v, Some(key), model, skipped)->0;
    assert(same_health(v.accounts[i], w.accounts[i]));
}

/// After an authentication failure disables an account, no selection, for
/// any session, returns it.
pub proof fn lemma_disabled_never_selected(
    v: PoolView,
    id: Seq<char>,
    reason: String,
    now: i64,
    key: Option<Seq<char>>,
    model: Option<Seq<char>>,
    skipped: Seq<String>,
)
    requires
        index_of(v.accounts, id) is Some,
    ensures
        selection(after_failure(v, id, FailureKind::AuthTerminal, reason, now), key, model, skipped) != index_of(v.accounts, id),
{
    let w = after_failure(v, id, FailureKind::AuthTerminal, reason, now);
    lemma_index_of(v.accounts, id);
    lemma_selection_eligible(w, key, model, skipped);
}

/// Whether a switch may start.
pub open spec fn switch_admitted(v: PoolView) -> bool {
    !v.switching
}

/// Of two switches started with no switch in progress and none finished in
/// between, the first is admitted and the second refused.
pub proof fn lemma_switch_exclusive(v: PoolView)
    requires
        !v.switching,
    ensures
        switch_admitted(v),
        !switch_admitted(switch_started(v)),
{
}

#[derive(Debug, Clone, Copy, PartialEq, Eq, Structural)]
pub enum PoolError {
    /// No account is eligible.
    PoolExhausted,
    /// Another switch of the current account is in progress.
    SwitchConflict,
    /// An account with that id is already in the pool.
    DuplicateAccount,
    /// No account has that id.
    UnknownAccount,
}

pub open spec fn with_account(v: PoolView, a: Account) -> PoolView {
    PoolView { accounts: v.accounts.push(a), ..v }
}

pub open spec fn with_preferred(v: PoolView, p: Option<Seq<char>>) -> PoolView {
    PoolView { preferred: p, ..v }
}

pub open spec fn without_bindings(v: PoolView) -> PoolView {
    PoolView { bindings: Map::empty(), ..v }
}

/// The account with id `id`, if present, is disabled with reason `reason`.
pub open spec fn disabled_for(v: PoolView, id: Seq<char>, reason: Seq<char>) -> bool {
    match index_of(v.accounts, id) {
        Some(i) => v.accounts[i].disabled && v.accounts[i].disabled_reason is Some && v.accounts[i].disabled_reason->0@ == reason,
        None => true,
    }
}

pub open spec fn switch_started(v: PoolView) -> PoolView {
    PoolView { switching: true, ..v }
}

/// A switch has ended; on success the current account is `id`.
pub open spec fn switch_finished(v: PoolView, id: Option<Seq<char>>) -> PoolView {
    PoolView {
        switching: false,
        current: match id {
            Some(x) => Some(x),
            None => v.current,
        },
        ..v
    }
}

/// The accounts, the rotation cursor, the pinned account, the session
/// bindings and the guard on switching the current account.
pub struct CredentialPool {
    accounts: Vec<Account>,
    cursor: usize,
    preferred: Option<String>,
    router: StickyRouter,
    switching: bool,
    current: Option<String>,
}

pub open spec fn opt_view(o: Option<String>) -> Option<Seq<char>> {
    match o {
        Some(s) => Some(s@),
        None => None,
    }
}

pub open spec fn opt_str_view(o: Option<&str>) -> Option<Seq<char>> {
    match o {
        Some(s) => Some(s@),
        None => None,
    }
}

impl View for CredentialPool {
    type V = PoolView;

    closed spec fn view(&self) -> PoolView {
        PoolView {
            accounts: self.accounts@,
            cursor: self.cursor as nat,
            preferred: opt_view(self.preferred),
            bindings: self.router@,
            switching: self.switching,
            current: opt_view(self.current),
        }
    }
}

impl CredentialPool {
    pub closed spec fn wf(&self) -> bool {
        ids_unique(self.accounts@)
    }

    pub fn new() -> (r: Self)
        ensures
            r.wf(),
            r@.accounts.len() == 0,
            r@.cursor == 0,
            r@.preferred is None,
            r@.bindings == Map::<Seq<char>, Seq<char>>::empty(),
            !r@.switching,
            r@.current is None,
    {
        CredentialPool {
            accounts: Vec::new(),
            cursor: 0,
            preferred: None,
            router: StickyRouter::new(),
            switching: false,
            current: None,
        }
    }

    pub fn len(&self) -> (r: usize)
        ensures
            r == self@.accounts.len(),
    {
        self.accounts.len()
    }

    /// The account at position `i`.
    pub fn account(&self, i: usize) -> (r: &Account)
        requires
            i < self@.accounts.len(),
        ensures
            *r == self@.accounts[i as int],
    {
        &self.accounts[i]
    }

    /// The position of the account with id `id`.
    pub fn find(&self, id: &str) -> (r: Option<usize>)
        ensures
            r matches Some(i) ==> index_of(self@.accounts, id@) == Some(i as int),
            r is None ==> index_of(self@.accounts, id@) is None,
    {
        let mut i = self.accounts.len();
        assert(self.accounts@.subrange(0, i as int) =~= self.accounts@);
        while i > 0
            invariant
                i <= self.accounts.len(),
                index_of(self.accounts@, id@) == index_of(self.accounts@.subrange(0, i as int), id@),
            decreases i,
        {
            let ghost s = self.accounts@.subrange(0, i as int);
            assert(s.drop_last() =~= self.accounts@.subrange(0, i - 1));
            if str_eq(self.accounts[i - 1].id.as_str(), id) {
                return Some(i - 1);
            }
            i = i - 1;
        }
        None
    }

    /// Adds an account at the end of the rotation.
    pub fn add_account(&mut self, account: Account) -> (r: Result<(), PoolError>)
        requires
            old(self).wf(),
        ensures
            final(self).wf(),
            index_of(old(self)@.accounts, account.id@) is Some ==> r == Err::<(), PoolError>(PoolError::DuplicateAccount) && final(self)@ == old(self)@,
            index_of(old(self)@.accounts, account.id@) is None ==> r is Ok && final(self)@ == with_account(old(self)@, account),
    {
        if self.find(account.id.as_str()).is_some() {
            return Err(PoolError::DuplicateAccount);
        }
        proof {
            lemma_index_of(self.accounts@, account.id@);
        }
        self.accounts.push(account);
        Ok(())
    }

    /// Pins selection to `id`, or returns to rotation with `None`.
    pub fn set_preferred_account(&mut self, id: Option<String>)
        ensures
            final(self)@ == with_preferred(old(self)@, opt_view(id)),
            final(self).wf() == old(self).wf(),
    {
        self.preferred = id;
    }

    pub fn get_preferred_account(&self) -> (r: Option<String>)
        ensures
            opt_view(r) == self@.preferred,
    {
        match &self.preferred {
            Some(p) => Some(p.clone()),
            None => None,
        }
    }

    /// Drops every session binding.
    pub fn clear_all_sessions(&mut self)
        ensures
            final(self)@ == without_bindings(old(self)@),
            final(self).wf() == old(self).wf(),
    {
        self.router.clear_all();
    }

    /// The account bound to a session.
    pub fn session_binding(&self, session_key: &str) -> (r: Option<String>)
        ensures
            r is Some <==> self@.bindings.contains_key(session_key@),
            r is Some ==> r->0@ == self@.bindings[session_key@],
    {
        self.router.lookup(session_key)
    }

    fn touch(&mut self, i: usize, now: i64)
        requires
            i < old(self)@.accounts.len(),
        ensures
            final(self)@ == touched(old(self)@, i as int, now),
            final(self).wf() == old(self).wf(),
    {
        let mut a = Account::new(String::new(), String::new(), String::new(), String::new());
        self.accounts.set_and_swap(i, &mut a);
        a.last_used = now;
        self.accounts.set_and_swap(i, &mut a);
        assert(self@.accounts =~= touched(old(self)@, i as int, now).accounts);
        assert forall|x: int| 0 <= x < self.accounts@.len() implies (#[trigger] self.accounts@[x]).id@ == old(self).accounts@[x].id@ by {}
        proof {
            lemma_same_ids_unique(self.accounts@, old(self).accounts@);
        }
    }

    fn pinned_index(&self, model: Option<&str>, skipped: &Vec<String>) -> (r: Option<usize>)
        ensures
            match r {
                Some(i) => pinned(self@, opt_str_view(model), skipped@) == Some(i as int),
                None => pinned(self@, opt_str_view(model), skipped@) is None,
            },
    {
        match &self.preferred {
            Some(pid) => match self.find(pid.as_str()) {
                Some(i) => {
                    proof {
                        lemma_index_of(self.accounts@, pid@);
                    }
                    if is_eligible(&self.accounts[i], model, skipped) {
                        Some(i)
                    } else {
                        None
                    }
                },
                None => None,
            },
            None => None,
        }
    }

    fn rotation_index(&self, model: Option<&str>, skipped: &Vec<String>) -> (r: Option<usize>)
        ensures
            match r {
                Some(i) => rotation(self@, opt_str_view(model), skipped@) == Some(i as int) && i < self@.accounts.len(),
                None => rotation(self@, opt_str_view(model), skipped@) is None,
            },
    {
        let n = self.accounts.len();
        if n == 0 {
            return None;
        }
        let start = self.cursor % n;
        let mut k: usize = n;
        let mut found: Option<usize> = None;
        while k > 0
            invariant
                n == self.accounts.len(),
                n > 0,
                start == self.cursor % n,
                k <= n,
                match found {
                    Some(i) => first_from(self.accounts@, start as int, k as int, opt_str_view(model), skipped@) == Some(i as int) && i < n,
                    None => first_from(self.accounts@, start as int, k as int, opt_str_view(model), skipped@) is None,
                },
            decreases k,
        {
            k = k - 1;
            let idx = ((start as u128 + k as u128) % (n as u128)) as usize;
            if is_eligible(&self.accounts[idx], model, skipped) {
                found = Some(idx);
            }
        }
        found
    }

    /// Picks the account for a request: the pinned account when it is
    /// eligible, else the session's bound account when it is eligible, else
    /// the next eligible account in rotation, which the session is then bound
    /// to. The chosen account is marked as used at `now`.
    pub fn select(&mut self, session_key: Option<&str>, model: Option<&str>, skipped: &Vec<String>, now: i64) -> (r: Result<usize, PoolError>)
        requires
            old(self).wf(),
        ensures
            final(self).wf(),
            final(self)@ == after_select(old(self)@, opt_str_view(session_key), opt_str_view(model), skipped@, now),
            match selection(old(self)@, opt_str_view(session_key), opt_str_view(model), skipped@) {
                Some(i) => r == Ok::<usize, PoolError>(i as usize),
                None => r == Err::<usize, PoolError>(PoolError::PoolExhausted),
            },
    {
        let ghost v = self@;
        if let Some(i) = self.pinned_index(model, skipped) {
            proof {
                lemma_index_of(self.accounts@, v.preferred->0);
            }
            self.touch(i, now);
            return Ok(i);
        }
        if let Some(k) = session_key {
            if let Some(bound) = self.router.lookup(k) {
                if let Some(i) = self.find(bound.as_str()) {
                    proof {
                        lemma_index_of(self.accounts@, bound@);
                    }
                    if is_eligible(&self.accounts[i], model, skipped) {
                        self.touch(i, now);
                        return Ok(i);
                    }
                }
                self.router.clear(k);
            }
        }
        assert(rotation(self@, opt_str_view(model), skipped@) == rotation(v, opt_str_view(model), skipped@));
        match self.rotation_index(model, skipped) {
            Some(i) => {
                self.cursor = ((i as u128 + 1) % (self.accounts.len() as u128)) as usize;
                if let Some(k) = session_key {
                    let id = self.accounts[i].id.clone();
                    self.router.bind(k, id.as_str());
                }
                self.touch(i, now);
                assert(self@.bindings =~= after_select(v, opt_str_view(session_key), opt_str_view(model), skipped@, now).bindings);
                Ok(i)
            },
            None => {
                assert(self@.bindings =~= after_select(v, opt_str_view(session_key), opt_str_view(model), skipped@, now).bindings);
                Err(PoolError::PoolExhausted)
            },
        }
    }

    /// Records a failure of account `account_id`. An authentication failure
    /// disables the account with its reason and time and drops the sessions
    /// bound to it; a transient failure leaves the pool as it is.
    pub fn mark_failed(&mut self, account_id: &str, kind: FailureKind, reason: String, now: i64)
        requires
            old(self).wf(),
        ensures
            final(self).wf(),
            final(self)@ == after_failure(old(self)@, account_id@, kind, reason, now),
            kind == FailureKind::AuthTerminal ==> disabled_for(final(self)@, account_id@, reason@),
    {
        if kind != FailureKind::AuthTerminal {
            return;
        }
        match self.find(account_id) {
            Some(i) => {
                proof {
                    lemma_index_of(self.accounts@, account_id@);
                }
                let ghost r0 = reason;
                let mut a = Account::new(String::new(), String::new(), String::new(), String::new());
                self.accounts.set_and_swap(i, &mut a);
                a.disabled = true;
                a.disabled_reason = Some(reason);
                a.disabled_at = Some(now);
                self.accounts.set_and_swap(i, &mut a);
                self.router.clear_account(account_id);
                assert(self@.accounts =~= after_failure(old(self)@, account_id@, kind, r0, now).accounts);
                assert forall|x: int, y: int| 0 <= x < self.accounts@.len() && 0 <= y < self.accounts@.len() && x != y
                    implies self.accounts@[x].id@ != self.accounts@[y].id@ by {
                    assert(self.accounts@[x].id == old(self).accounts@[x].id);
                    assert(self.accounts@[y].id == old(self).accounts@[y].id);
                }
                proof {
                    lemma_index_of_unique(self.accounts@, i as int);
                }
            },
            None => {},
        }
    }

    /// Starts a switch of the current account; refused while another is in
    /// progress.
    pub fn begin_switch(&mut self) -> (r: Result<(), PoolError>)
        ensures
            !switch_admitted(old(self)@) ==> r == Err::<(), PoolError>(PoolError::SwitchConflict) && final(self)@ == old(self)@,
            switch_admitted(old(self)@) ==> r is Ok && final(self)@ == switch_started(old(self)@),
            final(self).wf() == old(self).wf(),
    {
        if self.switching {
            return Err(PoolError::SwitchConflict);
        }
        self.switching = true;
        Ok(())
    }

    /// Ends a switch: the current account becomes `account_id` when the
    /// switch succeeded, and another switch may start.
    pub fn finish_switch(&mut self, account_id: Option<String>)
        ensures
            final(self)@ == switch_finished(old(self)@, opt_view(account_id)),
            final(self).wf() == old(self).wf(),
    {
        if let Some(id) = account_id {
            self.current = Some(id);
        }
        self.switching = false;
    }

    pub fn current_account_id(&self) -> (r: Option<String>)
        ensures
            opt_view(r) == self@.current,
    {
        match &self.current {
            Some(c) => Some(c.clone()),
            None => None,
        }
    }
}

} // verus!
