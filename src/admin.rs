//! The account summary that the administrative surface reports.

use vstd::prelude::*;
use crate::pool::{Account, ModelQuota, QuotaSnapshot, opt_view};
use crate::json::{Json, JsonModel, items_model, lemma_items_model_index, lemma_items_model_len};
use crate::text::chars_of;

verus! {

#[derive(Debug)]
pub struct QuotaResponse {
    pub models: Vec<ModelQuota>,
    pub last_updated: i64,
    pub subscription_tier: Option<String>,
    pub is_forbidden: bool,
}

#[derive(Debug)]
pub struct AccountResponse {
    pub id: String,
    pub email: String,
    pub name: Option<String>,
    pub is_current: bool,
    pub disabled: bool,
    pub disabled_reason: Option<String>,
    pub disabled_at: Option<i64>,
    pub proxy_disabled: bool,
    pub proxy_disabled_reason: Option<String>,
    pub proxy_disabled_at: Option<i64>,
    pub protected_models: Vec<String>,
    pub quota: Option<QuotaResponse>,
    pub device_bound: bool,
    pub last_used: i64,
}

pub open spec fn same_texts(a: Seq<String>, b: Seq<String>) -> bool {
    a.len() == b.len() && forall|i: int| 0 <= i < a.len() ==> (#[trigger] a[i])@ == b[i]@
}

pub open spec fn same_model_quota(a: ModelQuota, b: ModelQuota) -> bool {
    a.name@ == b.name@ && a.percentage == b.percentage && a.reset_time@ == b.reset_time@
}

pub open spec fn same_quota(q: QuotaSnapshot, r: QuotaResponse) -> bool {
    &&& q.models@.len() == r.models@.len()
    &&& forall|i: int| 0 <= i < q.models@.len() ==> same_model_quota(#[trigger] q.models@[i], r.models@[i])
    &&& q.last_updated == r.last_updated
    &&& opt_view(q.subscription_tier) == opt_view(r.subscription_tier)
    &&& q.is_forbidden == r.is_forbidden
}

fn copy_opt(o: &Option<String>) -> (r: Option<String>)
    ensures
        opt_view(r) == opt_view(*o),
{
    match o {
        Some(s) => Some(s.clone()),
        None => None,
    }
}

fn copy_texts(v: &Vec<String>) -> (r: Vec<String>)
    ensures
        same_texts(r@, v@),
{
    let mut out: Vec<String> = Vec::new();
    let mut i: usize = 0;
    while i < v.len()
        invariant
            i <= v.len(),
            out@.len() == i,
            forall|j: int| 0 <= j < i ==> (#[trigger] out@[j])@ == v@[j]@,
        decreases v.len() - i,
    {
        out.push(v[i].clone());
        i = i + 1;
    }
    out
}

fn copy_quota(q: &QuotaSnapshot) -> (r: QuotaResponse)
    ensures
        same_quota(*q, r),
{
    let mut models: Vec<ModelQuota> = Vec::new();
    let mut i: usize = 0;
    while i < q.models.len()
        invariant
            i <= q.models.len(),
            models@.len() == i,
            forall|j: int| 0 <= j < i ==> same_model_quota(q.models@[j], #[trigger] models@[j]),
        decreases q.models.len() - i,
    {
        let m = &q.models[i];
        models.push(ModelQuota { name: m.name.clone(), percentage: m.percentage, reset_time: m.reset_time.clone() });
        i = i + 1;
    }
    QuotaResponse {
        models,
        last_updated: q.last_updated,
        subscription_tier: copy_opt(&q.subscription_tier),
        is_forbidden: q.is_forbidden,
    }
}

/// The summary of `account`; it is current when its id is `current_id`.
pub fn to_account_response(account: &Account, current_id: &Option<String>) -> (r: AccountResponse)
    ensures
        r.id@ == account.id@,
        r.email@ == account.email@,
        opt_view(r.name) == opt_view(account.name),
        r.is_current == (opt_view(*current_id) == Some(account.id@)),
        r.disabled == account.disabled,
        opt_view(r.disabled_reason) == opt_view(account.disabled_reason),
        r.disabled_at == account.disabled_at,
        r.proxy_disabled == account.proxy_disabled,
        opt_view(r.proxy_disabled_reason) == opt_view(account.proxy_disabled_reason),
        r.proxy_disabled_at == account.proxy_disabled_at,
        same_texts(r.protected_models@, account.protected_models@),
        r.quota is Some <==> account.quota is Some,
        account.quota is Some ==> same_quota(account.quota->0, r.quota->0),
        r.device_bound == account.device_bound,
        r.last_used == account.last_used,
{
    let is_current = match current_id {
        Some(c) => *c == account.id,
        None => false,
    };
    let quota = match &account.quota {
        Some(q) => Some(copy_quota(q)),
        None => None,
    };
    AccountResponse {
        id: account.id.clone(),
        email: account.email.clone(),
        name: copy_opt(&account.name),
        is_current,
        disabled: account.disabled,
        disabled_reason: copy_opt(&account.disabled_reason),
        disabled_at: account.disabled_at,
        proxy_disabled: account.proxy_disabled,
        proxy_disabled_reason: copy_opt(&account.proxy_disabled_reason),
        proxy_disabled_at: account.proxy_disabled_at,
        protected_models: copy_texts(&account.protected_models),
        quota,
        device_bound: account.device_bound,
        last_used: account.last_used,
    }
}

/// The decimal digits of `n`.
pub open spec fn decimal_text(n: nat) -> Seq<char>
    decreases n,
{
    let d = seq!['0', '1', '2', '3', '4', '5', '6', '7', '8', '9'][(n % 10) as int];
    if n < 10 {
        seq![d]
    } else {
        decimal_text(n / 10).push(d)
    }
}

/// Relies on the Display of u16 (through ToString): its decimal digits,
/// without sign or leading zeros.
#[verifier::external_body]
fn port_text(port: u16) -> (r: String)
    ensures
        r@ == decimal_text(port as nat),
{
    port.to_string()
}

/// `s` up to `b`, where every character from `b` on is `/` and the one
/// before `b`, if any, is not.
pub open spec fn slashes_trimmed(s: Seq<char>, b: int) -> bool {
    &&& 0 <= b <= s.len()
    &&& forall|j: int| b <= j < s.len() ==> s[j] == '/'
    &&& b > 0 ==> s[b - 1] != '/'
}

fn trim_trailing_slashes(s: &str) -> (r: String)
    ensures
        exists|b: int| slashes_trimmed(s@, b) && r@ == s@.subrange(0, b),
{
    let c = chars_of(s);
    let mut b = c.len();
    while b > 0 && c[b - 1] == '/'
        invariant
            b <= c@.len(),
            c@ == s@,
            forall|j: int| b <= j < c@.len() ==> c@[j] == '/',
        decreases b,
    {
        b = b - 1;
    }
    assert(slashes_trimmed(s@, b as int));
    s.substring_char(0, b).to_string()
}

/// The OAuth callback address: under the public URL when one is configured,
/// else under the host the request came to, else on localhost at `port`.
pub fn get_oauth_redirect_uri(public_url: Option<&str>, port: u16, host: Option<&str>, proto: Option<&str>) -> (r: String)
    ensures
        public_url is Some ==> exists|b: int| slashes_trimmed(public_url->0@, b)
            && r@ == public_url->0@.subrange(0, b) + "/auth/callback"@,
        public_url is None && host is Some ==> r@ == (if proto is Some { proto->0@ } else { "http"@ }) + "://"@ + host->0@ + "/auth/callback"@,
        public_url is None && host is None ==> r@ == "http://localhost:"@ + decimal_text(port as nat) + "/auth/callback"@,
{
    match public_url {
        Some(base) => trim_trailing_slashes(base).concat("/auth/callback"),
        None => match host {
            Some(h) => {
                let scheme = match proto {
                    Some(p) => p,
                    None => "http",
                };
                scheme.to_string().concat("://").concat(h).concat("/auth/callback")
            },
            None => "http://localhost:".to_string().concat(port_text(port).as_str()).concat("/auth/callback"),
        },
    }
}

/// The `id` texts of the entries of a model list reply's `data` array.
pub open spec fn model_ids(items: Seq<JsonModel>) -> Seq<Seq<char>>
    decreases items.len(),
{
    if items.len() == 0 {
        Seq::empty()
    } else {
        let rest = model_ids(items.drop_last());
        match items.last().get("id"@) {
            Some(JsonModel::Str(id)) => rest.push(id),
            _ => rest,
        }
    }
}

pub open spec fn listed_model_ids(reply: JsonModel) -> Seq<Seq<char>> {
    match reply.get("data"@) {
        Some(JsonModel::Array(items)) => model_ids(items),
        _ => Seq::empty(),
    }
}

/// The model ids that a provider's model list reply names.
pub fn extract_model_ids(reply: &Json) -> (r: Vec<String>)
    ensures
        r@.len() == listed_model_ids(reply@).len(),
        forall|i: int| 0 <= i < r@.len() ==> (#[trigger] r@[i])@ == listed_model_ids(reply@)[i],
{
    let data = reply.get("data");
    match data {
        Some(Json::Array(items)) => {
            let mut out: Vec<String> = Vec::new();
            let mut i: usize = 0;
            while i < items.len()
                invariant
                    i <= items.len(),
                    out@.len() == model_ids(items_model(items@).subrange(0, i as int)).len(),
                    forall|j: int| 0 <= j < out@.len() ==> (#[trigger] out@[j])@ == model_ids(items_model(items@).subrange(0, i as int))[j],
                decreases items.len() - i,
            {
                proof {
                    lemma_items_model_index(items@, i as int);
                    let m = items_model(items@);
                    assert(m.subrange(0, i + 1).drop_last() =~= m.subrange(0, i as int));
                    assert(m.subrange(0, i + 1).last() == m[i as int]);
                }
                match items[i].get("id") {
                    Some(Json::Str(id)) => out.push(id.clone()),
                    _ => {},
                }
                i = i + 1;
            }
            proof {
                lemma_items_model_len(items@);
                assert(items_model(items@).subrange(0, items@.len() as int) =~= items_model(items@));
            }
            out
        },
        _ => Vec::new(),
    }
}

} // verus!
