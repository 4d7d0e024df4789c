//! Small string-keyed tables kept as vectors of pairs, oldest entry first.

use vstd::prelude::*;

verus! {

/// A string-keyed table: the later of two entries with one key wins.
pub open spec fn table_view(s: Seq<(String, String)>) -> Map<Seq<char>, Seq<char>>
    decreases s.len(),
{
    if s.len() == 0 {
        Map::empty()
    } else {
        table_view(s.drop_last()).insert(s.last().0@, s.last().1@)
    }
}

/// The entries of `s` whose key is not `k`, in their order.
pub open spec fn without_key(s: Seq<(String, String)>, k: Seq<char>) -> Seq<(String, String)>
    decreases s.len(),
{
    if s.len() == 0 {
        s
    } else if s.last().0@ == k {
        without_key(s.drop_last(), k)
    } else {
        without_key(s.drop_last(), k).push(s.last())
    }
}

pub proof fn lemma_view_contains_entry(s: Seq<(String, String)>, i: int)
    requires
        0 <= i < s.len(),
    ensures
        table_view(s).contains_key(s[i].0@),
    decreases s.len(),
{
    if i < s.len() - 1 {
        lemma_view_contains_entry(s.drop_last(), i);
    }
}

pub proof fn lemma_view_suffix_free(s: Seq<(String, String)>, i: int, k: Seq<char>)
    requires
        0 <= i <= s.len(),
        forall|j: int| i <= j < s.len() ==> s[j].0@ != k,
    ensures
        table_view(s).contains_key(k) == table_view(s.subrange(0, i)).contains_key(k),
        table_view(s).contains_key(k) ==> table_view(s)[k] == table_view(s.subrange(0, i))[k],
    decreases s.len(),
{
    if i < s.len() {
        lemma_view_suffix_free(s.drop_last(), i, k);
        assert(s.drop_last().subrange(0, i) =~= s.subrange(0, i));
    } else {
        assert(s.subrange(0, i) =~= s);
    }
}

pub proof fn lemma_without_key(s: Seq<(String, String)>, k: Seq<char>)
    ensures
        table_view(without_key(s, k)) =~= table_view(s).remove(k),
        without_key(s, k).len() <= s.len(),
        table_view(s).contains_key(k) ==> without_key(s, k).len() < s.len(),
        forall|j: int| 0 <= j < without_key(s, k).len() ==> without_key(s, k)[j].0@ != k,
    decreases s.len(),
{
    if s.len() > 0 {
        lemma_without_key(s.drop_last(), k);
        let w = without_key(s.drop_last(), k);
        if s.last().0@ != k {
            assert(w.push(s.last()).drop_last() =~= w);
            assert(table_view(w.push(s.last())) =~= table_view(s).remove(k));
        } else {
            assert(table_view(w) =~= table_view(s).remove(k));
        }
    }
}

/// The value stored under `k`, searching from the newest entry.
pub fn table_get<'a>(t: &'a Vec<(String, String)>, k: &String) -> (r: Option<&'a String>)
    ensures
        r is Some <==> table_view(t@).contains_key(k@),
        r is Some ==> r->0@ == table_view(t@)[k@],
{
    let mut i = t.len();
    while i > 0
        invariant
            i <= t.len(),
            forall|j: int| i <= j < t.len() ==> t@[j].0@ != k@,
        decreases i,
    {
        if t[i - 1].0 == *k {
            proof {
                let s = t@.subrange(0, i as int);
                lemma_view_suffix_free(t@, i as int, k@);
                assert(s.drop_last() =~= t@.subrange(0, i - 1));
            }
            return Some(&t[i - 1].1);
        }
        i = i - 1;
    }
    proof {
        lemma_view_suffix_free(t@, 0, k@);
    }
    None
}

/// Drops every entry stored under `k`, keeping the order of the others.
pub fn table_remove(t: &mut Vec<(String, String)>, k: &String)
    ensures
        final(t)@ == without_key(old(t)@, k@),
        table_view(final(t)@) == table_view(old(t)@).remove(k@),
        final(t)@.len() <= old(t)@.len(),
        table_view(old(t)@).contains_key(k@) ==> final(t)@.len() < old(t)@.len(),
{
    let mut kept: Vec<(String, String)> = Vec::new();
    let mut i: usize = 0;
    while i < t.len()
        invariant
            i <= t.len(),
            kept@ == without_key(t@.subrange(0, i as int), k@),
        decreases t.len() - i,
    {
        let ghost before = t@.subrange(0, i as int);
        assert(t@.subrange(0, i + 1).drop_last() =~= before);
        if t[i].0 != *k {
            let key = t[i].0.clone();
            let val = t[i].1.clone();
            kept.push((key, val));
        }
        i = i + 1;
    }
    assert(t@.subrange(0, t@.len() as int) =~= t@);
    proof {
        lemma_without_key(t@, k@);
    }
    *t = kept;
}

/// Stores `v` under `k` as the newest entry.
pub fn table_insert(t: &mut Vec<(String, String)>, k: String, v: String)
    ensures
        table_view(final(t)@) == table_view(old(t)@).insert(k@, v@),
        final(t)@.len() <= old(t)@.len() + 1,
        table_view(old(t)@).contains_key(k@) ==> final(t)@.len() <= old(t)@.len(),
        final(t)@.last() == (k, v),
{
    table_remove(t, &k);
    let ghost mid = t@;
    t.push((k, v));
    assert(t@.drop_last() =~= mid);
    assert(table_view(t@) =~= table_view(old(t)@).insert(k@, v@));
}

/// Drops the oldest entry, if any.
pub fn table_evict_oldest(t: &mut Vec<(String, String)>)
    ensures
        old(t)@.len() == 0 ==> final(t)@ == old(t)@,
        old(t)@.len() > 0 ==> final(t)@.len() < old(t)@.len(),
        old(t)@.len() > 0 ==> table_view(final(t)@) == table_view(old(t)@).remove(old(t)@[0].0@),
{
    if t.len() > 0 {
        let k = t[0].0.clone();
        proof {
            lemma_view_contains_entry(t@, 0);
        }
        table_remove(t, &k);
    }
}

} // verus!
