//! Merging the sent and received transaction-hash lists.
//!
//! The two lists are concatenated and then deduplicated as a whole:
//! every hash keeps its first occurrence and loses all later ones, so
//! the result carries each distinct hash exactly once, in first-seen
//! order.

use vstd::prelude::*;

verus! {

/// The subsequence of `s` that keeps the first occurrence of each
/// element and drops every later one.
pub open spec fn dedup_first(s: Seq<Seq<char>>) -> Seq<Seq<char>>
    decreases s.len(),
{
    if s.len() == 0 {
        Seq::empty()
    } else {
        let rest = dedup_first(s.drop_last());
        if rest.contains(s.last()) {
            rest
        } else {
            rest.push(s.last())
        }
    }
}

/// Deduplication keeps exactly the elements of `s`, each once.
pub proof fn lemma_dedup_first_is_set(s: Seq<Seq<char>>)
    ensures
        forall|x: Seq<char>| dedup_first(s).contains(x) <==> s.contains(x),
        forall|i: int, j: int|
            0 <= i < j < dedup_first(s).len() ==> dedup_first(s)[i] != dedup_first(s)[j],
    decreases s.len(),
{
    if s.len() == 0 {
    } else {
        lemma_dedup_first_is_set(s.drop_last());
        let rest = dedup_first(s.drop_last());
        let d = dedup_first(s);
        assert forall|x: Seq<char>| d.contains(x) implies s.contains(x) by {
            if rest.contains(x) {
                let i = s.drop_last().lemma_contains_to_index(x);
                assert(s[i] == x);
            } else {
                assert(x == s.last());
                assert(s[s.len() - 1] == x);
            }
        }
        assert forall|x: Seq<char>| s.contains(x) implies d.contains(x) by {
            let i = s.lemma_contains_to_index(x);
            if i < s.len() - 1 {
                assert(s.drop_last()[i] == x);
                assert(s.drop_last().contains(x));
                assert(rest.contains(x));
                if !rest.contains(s.last()) {
                    let j = rest.lemma_contains_to_index(x);
                    assert(d[j] == x);
                }
            } else {
                assert(x == s.last());
                if rest.contains(x) {
                } else {
                    assert(d[d.len() - 1] == x);
                }
            }
        }
        if !rest.contains(s.last()) {
            assert forall|i: int, j: int| 0 <= i < j < d.len() implies d[i] != d[j] by {
                if j < d.len() - 1 {
                    assert(d[i] == rest[i] && d[j] == rest[j]);
                } else {
                    assert(d[i] == rest[i] && d[j] == s.last());
                    assert(rest.contains(rest[i]));
                }
            }
        }
    }
}

/// `out` holds `x`, decided by comparing the strings themselves.
fn vec_contains(out: &Vec<String>, x: &String) -> (r: bool)
    ensures
        r == out.deep_view().contains(x@),
{
    let n: usize = out.len();
    let mut i: usize = 0;
    while i < n
        invariant
            n == out@.len(),
            i <= n,
            forall|j: int| 0 <= j < i ==> out.deep_view()[j] != x@,
        decreases n - i,
    {
        if out[i].eq(x) {
            proof {
                assert(out.deep_view()[i as int] == x@);
            }
            return true;
        }
        i = i + 1;
    }
    false
}

/// Append each element of `src`, skipping those already present in
/// `out`; `out` stays deduplicated in first-seen order.
fn push_dedup(out: &mut Vec<String>, src: &Vec<String>, Ghost(prefix): Ghost<Seq<Seq<char>>>)
    requires
        old(out).deep_view() == dedup_first(prefix),
    ensures
        final(out).deep_view() == dedup_first(prefix + src.deep_view()),
{
    let n: usize = src.len();
    let mut i: usize = 0;
    proof {
        assert(prefix + src.deep_view().take(0) =~= prefix);
    }
    while i < n
        invariant
            n == src@.len(),
            i <= n,
            out.deep_view() == dedup_first(prefix + src.deep_view().take(i as int)),
        decreases n - i,
    {
        let x: &String = &src[i];
        let ghost p = prefix + src.deep_view().take(i as int);
        proof {
            assert(src.deep_view().take(i as int).push(src.deep_view()[i as int])
                =~= src.deep_view().take(i as int + 1));
            assert((prefix + src.deep_view().take(i as int + 1)).drop_last() =~= p);
            assert((prefix + src.deep_view().take(i as int + 1)).last() == x@);
        }
        if !vec_contains(out, x) {
            out.push(x.clone());
            proof {
                assert(out.deep_view() =~= dedup_first(p).push(x@));
            }
        }
        i = i + 1;
    }
    proof {
        assert(src.deep_view().take(n as int) =~= src.deep_view());
    }
}

/// Merge the sent and received hash lists into one list that holds
/// each distinct hash exactly once, ordered by first occurrence in
/// the concatenation sent-then-received.
pub fn merge_transactions(sent: &Vec<String>, received: &Vec<String>) -> (r: Vec<String>)
    ensures
        r.deep_view() == dedup_first(sent.deep_view() + received.deep_view()),
        forall|x: Seq<char>|
            r.deep_view().contains(x) <==> (sent.deep_view() + received.deep_view()).contains(x),
        forall|i: int, j: int|
            0 <= i < j < r.deep_view().len() ==> r.deep_view()[i] != r.deep_view()[j],
{
    let mut out: Vec<String> = Vec::new();
    proof {
        assert(out.deep_view() =~= dedup_first(Seq::<Seq<char>>::empty()));
    }
    push_dedup(&mut out, sent, Ghost(Seq::empty()));
    proof {
        assert(Seq::<Seq<char>>::empty() + sent.deep_view() =~= sent.deep_view());
    }
    push_dedup(&mut out, received, Ghost(sent.deep_view()));
    proof {
        lemma_dedup_first_is_set(sent.deep_view() + received.deep_view());
    }
    out
}

} // verus!
