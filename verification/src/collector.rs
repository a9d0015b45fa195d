//! Accumulating the enriched records and putting them in output order.
//!
//! The collector admits a record only for a transaction whose parties
//! differ, so the accumulated sequence never holds a self-transfer.
//! Output order is decided by a stable sort on the block number: the
//! least remaining block number is taken first, and among equal block
//! numbers the earlier-accumulated record leaves first.

use vstd::prelude::*;
use crate::is_self_transfer;
use crate::records::{DecodedView, RRDecodedTransaction, RRTransaction};

verus! {

/// No element of `s` is a self-transfer.
pub open spec fn no_self_transfers(s: Seq<DecodedView>) -> bool {
    forall|i: int| 0 <= i < s.len() ==> !is_self_transfer(#[trigger] s[i].from, s[i].to)
}

/// `s` is ordered by non-decreasing block number.
pub open spec fn sorted_by_block(s: Seq<DecodedView>) -> bool {
    forall|i: int, j: int|
        0 <= i <= j < s.len() ==> #[trigger] s[i].block_number <= #[trigger] s[j].block_number
}

/// The predicate selecting the records of block `k`.
pub open spec fn has_block(k: u64) -> spec_fn(DecodedView) -> bool {
    |t: DecodedView| t.block_number == k
}

/// The records of `s` whose block number is `k`, in order.
pub open spec fn by_block(s: Seq<DecodedView>, k: u64) -> Seq<DecodedView> {
    s.filter(has_block(k))
}

/// Filtering with a predicate that no element meets yields nothing.
proof fn lemma_filter_all_false(s: Seq<DecodedView>, pred: spec_fn(DecodedView) -> bool)
    requires
        forall|i: int| 0 <= i < s.len() ==> !pred(#[trigger] s[i]),
    ensures
        s.filter(pred) == Seq::<DecodedView>::empty(),
    decreases s.len(),
{
    reveal(Seq::filter);
    if s.len() == 0 {
        assert(s.filter(pred) =~= Seq::<DecodedView>::empty());
    } else {
        assert(forall|i: int| 0 <= i < s.drop_last().len() ==> !pred(#[trigger] s.drop_last()[i]));
        lemma_filter_all_false(s.drop_last(), pred);
        assert(!pred(s.last()));
    }
}

/// The record built from a summary and the two decoded payloads.
pub open spec fn enriched_view(
    tx: crate::records::SummaryView,
    input: Option<Seq<char>>,
    output: Option<Seq<char>>,
) -> DecodedView {
    DecodedView {
        from: tx.from,
        to: tx.to,
        hash: tx.hash,
        block_number: tx.block_number,
        input: input,
        output: output,
    }
}

/// The accumulating output sequence of the run.
pub struct TransactionCollector {
    pub records: Vec<RRDecodedTransaction>,
}

impl TransactionCollector {
    /// Every accumulated record keeps distinct parties.
    pub open spec fn wf(self) -> bool {
        no_self_transfers(self.records.deep_view())
    }

    /// An empty collector.
    pub fn new() -> (r: TransactionCollector)
        ensures
            r.wf(),
            r.records.deep_view() == Seq::<DecodedView>::empty(),
    {
        let r = TransactionCollector { records: Vec::new() };
        proof {
            assert(r.records.deep_view() =~= Seq::<DecodedView>::empty());
        }
        r
    }

    /// Append the enriched record of one non-self transaction.
    /// The decoded payloads are fetched only for such transactions,
    /// so admission requires distinct parties.
    pub fn add_enriched(
        &mut self,
        tx: RRTransaction,
        input: Option<String>,
        output: Option<String>,
    )
        requires
            old(self).wf(),
            !is_self_transfer(tx.from@, tx.to@),
        ensures
            final(self).wf(),
            final(self).records.deep_view() == old(self).records.deep_view().push(
                enriched_view(tx@, input.deep_view(), output.deep_view()),
            ),
    {
        let ghost before = self.records.deep_view();
        let ghost v = enriched_view(tx@, input.deep_view(), output.deep_view());
        let record = RRDecodedTransaction {
            from: tx.from,
            to: tx.to,
            hash: tx.hash,
            block_number: tx.block_number,
            input: input,
            output: output,
        };
        self.records.push(record);
        proof {
            assert(self.records.deep_view() =~= before.push(v));
        }
    }

    /// Sort the accumulated records by block number, stably, and hand
    /// them over: the result is ordered non-decreasing by block number
    /// and holds exactly the accumulated records, none of which is a
    /// self-transfer.
    pub fn sorted_records(self) -> (r: Vec<RRDecodedTransaction>)
        requires
            self.wf(),
        ensures
            sorted_by_block(r.deep_view()),
            r.deep_view().to_multiset() == self.records.deep_view().to_multiset(),
            no_self_transfers(r.deep_view()),
            forall|k: u64|
                #[trigger] by_block(r.deep_view(), k) == by_block(self.records.deep_view(), k),
    {
        sort_by_block(self.records)
    }
}

/// Index of the first record among `v` with the least block number.
fn first_min_index(v: &Vec<RRDecodedTransaction>) -> (m: usize)
    requires
        v@.len() > 0,
    ensures
        m < v@.len(),
        forall|j: int|
            0 <= j < v@.len() ==> v.deep_view()[m as int].block_number <= #[trigger] v.deep_view()[j].block_number,
        forall|j: int|
            0 <= j < m ==> #[trigger] v.deep_view()[j].block_number > v.deep_view()[m as int].block_number,
{
    let n: usize = v.len();
    let mut m: usize = 0;
    let mut k: usize = 1;
    while k < n
        invariant
            n == v@.len(),
            m < k <= n,
            forall|j: int|
                0 <= j < k ==> v.deep_view()[m as int].block_number <= #[trigger] v.deep_view()[j].block_number,
            forall|j: int|
                0 <= j < m ==> #[trigger] v.deep_view()[j].block_number > v.deep_view()[m as int].block_number,
        decreases n - k,
    {
        if v[k].block_number < v[m].block_number {
            m = k;
        }
        k = k + 1;
    }
    m
}

/// Stable sort by block number: repeatedly move the first record with
/// the least remaining block number to the output. Records that share
/// a block number keep their relative order.
pub fn sort_by_block(v: Vec<RRDecodedTransaction>) -> (r: Vec<RRDecodedTransaction>)
    ensures
        sorted_by_block(r.deep_view()),
        r.deep_view().to_multiset() == v.deep_view().to_multiset(),
        no_self_transfers(v.deep_view()) ==> no_self_transfers(r.deep_view()),
        forall|k: u64| #[trigger] by_block(r.deep_view(), k) == by_block(v.deep_view(), k),
{
    broadcast use vstd::seq_lib::group_to_multiset_ensures;
    broadcast use vstd::multiset::group_multiset_axioms;

    let ghost orig = v.deep_view();
    let mut src = v;
    let mut out: Vec<RRDecodedTransaction> = Vec::new();
    proof {
        assert(out.deep_view() =~= Seq::<DecodedView>::empty());
        assert(out.deep_view().to_multiset().add(src.deep_view().to_multiset())
            =~= orig.to_multiset());
        assert forall|k: u64|
            #[trigger] by_block(out.deep_view(), k) + by_block(src.deep_view(), k) == by_block(
                orig,
                k,
            ) by {
            reveal(Seq::filter);
            assert(by_block(out.deep_view(), k) =~= Seq::<DecodedView>::empty());
            assert(Seq::<DecodedView>::empty() + by_block(orig, k) =~= by_block(orig, k));
        }
    }
    while src.len() > 0
        invariant
            forall|k: u64|
                #[trigger] by_block(out.deep_view(), k) + by_block(src.deep_view(), k)
                    == by_block(orig, k),
            sorted_by_block(out.deep_view()),
            out.deep_view().to_multiset().add(src.deep_view().to_multiset())
                == orig.to_multiset(),
            forall|i: int, j: int|
                0 <= i < out.deep_view().len() && 0 <= j < src.deep_view().len()
                    ==> #[trigger] out.deep_view()[i].block_number
                    <= #[trigger] src.deep_view()[j].block_number,
            forall|i: int|
                0 <= i < out.deep_view().len() ==> orig.to_multiset().contains(
                    #[trigger] out.deep_view()[i],
                ),
            forall|j: int|
                0 <= j < src.deep_view().len() ==> orig.to_multiset().contains(
                    #[trigger] src.deep_view()[j],
                ),
        decreases src.len(),
    {
        let m: usize = first_min_index(&src);
        let ghost src_before = src.deep_view();
        let ghost out_before = out.deep_view();
        let x: RRDecodedTransaction = src.remove(m);
        out.push(x);
        proof {
            assert(src.deep_view() =~= src_before.remove(m as int));
            assert(out.deep_view() =~= out_before.push(src_before[m as int]));
            vstd::seq_lib::to_multiset_remove(src_before, m as int);
            vstd::seq_lib::to_multiset_build(out_before, src_before[m as int]);
            assert(out.deep_view().to_multiset().add(src.deep_view().to_multiset())
                =~= orig.to_multiset()) by {
                assert(out.deep_view().to_multiset()
                    =~= out_before.to_multiset().insert(src_before[m as int]));
                assert(src_before.contains(src_before[m as int]));
                vstd::seq_lib::to_multiset_contains(src_before, src_before[m as int]);
            }
            assert forall|j: int| 0 <= j < src.deep_view().len()
                implies out.deep_view().last().block_number
                    <= #[trigger] src.deep_view()[j].block_number by {
                if j < m {
                    assert(src.deep_view()[j] == src_before[j]);
                } else {
                    assert(src.deep_view()[j] == src_before[j + 1]);
                }
            }
            let xv = src_before[m as int];
            let aa = src_before.subrange(0, m as int);
            let bb = src_before.subrange(m as int + 1, src_before.len() as int);
            assert(src.deep_view() =~= aa + bb);
            assert(src_before =~= (aa + seq![xv]) + bb);
            assert forall|k: u64|
                #[trigger] by_block(out.deep_view(), k) + by_block(src.deep_view(), k)
                    == by_block(orig, k) by {
                reveal(Seq::filter);
                Seq::filter_distributes_over_add(aa, bb, has_block(k));
                Seq::filter_distributes_over_add(aa + seq![xv], bb, has_block(k));
                Seq::filter_distributes_over_add(aa, seq![xv], has_block(k));
                assert(Seq::<DecodedView>::empty().push(xv) =~= seq![xv]);
                Seq::<DecodedView>::empty().lemma_filter_push(xv, has_block(k));
                assert(Seq::<DecodedView>::empty().filter(has_block(k))
                    =~= Seq::<DecodedView>::empty());
                out_before.lemma_filter_push(xv, has_block(k));
                assert(out.deep_view().filter(has_block(k)) == if has_block(k)(xv) {
                    out_before.filter(has_block(k)).push(xv)
                } else {
                    out_before.filter(has_block(k))
                });
                if xv.block_number == k {
                    assert forall|i: int| 0 <= i < aa.len() implies !has_block(k)(
                        #[trigger] aa[i],
                    ) by {
                        assert(aa[i] == src_before[i]);
                        assert(src_before[i].block_number > xv.block_number);
                    }
                    lemma_filter_all_false(aa, has_block(k));
                    assert(seq![xv].filter(has_block(k)) =~= seq![xv]);
                    assert(by_block(src_before, k) =~= seq![xv] + bb.filter(has_block(k)));
                    assert(by_block(src.deep_view(), k) =~= bb.filter(has_block(k)));
                    assert(by_block(out.deep_view(), k)
                        =~= by_block(out_before, k).push(xv));
                    assert(by_block(out.deep_view(), k) + by_block(src.deep_view(), k)
                        =~= by_block(out_before, k) + by_block(src_before, k));
                } else {
                    assert(seq![xv].filter(has_block(k)) =~= Seq::<DecodedView>::empty());
                    assert(by_block(src_before, k) =~= aa.filter(has_block(k)) + bb.filter(
                        has_block(k),
                    ));
                    assert(by_block(src.deep_view(), k) =~= by_block(src_before, k));
                    assert(by_block(out.deep_view(), k) =~= by_block(out_before, k));
                }
            }
        }
    }
    proof {
        assert(src.deep_view() =~= Seq::<DecodedView>::empty());
        assert(out.deep_view().to_multiset() =~= orig.to_multiset());
        assert forall|k: u64| #[trigger] by_block(out.deep_view(), k) == by_block(orig, k) by {
            reveal(Seq::filter);
            assert(by_block(src.deep_view(), k) =~= Seq::<DecodedView>::empty());
            assert(by_block(out.deep_view(), k) + Seq::<DecodedView>::empty() =~= by_block(
                out.deep_view(),
                k,
            ));
        }
        if no_self_transfers(orig) {
            assert forall|i: int| 0 <= i < out.deep_view().len()
                implies !is_self_transfer(
                    #[trigger] out.deep_view()[i].from,
                    out.deep_view()[i].to,
                ) by {
                let x = out.deep_view()[i];
                assert(orig.to_multiset().contains(x));
                assert(orig.contains(x));
                let k = orig.lemma_contains_to_index(x);
            }
        }
    }
    out
}

} // verus!
