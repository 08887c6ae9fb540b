//! What timed runs report, run by run and row by row.

use crate::ranking::ScoredVector;
use crate::timing::{
    average_micros, file_rows, keeps, last_run, law_rows_belong_to_their_query, pairs, replies_over, reply_rows,
    result_rows, run_queries, to_pairs, total_time, ResultRow, RunReport, TimedReply,
};
use vstd::prelude::*;

verus! {

/// A reply becomes pairs, one for each result in its place: its distance and its
/// identifier.
pub proof fn law_results_become_pairs<T: Copy>(found: &[ScoredVector<T>], results: Vec<(T, usize)>)
    requires
        call_ensures(to_pairs::<T>, (found,), results),
    ensures
        results@.len() == found@.len(),
        forall|j: int| 0 <= j < found@.len() ==> (#[trigger] results@[j]).0 == found@[j].distance,
        forall|j: int|
            0 <= j < found@.len() && found@[j].vector <= usize::MAX ==> (#[trigger] results@[j]).1
                == found@[j].vector,
{
}

/// Whether `kept` shows what a search found.
pub open spec fn shows_found<T>(kept: Seq<(T, usize)>, found: Seq<ScoredVector<T>>) -> bool {
    &&& kept.len() == found.len()
    &&& forall|j: int| 0 <= j < found.len() ==> (#[trigger] kept[j]).0 == found[j].distance
    &&& forall|j: int|
        0 <= j < found.len() && found[j].vector <= usize::MAX ==> (#[trigger] kept[j]).1 == found[j].vector
}

/// Whether `sums` are the times of the searches, added up one after the other from 0.
pub open spec fn add_up<T>(replies: Seq<TimedReply<T>>, sums: Seq<nat>) -> bool {
    &&& sums.len() == replies.len() + 1
    &&& sums[0] == 0
    &&& forall|i: int| 0 <= i < replies.len() ==> sums[i + 1] == sums[i] + (#[trigger] replies[i]).micros
}

proof fn lemma_add_up<T>(replies: Seq<TimedReply<T>>) -> (sums: Seq<nat>)
    ensures
        add_up(replies, sums),
        sums.last() == total_time(replies),
    decreases replies.len(),
{
    if replies.len() == 0 {
        seq![0nat]
    } else {
        let before = lemma_add_up(replies.drop_last());
        let sums = before.push(total_time(replies));
        assert forall|i: int| 0 <= i < replies.len() implies sums[i + 1] == sums[i] + (
        #[trigger] replies[i]).micros by {
            if i < replies.len() - 1 {
                assert(replies.drop_last()[i] == replies[i]);
            }
        }
        sums
    }
}

/// A report of runs: every run searches every query, in their order; the time is that of
/// all searches together, and the results are those of the last run.
pub proof fn law_runs_are_reported<I, T, S>(
    index: &I,
    num_queries: usize,
    num_runs: usize,
    search: &S,
    report: RunReport<T>,
) where T: Copy, S: Fn(&I, usize) -> TimedReply<T>
    requires
        call_ensures(run_queries::<I, T, S>, (index, num_queries, num_runs, search), report),
    ensures
        num_runs == 0 ==> report.total_micros == 0,
        num_runs > 0 ==> report.replies@.len() == num_queries,
        exists|replies: Seq<TimedReply<T>>, sums: Seq<nat>|
            {
                &&& replies.len() == num_queries * num_runs
                &&& forall|i: int|
                    0 <= i < replies.len() ==> call_ensures(
                        *search,
                        (index, (i % (num_queries as int)) as usize),
                        #[trigger] replies[i],
                    )
                &&& #[trigger] add_up(replies, sums)
                &&& report.total_micros == sums.last()
                &&& num_runs > 0 ==> forall|q: int|
                    0 <= q < num_queries ==> shows_found(
                        (#[trigger] report.replies@[q])@,
                        replies[num_queries * num_runs - num_queries + q].found@,
                    )
            },
{
    let n = num_queries as nat;
    let replies = choose|s: Seq<TimedReply<T>>|
        {
            &&& s.len() == num_queries * num_runs
            &&& #[trigger] replies_over(*search, index, n, s)
            &&& report.total_micros == total_time(s)
            &&& keeps(report.replies@, last_run(s, n))
        };
    let sums = lemma_add_up(replies);
    assert(num_runs == 0 ==> num_queries * num_runs == 0) by (nonlinear_arith);
    assert(num_runs > 0 ==> num_queries * num_runs >= num_queries) by (nonlinear_arith);
    if num_runs > 0 {
        assert forall|q: int| 0 <= q < num_queries implies shows_found(
            (#[trigger] report.replies@[q])@,
            replies[num_queries * num_runs - num_queries + q].found@,
        ) by {
            let reply = replies[num_queries * num_runs - num_queries + q];
            assert(last_run(replies, n)[q] == reply);
            assert(report.replies@[q]@ == pairs(reply.found@));
        }
    }
    assert(add_up(replies, sums));
}

/// The average time is the total divided by the number of searches, rounded down.
pub proof fn law_average_time(total_micros: u128, num_queries: usize, num_runs: usize, average: u128)
    requires
        0 < num_queries * num_runs,
        call_ensures(average_micros, (total_micros, num_queries, num_runs), average),
    ensures
        average * (num_queries * num_runs) <= total_micros < (average + 1) * (num_queries * num_runs),
{
    let n = num_queries * num_runs;
    let total = total_micros as int;
    vstd::arithmetic::div_mod::lemma_fundamental_div_mod(total, n);
    vstd::arithmetic::mul::lemma_mul_is_commutative(n, average as int);
    assert((average + 1) * n == average * n + n) by (nonlinear_arith);
}

/// The rows of one reply: one for each result, ranked from 1.
pub proof fn law_rows_of_a_reply<T>(q: int, reply: Seq<(T, usize)>, j: int)
    requires
        0 <= q <= usize::MAX,
        0 <= j < reply.len() < usize::MAX,
    ensures
        reply_rows(q, reply).len() == reply.len(),
        reply_rows(q, reply)[j].query_id == q,
        reply_rows(q, reply)[j].rank == j + 1,
        reply_rows(q, reply)[j].doc_id == reply[j].1,
        reply_rows(q, reply)[j].score == reply[j].0,
{
}

/// Whether `starts` are the places at which the rows of each query start.
pub open spec fn are_starts<T>(replies: Seq<Vec<(T, usize)>>, starts: Seq<nat>) -> bool {
    &&& starts.len() == replies.len() + 1
    &&& starts[0] == 0
    &&& forall|q: int| 0 <= q < replies.len() ==> starts[q + 1] == starts[q] + (#[trigger] replies[q])@.len()
}

/// Whether `row` is that of result `j` of query `q`: the query's number, the rank from 1,
/// the identifier and the distance.
pub open spec fn is_row<T>(row: ResultRow<T>, q: int, j: int, result: (T, usize)) -> bool {
    &&& row.query_id == q
    &&& row.rank == j + 1
    &&& row.doc_id == result.1
    &&& row.score == result.0
}

/// Whether the rows of each query stand from its start on, one for each result.
pub open spec fn are_rows<T>(
    replies: Seq<Vec<(T, usize)>>,
    starts: Seq<nat>,
    rows: Seq<ResultRow<T>>,
) -> bool {
    forall|q: int, j: int|
        0 <= q < replies.len() && 0 <= j < replies[q]@.len() ==> #[trigger] is_row(
            rows[starts[q] + j],
            q,
            j,
            replies[q]@[j],
        )
}

/// A result file has one row for each result of each query, query after query and rank
/// after rank, with the identifier and the distance that were found.
pub proof fn law_rows_are_written_in_order<T: Copy>(replies: &[Vec<(T, usize)>], rows: Vec<ResultRow<T>>)
    requires
        replies@.len() <= usize::MAX,
        forall|q: int| 0 <= q < replies@.len() ==> (#[trigger] replies@[q])@.len() < usize::MAX,
        call_ensures(result_rows::<T>, (replies,), rows),
    ensures
        exists|starts: Seq<nat>|
            {
                &&& #[trigger] are_starts(replies@, starts)
                &&& rows@.len() == starts.last()
                &&& are_rows(replies@, starts, rows@)
            },
{
    let all = replies@;
    let starts = Seq::new(all.len() + 1, |q: int| file_rows(all.take(q)).len());
    assert forall|q: int| 0 <= q < all.len() implies starts[q + 1] == starts[q] + (#[trigger] all[q])@.len() by {
        let head = all.take(q);
        let next = all.take(q + 1);
        let a = Seq::new(head.len(), |p: int| reply_rows(p, head[p]@));
        let b = Seq::new(next.len(), |p: int| reply_rows(p, next[p]@));
        assert(b =~= a.push(reply_rows(q, all[q]@)));
        a.lemma_flatten_push(reply_rows(q, all[q]@));
    }
    let none = all.take(0);
    assert(Seq::new(none.len(), |p: int| reply_rows(p, none[p]@)) =~= Seq::<Seq<ResultRow<T>>>::empty());
    assert(starts[0] == 0);
    assert(all.take(all.len() as int) =~= all);
    assert forall|q: int, j: int| 0 <= q < all.len() && 0 <= j < all[q]@.len() implies #[trigger] is_row(
        rows@[starts[q] + j],
        q,
        j,
        all[q]@[j],
    ) by {
        law_rows_belong_to_their_query(all, q, j);
    }
    assert(rows@.len() == starts.last());
    assert(starts[0] == 0);
    assert(are_rows(all, starts, rows@));
    assert(are_starts(all, starts));
}

} // verus!
