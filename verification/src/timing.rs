//! Timed runs over a set of queries, and the rows they are reported in.

use crate::ranking::ScoredVector;
use vstd::prelude::*;

verus! {

/// The outcome of timed runs.
pub struct RunReport<T> {
    /// For each query, the distance and the identifier of each result of the last run.
    pub replies: Vec<Vec<(T, usize)>>,
    /// The time taken by the searches of all runs together, in microseconds.
    pub total_micros: u128,
}

/// One search of a timed run: what it found and how long it took, in microseconds.
pub struct TimedReply<T> {
    pub found: Vec<ScoredVector<T>>,
    pub micros: u128,
}

/// The results of a reply, as pairs of distance and identifier.
pub open spec fn pairs<T>(found: Seq<ScoredVector<T>>) -> Seq<(T, usize)> {
    found.map_values(|s: ScoredVector<T>| (s.distance, s.vector as usize))
}

/// Whether `kept` holds the results of each reply.
pub open spec fn keeps<T>(kept: Seq<Vec<(T, usize)>>, replies: Seq<TimedReply<T>>) -> bool {
    &&& kept.len() == replies.len()
    &&& forall|q: int| 0 <= q < kept.len() ==> (#[trigger] kept[q])@ == pairs(replies[q].found@)
}

/// The time taken by several searches together.
pub open spec fn total_time<T>(replies: Seq<TimedReply<T>>) -> nat
    decreases replies.len(),
{
    if replies.len() == 0 {
        0
    } else {
        total_time(replies.drop_last()) + replies.last().micros as nat
    }
}

/// Whether `replies` are what `search` returns for `num_queries` queries over `index`,
/// from the first to the last, as often as they were run.
pub open spec fn replies_over<I, T, S>(
    search: S,
    index: &I,
    num_queries: nat,
    replies: Seq<TimedReply<T>>,
) -> bool where S: Fn(&I, usize) -> TimedReply<T> {
    forall|i: int|
        0 <= i < replies.len() ==> call_ensures(
            search,
            (index, (i % (num_queries as int)) as usize),
            #[trigger] replies[i],
        )
}

/// Whether queries can be run over `index` and timed.
pub open spec fn can_run<I, T, S>(search: S, index: &I, num_queries: usize) -> bool where
    S: Fn(&I, usize) -> TimedReply<T>,
 {
    &&& forall|q: usize| q < num_queries ==> #[trigger] call_requires(search, (index, q))
    &&& forall|q: usize, reply: TimedReply<T>| #[trigger]
        call_ensures(search, (index, q), reply) ==> reply.micros <= u64::MAX
}

/// Whether `report` sums up `num_runs` runs of `num_queries` queries over `index`.
pub open spec fn runs_over<I, T, S>(
    report: RunReport<T>,
    index: &I,
    num_queries: usize,
    num_runs: usize,
    search: S,
) -> bool where S: Fn(&I, usize) -> TimedReply<T> {
    exists|replies: Seq<TimedReply<T>>|
        {
            &&& replies.len() == num_queries * num_runs
            &&& #[trigger] replies_over(search, index, num_queries as nat, replies)
            &&& report.total_micros == total_time(replies)
            &&& keeps(report.replies@, last_run(replies, num_queries as nat))
        }
}

/// The replies of the last run.
pub open spec fn last_run<T>(replies: Seq<TimedReply<T>>, num_queries: nat) -> Seq<TimedReply<T>> {
    if replies.len() < num_queries {
        Seq::empty()
    } else {
        replies.skip(replies.len() - num_queries)
    }
}

/// The results of a reply, as pairs of distance and identifier.
pub fn to_pairs<T: Copy>(found: &[ScoredVector<T>]) -> (results: Vec<(T, usize)>)
    ensures
        results@ == pairs(found@),
{
    let mut results: Vec<(T, usize)> = Vec::new();
    let mut i: usize = 0;
    while i < found.len()
        invariant
            i <= found@.len(),
            results@.len() == i,
            forall|j: int| 0 <= j < i ==> #[trigger] results@[j] == pairs(found@)[j],
        decreases found.len() - i,
    {
        results.push(
            (
                found[i].distance,
                #[verifier::truncate]
                (found[i].vector as usize),
            ),
        );
        i = i + 1;
    }
    assert(results@ =~= pairs(found@));
    results
}

/// Runs `num_queries` queries over `index` `num_runs` times, one after the other. The
/// time of every run counts; the results are those of the last one.
pub fn run_queries<I, T, S>(index: &I, num_queries: usize, num_runs: usize, search: &S) -> (report: RunReport<
    T,
>) where T: Copy, S: Fn(&I, usize) -> TimedReply<T>
    requires
        num_queries * num_runs <= usize::MAX,
        can_run(*search, index, num_queries),
    ensures
        runs_over(report, index, num_queries, num_runs, *search),
{
    let mut kept: Vec<Vec<(T, usize)>> = Vec::new();
    let mut total_micros: u128 = 0;
    let ghost mut replies: Seq<TimedReply<T>> = Seq::empty();
    let mut run: usize = 0;
    proof {
        assert(num_queries * 0 == 0) by (nonlinear_arith);
        assert(last_run(replies, num_queries as nat) =~= Seq::empty());
    }
    while run < num_runs
        invariant
            run <= num_runs,
            num_queries * num_runs <= usize::MAX,
            can_run(*search, index, num_queries),
            replies.len() == num_queries * run,
            replies_over(*search, index, num_queries as nat, replies),
            total_micros == total_time(replies),
            total_micros <= replies.len() * u64::MAX,
            keeps(kept@, last_run(replies, num_queries as nat)),
        decreases num_runs - run,
    {
        kept.clear();
        let ghost first = replies.len();
        proof {
            assert(num_queries * (run + 1) == num_queries * run + num_queries) by (nonlinear_arith);
            assert(num_queries * (run + 1) <= num_queries * num_runs) by (nonlinear_arith)
                requires
                    run + 1 <= num_runs,
                    0 <= num_queries,
            ;
        }
        let mut q: usize = 0;
        while q < num_queries
            invariant
                q <= num_queries,
                run < num_runs,
                first == num_queries * run,
                first + num_queries <= usize::MAX,
                can_run(*search, index, num_queries),
                replies.len() == first + q,
                replies_over(*search, index, num_queries as nat, replies),
                total_micros == total_time(replies),
                total_micros <= replies.len() * u64::MAX,
                keeps(kept@, replies.skip(first as int)),
            decreases num_queries - q,
        {
            assert(call_requires(*search, (index, q)));
            let reply: TimedReply<T> = search(index, q);
            let results: Vec<(T, usize)> = to_pairs(reply.found.as_slice());
            proof {
                let i = replies.len() as int;
                assert(i % (num_queries as int) == q) by {
                    vstd::arithmetic::mul::lemma_mul_is_commutative(num_queries as int, run as int);
                    vstd::arithmetic::div_mod::lemma_fundamental_div_mod_converse(
                        i,
                        num_queries as int,
                        run as int,
                        q as int,
                    );
                }
                assert(replies.push(reply).drop_last() =~= replies);
                assert(replies.push(reply).skip(first as int) =~= replies.skip(first as int).push(reply));
                assert((replies.len() + 1) * u64::MAX == replies.len() * u64::MAX + u64::MAX)
                    by (nonlinear_arith);
                assert(replies.len() * u64::MAX <= usize::MAX * u64::MAX) by (nonlinear_arith)
                    requires
                        replies.len() <= usize::MAX,
                ;
                assert(usize::MAX * u64::MAX + u64::MAX <= u128::MAX) by (nonlinear_arith)
                    requires
                        usize::MAX <= 0xffff_ffff_ffff_ffff,
                ;
                replies = replies.push(reply);
            }
            kept.push(results);
            total_micros = total_micros + reply.micros;
            q = q + 1;
        }
        proof {
            assert(last_run(replies, num_queries as nat) =~= replies.skip(first as int));
        }
        run = run + 1;
    }
    RunReport { replies: kept, total_micros }
}

/// A report holds one reply for each query, in their order: what a search for that
/// query found.
pub proof fn law_every_query_is_reported_once<I, T, S>(
    report: RunReport<T>,
    index: &I,
    num_queries: usize,
    num_runs: usize,
    search: S,
) where S: Fn(&I, usize) -> TimedReply<T>
    requires
        runs_over(report, index, num_queries, num_runs, search),
        num_runs > 0,
    ensures
        report.replies@.len() == num_queries,
        forall|q: int|
            0 <= q < num_queries ==> is_reply(search, index, q as usize, (#[trigger] report.replies@[q])@),
{
    let n = num_queries as nat;
    let s = choose|s: Seq<TimedReply<T>>|
        {
            &&& s.len() == num_queries * num_runs
            &&& #[trigger] replies_over(search, index, n, s)
            &&& report.total_micros == total_time(s)
            &&& keeps(report.replies@, last_run(s, n))
        };
    lemma_last_run(s, num_queries as int, num_runs as int);
    assert forall|q: int| 0 <= q < num_queries implies is_reply(
        search,
        index,
        q as usize,
        (#[trigger] report.replies@[q])@,
    ) by {
        let i = s.len() - n + q;
        lemma_query_of(num_queries as int, num_runs as int, q);
        assert(call_ensures(search, (index, q as usize), s[i]));
        assert(last_run(s, n)[q] == s[i]);
    }
}

/// Whether `kept` holds what a search for query `q` found.
pub open spec fn is_reply<I, T, S>(search: S, index: &I, q: usize, kept: Seq<(T, usize)>) -> bool where
    S: Fn(&I, usize) -> TimedReply<T>,
 {
    exists|reply: TimedReply<T>| #[trigger]
        call_ensures(search, (index, q), reply) && kept == pairs(reply.found@)
}

/// How often the queries are run plays no part in what is reported of them: where a
/// search finds the same each time it is asked, any two numbers of runs give the same
/// results and the same rows.
pub proof fn law_runs_only_add_time<I, T, S>(
    a: RunReport<T>,
    b: RunReport<T>,
    index: &I,
    num_queries: usize,
    runs_a: usize,
    runs_b: usize,
    search: S,
) where S: Fn(&I, usize) -> TimedReply<T>
    requires
        runs_over(a, index, num_queries, runs_a, search),
        runs_over(b, index, num_queries, runs_b, search),
        runs_a > 0,
        runs_b > 0,
        forall|q: usize, x: TimedReply<T>, y: TimedReply<T>| #[trigger]
            call_ensures(search, (index, q), x) && #[trigger] call_ensures(search, (index, q), y) ==> x.found@
                == y.found@,
    ensures
        a.replies@.len() == b.replies@.len(),
        forall|q: int| 0 <= q < num_queries ==> (#[trigger] a.replies@[q])@ == b.replies@[q]@,
        file_rows(a.replies@) == file_rows(b.replies@),
{
    law_every_query_is_reported_once(a, index, num_queries, runs_a, search);
    law_every_query_is_reported_once(b, index, num_queries, runs_b, search);
    assert forall|q: int| 0 <= q < num_queries implies (#[trigger] a.replies@[q])@ == b.replies@[q]@ by {
        assert(is_reply(search, index, q as usize, a.replies@[q]@));
        assert(is_reply(search, index, q as usize, b.replies@[q]@));
    }
    let left = Seq::new(a.replies@.len(), |q: int| reply_rows(q, a.replies@[q]@));
    let right = Seq::new(b.replies@.len(), |q: int| reply_rows(q, b.replies@[q]@));
    assert forall|q: int| 0 <= q < left.len() implies #[trigger] left[q] == right[q] by {
        assert(a.replies@[q]@ == b.replies@[q]@);
    }
    assert(left =~= right);
}

proof fn lemma_last_run<T>(replies: Seq<TimedReply<T>>, num_queries: int, runs: int)
    requires
        replies.len() == num_queries * runs,
        num_queries >= 0,
        runs > 0,
    ensures
        replies.len() >= num_queries,
        last_run(replies, num_queries as nat).len() == num_queries,
{
    assert(num_queries * runs >= num_queries) by (nonlinear_arith)
        requires
            num_queries >= 0,
            runs > 0,
    ;
}

proof fn lemma_query_of(num_queries: int, runs: int, q: int)
    requires
        0 <= q < num_queries,
        runs > 0,
    ensures
        (num_queries * runs - num_queries + q) % num_queries == q,
{
    let i = num_queries * runs - num_queries + q;
    assert(i == (runs - 1) * num_queries + q) by (nonlinear_arith)
        requires
            i == num_queries * runs - num_queries + q,
    ;
    vstd::arithmetic::div_mod::lemma_fundamental_div_mod_converse(i, num_queries, runs - 1, q);
}

/// The average time of a search.
pub fn average_micros(total_micros: u128, num_queries: usize, num_runs: usize) -> (average: u128)
    requires
        0 < num_queries * num_runs <= usize::MAX,
    ensures
        average == total_micros as int / (num_queries * num_runs),
{
    total_micros / ((num_queries * num_runs) as u128)
}

/// A row of a result file.
#[derive(Debug)]
pub struct ResultRow<T> {
    pub query_id: usize,
    pub doc_id: usize,
    pub rank: usize,
    pub score: T,
}

/// The rows of one reply: its results, ranked from 1.
pub open spec fn reply_rows<T>(q: int, reply: Seq<(T, usize)>) -> Seq<ResultRow<T>> {
    Seq::new(
        reply.len(),
        |j: int|
            ResultRow { query_id: q as usize, doc_id: reply[j].1, rank: (j + 1) as usize, score: reply[j].0 },
    )
}

/// The rows of a result file: those of each reply, query after query.
pub open spec fn file_rows<T>(replies: Seq<Vec<(T, usize)>>) -> Seq<ResultRow<T>> {
    Seq::new(replies.len(), |q: int| reply_rows(q, replies[q]@)).flatten()
}

/// The rows of a result file.
pub fn result_rows<T: Copy>(replies: &[Vec<(T, usize)>]) -> (rows: Vec<ResultRow<T>>)
    ensures
        rows@ == file_rows(replies@),
{
    let mut rows: Vec<ResultRow<T>> = Vec::new();
    let ghost parts = Seq::new(replies@.len(), |q: int| reply_rows(q, replies@[q]@));
    let mut q: usize = 0;
    assert(parts.take(0) =~= Seq::empty());
    assert(parts.take(0).flatten() =~= Seq::empty());
    while q < replies.len()
        invariant
            q <= replies@.len(),
            parts == Seq::new(replies@.len(), |q: int| reply_rows(q, replies@[q]@)),
            rows@ == parts.take(q as int).flatten(),
        decreases replies.len() - q,
    {
        let reply: &Vec<(T, usize)> = &replies[q];
        let ghost before = rows@;
        let ghost all = reply_rows(q as int, reply@);
        let mut j: usize = 0;
        assert(before + all.take(0) =~= before);
        while j < reply.len()
            invariant
                j <= reply@.len(),
                all == reply_rows(q as int, reply@),
                rows@ == before + all.take(j as int),
            decreases reply.len() - j,
        {
            assert(reply@.len() == reply.len());
            let rank: usize = j + 1;
            rows.push(ResultRow { query_id: q, doc_id: reply[j].1, rank, score: reply[j].0 });
            assert(all.take(j + 1) =~= all.take(j as int).push(all[j as int]));
            j = j + 1;
            assert(rows@ =~= before + all.take(j as int));
        }
        proof {
            assert(all.take(reply@.len() as int) =~= all);
            assert(parts[q as int] == all);
            parts.take(q as int).lemma_flatten_push(all);
            assert(parts.take(q + 1) =~= parts.take(q as int).push(all));
        }
        q = q + 1;
    }
    assert(parts.take(replies@.len() as int) =~= parts);
    rows
}

/// Result `j` of query `q` has a row of its own: with the query's number, the rank
/// `j + 1`, and the identifier and the distance that were found. It stands behind the
/// rows of the queries before, however many results each of them has.
pub proof fn law_rows_belong_to_their_query<T>(replies: Seq<Vec<(T, usize)>>, q: int, j: int)
    requires
        0 <= q < replies.len() <= usize::MAX,
        0 <= j < replies[q]@.len() < usize::MAX,
    ensures
        file_rows(replies.take(q)).len() + j < file_rows(replies).len(),
        ({
            let row = file_rows(replies)[file_rows(replies.take(q)).len() + j];
            &&& row.query_id == q
            &&& row.rank == j + 1
            &&& row.doc_id == replies[q]@[j].1
            &&& row.score == replies[q]@[j].0
        }),
{
    let parts = Seq::new(replies.len(), |p: int| reply_rows(p, replies[p]@));
    let head = replies.take(q);
    assert(Seq::new(head.len(), |p: int| reply_rows(p, head[p]@)) =~= parts.take(q));
    crate::flatten::lemma_place_in_flatten(parts, q, j);
}

/// Every row of a result file names one of the queries, and a rank that its reply has.
pub proof fn law_rows_name_a_result<T>(replies: Seq<Vec<(T, usize)>>, i: int)
    requires
        0 <= i < file_rows(replies).len(),
        replies.len() <= usize::MAX,
        forall|q: int| 0 <= q < replies.len() ==> (#[trigger] replies[q])@.len() < usize::MAX,
    ensures
        file_rows(replies)[i].query_id < replies.len(),
        1 <= file_rows(replies)[i].rank <= replies[file_rows(replies)[i].query_id as int]@.len(),
{
    let parts = Seq::new(replies.len(), |p: int| reply_rows(p, replies[p]@));
    let (q, j) = crate::flatten::lemma_from_flatten(parts, i);
    assert(parts[q][j] == reply_rows(q, replies[q]@)[j]);
    assert(replies[q]@.len() < usize::MAX);
}

} // verus!
