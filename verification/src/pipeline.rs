//! The query pipeline: a worker fills an ordered channel with result
//! rows; the UI thread drains whatever has arrived, without blocking, on
//! its own cadence; a newer query supersedes an older one atomically.

use vstd::prelude::*;

use crate::manager::Handle;
use crate::store::{
    EntryModel, PlanModel, QueryError, QueryPlan, Store, ThreadEntry, entry_wf, parse_query,
    spec_matches, spec_parse, store_wf, entry_matches,
};

verus! {

/// A flattened, UI-friendly projection of one mail thread, produced by
/// the worker and immutable once constructed.
pub struct QueryResultRow {
    /// Thread identifier, unique within a result set.
    pub id: String,
    pub subject: String,
    pub total_messages: u32,
    /// Author names, in the thread's order.
    pub authors: Vec<String>,
    /// Epoch seconds; no newer than `newest_date` for worker-made rows.
    pub oldest_date: i64,
    pub newest_date: i64,
}

/// Mathematical image of a `QueryResultRow`.
#[verifier::ext_equal]
pub struct RowModel {
    pub id: Seq<char>,
    pub subject: Seq<char>,
    pub total_messages: u32,
    pub authors: Seq<Seq<char>>,
    pub oldest_date: i64,
    pub newest_date: i64,
}

impl View for QueryResultRow {
    type V = RowModel;

    open spec fn view(&self) -> RowModel {
        RowModel {
            id: self.id@,
            subject: self.subject@,
            total_messages: self.total_messages,
            authors: self.authors.deep_view(),
            oldest_date: self.oldest_date,
            newest_date: self.newest_date,
        }
    }
}

impl DeepView for QueryResultRow {
    type V = RowModel;

    open spec fn deep_view(&self) -> RowModel {
        self.view()
    }
}

impl Clone for QueryResultRow {
    fn clone(&self) -> (r: Self)
        ensures
            r@ == self@,
    {
        let authors = self.authors.clone();
        proof {
            assert(authors.deep_view() =~= self.authors.deep_view());
        }
        QueryResultRow {
            id: self.id.clone(),
            subject: self.subject.clone(),
            total_messages: self.total_messages,
            authors,
            oldest_date: self.oldest_date,
            newest_date: self.newest_date,
        }
    }
}

/// The row the worker makes of one iterated thread: the same fields,
/// minus the tags, which stay in the store.
pub open spec fn spec_row_of(e: EntryModel) -> RowModel {
    RowModel {
        id: e.id,
        subject: e.subject,
        total_messages: e.total_messages,
        authors: e.authors,
        oldest_date: e.oldest_date,
        newest_date: e.newest_date,
    }
}

/// Flatten one iterated thread into a result row.
pub fn row_of_entry(e: &ThreadEntry) -> (r: QueryResultRow)
    ensures
        r@ == spec_row_of(e@),
{
    let authors = e.authors.clone();
    proof {
        assert(authors.deep_view() =~= e.authors.deep_view());
    }
    QueryResultRow {
        id: e.id.clone(),
        subject: e.subject.clone(),
        total_messages: e.total_messages,
        authors,
        oldest_date: e.oldest_date,
        newest_date: e.newest_date,
    }
}

/// What a search of `threads` under plan `p` emits: the rows of the
/// matching threads, in the store's iteration order — no re-sorting.
pub open spec fn spec_search(threads: Seq<EntryModel>, p: PlanModel) -> Seq<RowModel>
    decreases threads.len(),
{
    if threads.len() == 0 {
        Seq::empty()
    } else {
        let rest = spec_search(threads.drop_last(), p);
        if spec_matches(threads.last(), p) {
            rest.push(spec_row_of(threads.last()))
        } else {
            rest
        }
    }
}

/// Law: the empty (match-all) query returns every thread, in the store's
/// own order — in particular it is not re-sorted by date.
pub proof fn lemma_search_all_in_store_order(threads: Seq<EntryModel>)
    ensures
        spec_search(threads, PlanModel::All) == threads.map_values(|e: EntryModel| spec_row_of(e)),
    decreases threads.len(),
{
    let f = |e: EntryModel| spec_row_of(e);
    if threads.len() == 0 {
        assert(spec_search(threads, PlanModel::All) =~= threads.map_values(f));
    } else {
        lemma_search_all_in_store_order(threads.drop_last());
        assert(threads.drop_last().map_values(f) =~= threads.map_values(f).drop_last());
        assert(spec_search(threads, PlanModel::All) =~= threads.map_values(f));
    }
}

/// Law: a search is exactly the filtered projection of the store — the
/// matching threads, kept in the store's order, each flattened to its
/// row; nothing else is ever emitted.
pub proof fn lemma_search_is_filtered_projection(threads: Seq<EntryModel>, p: PlanModel)
    ensures
        spec_search(threads, p) == threads.filter(|e: EntryModel| spec_matches(e, p)).map_values(
            |e: EntryModel| spec_row_of(e),
        ),
    decreases threads.len(),
{
    let pred = |e: EntryModel| spec_matches(e, p);
    let f = |e: EntryModel| spec_row_of(e);
    reveal(Seq::filter);
    if threads.len() == 0 {
        assert(spec_search(threads, p) =~= threads.filter(pred).map_values(f));
    } else {
        lemma_search_is_filtered_projection(threads.drop_last(), p);
        if pred(threads.last()) {
            assert(threads.filter(pred) == threads.drop_last().filter(pred).push(threads.last()));
            assert(threads.filter(pred).map_values(f) =~= threads.drop_last().filter(
                pred,
            ).map_values(f).push(f(threads.last())));
        } else {
            assert(threads.filter(pred) == threads.drop_last().filter(pred));
        }
        assert(spec_search(threads, p) =~= threads.filter(pred).map_values(f));
    }
}

/// Law: every row a search emits keeps its thread's date ordering — in a
/// store whose threads are well formed, a result row's oldest date never
/// exceeds its newest.
pub proof fn lemma_search_rows_wf(threads: Seq<EntryModel>, p: PlanModel)
    requires
        store_wf(threads),
    ensures
        forall|i: int|
            0 <= i < spec_search(threads, p).len() ==> (#[trigger] spec_search(threads, p)[i]).oldest_date
                <= spec_search(threads, p)[i].newest_date,
    decreases threads.len(),
{
    if threads.len() > 0 {
        assert forall|i: int| 0 <= i < threads.drop_last().len() implies entry_wf(
            #[trigger] threads.drop_last()[i],
        ) by {
            assert(threads.drop_last()[i] == threads[i]);
        }
        lemma_search_rows_wf(threads.drop_last(), p);
        assert(entry_wf(threads.last()));
        let rest = spec_search(threads.drop_last(), p);
        let full = spec_search(threads, p);
        assert forall|i: int| 0 <= i < full.len() implies (#[trigger] full[i]).oldest_date
            <= full[i].newest_date by {
            if spec_matches(threads.last(), p) && i == rest.len() {
                assert(full[i] == spec_row_of(threads.last()));
            } else {
                assert(full[i] == rest[i]);
            }
        }
    }
}

/// The ordered worker-to-UI channel, as the UI side sees it: every row
/// the worker has emitted so far, in emission order, and whether the
/// worker has finished — cleanly or with a failure.
pub struct Channel {
    rows: Vec<QueryResultRow>,
    closed: bool,
    failure: Option<String>,
}

/// Mathematical image of a `Channel`.
#[verifier::ext_equal]
pub struct ChannelModel {
    /// Everything emitted so far, in emission order.
    pub rows: Seq<RowModel>,
    /// The worker has stopped; nothing more will arrive.
    pub closed: bool,
    /// Why the worker stopped abnormally, if it did.
    pub failure: Option<Seq<char>>,
}

impl View for Channel {
    type V = ChannelModel;

    closed spec fn view(&self) -> ChannelModel {
        ChannelModel {
            rows: self.rows.deep_view(),
            closed: self.closed,
            failure: match self.failure {
                Some(reason) => Some(reason@),
                None => None,
            },
        }
    }
}

/// A failure is only ever recorded by a worker that has stopped.
pub open spec fn channel_wf(c: ChannelModel) -> bool {
    c.failure is Some ==> c.closed
}

impl Channel {
    /// A fresh, open, empty channel.
    pub fn new() -> (c: Channel)
        ensures
            c@.rows == Seq::<RowModel>::empty(),
            !c@.closed,
            c@.failure is None,
    {
        let rows: Vec<QueryResultRow> = Vec::new();
        proof {
            assert(rows.deep_view() =~= Seq::<RowModel>::empty());
        }
        Channel { rows, closed: false, failure: None }
    }

    /// The worker emits one row. A send to a channel whose receiving end
    /// is gone is tolerated, not a crash: it changes nothing and reports
    /// that the row was not accepted.
    pub fn emit(&mut self, row: QueryResultRow) -> (accepted: bool)
        ensures
            !old(self)@.closed ==> accepted && final(self)@ == (ChannelModel {
                rows: old(self)@.rows.push(row@),
                ..old(self)@
            }),
            old(self)@.closed ==> !accepted && final(self)@ == old(self)@,
    {
        if self.closed {
            false
        } else {
            let ghost prior = self.rows.deep_view();
            let ghost rv = row@;
            self.rows.push(row);
            proof {
                assert(self.rows.deep_view() =~= prior.push(rv));
                assert(self@ =~= (ChannelModel { rows: prior.push(rv), ..old(self)@ }));
            }
            true
        }
    }

    /// The worker finished iterating; the channel closes cleanly.
    pub fn close(&mut self)
        ensures
            final(self)@ == (ChannelModel { closed: true, ..old(self)@ }),
    {
        self.closed = true;
        proof {
            assert(self@ =~= (ChannelModel { closed: true, ..old(self)@ }));
        }
    }

    /// The worker's iteration aborted: record why and close. Every row
    /// emitted before the failure stays available to be drained.
    pub fn fail(&mut self, reason: String)
        ensures
            final(self)@ == (ChannelModel {
                closed: true,
                failure: Some(reason@),
                rows: old(self)@.rows,
            }),
            channel_wf(final(self)@),
    {
        self.closed = true;
        self.failure = Some(reason);
        proof {
            assert(self@ =~= (ChannelModel {
                closed: true,
                failure: Some(reason@),
                rows: old(self)@.rows,
            }));
        }
    }

    /// How many rows have been emitted so far.
    pub fn row_count(&self) -> (n: usize)
        ensures
            n == self@.rows.len(),
    {
        self.rows.len()
    }

    /// What a drain of this channel reports right now.
    pub fn status(&self) -> (s: DrainStatus)
        ensures
            s@ == spec_status(self@),
    {
        match &self.failure {
            Some(reason) => DrainStatus::WorkerFailed(reason.clone()),
            None => if self.closed {
                DrainStatus::Done
            } else {
                DrainStatus::Pending
            },
        }
    }
}

/// What a `drain` call reports about the query's progress.
#[derive(Debug)]
pub enum DrainStatus {
    /// The worker may still emit more rows: keep polling.
    Pending,
    /// The worker finished cleanly and everything was drained.
    Done,
    /// The worker aborted; the rows drained so far are a partial result.
    WorkerFailed(String),
}

/// Mathematical image of a `DrainStatus`.
pub enum StatusModel {
    Pending,
    Done,
    WorkerFailed(Seq<char>),
}

impl View for DrainStatus {
    type V = StatusModel;

    open spec fn view(&self) -> StatusModel {
        match self {
            DrainStatus::Pending => StatusModel::Pending,
            DrainStatus::Done => StatusModel::Done,
            DrainStatus::WorkerFailed(reason) => StatusModel::WorkerFailed(reason@),
        }
    }
}

/// The status a drain reports, read off the channel: a recorded failure
/// wins, a closed channel is done, an open one is still pending. Absence
/// of data is never an error.
pub open spec fn spec_status(c: ChannelModel) -> StatusModel {
    match c.failure {
        Some(reason) => StatusModel::WorkerFailed(reason),
        None => if c.closed {
            StatusModel::Done
        } else {
            StatusModel::Pending
        },
    }
}

/// Run the whole search for `expr` against the store, emitting each
/// matching thread's row in store-iteration order, then close the
/// channel. This is the worker's job, run off the UI thread; a worker
/// that cannot finish records its failure with [`Channel::fail`]
/// instead of closing cleanly.
pub fn run_worker(chan: &mut Channel, store: &Store, expr: &str)
    requires
        !old(chan)@.closed,
        old(chan)@.failure is None,
        !(spec_parse(expr@) is Malformed),
    ensures
        final(chan)@.rows == old(chan)@.rows + spec_search(store@, spec_parse(expr@)),
        final(chan)@.closed,
        final(chan)@.failure is None,
{
    let plan = parse_query(expr);
    let n: usize = store.threads.len();
    let mut i: usize = 0;
    while i < n
        invariant
            n == store.threads.len(),
            0 <= i <= n,
            !chan@.closed,
            chan@.failure is None,
            plan@ == spec_parse(expr@),
            chan@.rows == old(chan)@.rows + spec_search(
                store.threads.deep_view().take(i as int),
                plan@,
            ),
        decreases n - i,
    {
        let ghost prefix = store.threads.deep_view().take(i as int);
        let e = &store.threads[i];
        proof {
            assert(store.threads.deep_view().take(i + 1).drop_last() =~= prefix);
            assert(store.threads.deep_view().take(i + 1).last() == e@);
        }
        if entry_matches(e, &plan) {
            let row = row_of_entry(e);
            let _ = chan.emit(row);
        }
        i = i + 1;
    }
    proof {
        assert(store.threads.deep_view().take(n as int) =~= store.threads.deep_view());
    }
    chan.close();
}

/// An in-flight query, from the UI's side: which generation of queries it
/// belongs to, and how many channel rows it has consumed so far. Created
/// by [`Pipeline::start`]; treat it as opaque.
#[derive(Clone, Copy, PartialEq, Eq, Structural, Debug)]
pub struct PendingQuery {
    /// The pipeline generation this query was started as.
    pub gen: u64,
    /// How many rows of the query's channel have been consumed.
    pub cursor: usize,
}

/// The UI-owned side of the pipeline: the visible result collection and
/// the generation counter that tells a current query from a superseded
/// one.
pub struct Pipeline {
    current_gen: u64,
    results: Vec<QueryResultRow>,
}

/// Mathematical image of a `Pipeline`.
#[verifier::ext_equal]
pub struct PipelineModel {
    /// Generation of the most recently started query.
    pub gen: u64,
    /// The caller-visible result collection, in arrival order.
    pub results: Seq<RowModel>,
}

impl View for Pipeline {
    type V = PipelineModel;

    closed spec fn view(&self) -> PipelineModel {
        PipelineModel { gen: self.current_gen, results: self.results.deep_view() }
    }
}

/// The transition `start` makes on the pipeline: a new generation, an
/// emptied result collection, and a pending query at cursor zero.
pub open spec fn spec_start(p: PipelineModel) -> (PipelineModel, PendingQuery) {
    let g = (p.gen + 1) as u64;
    (PipelineModel { gen: g, results: Seq::empty() }, PendingQuery { gen: g, cursor: 0 })
}

/// The transition `drain` makes: everything that has arrived past the
/// cursor is consumed; it is appended to the visible results only if the
/// pending query is still the current generation — a superseded query's
/// rows are discarded, never interleaved.
pub open spec fn spec_drain(p: PipelineModel, pq: PendingQuery, c: ChannelModel) -> (
    PipelineModel,
    PendingQuery,
    Seq<RowModel>,
) {
    let drained = c.rows.subrange(pq.cursor as int, c.rows.len() as int);
    let pq2 = PendingQuery { gen: pq.gen, cursor: c.rows.len() as usize };
    if pq.gen == p.gen {
        (PipelineModel { gen: p.gen, results: p.results + drained }, pq2, drained)
    } else {
        (p, pq2, Seq::empty())
    }
}

impl Pipeline {
    /// A fresh pipeline: no query started yet, nothing visible.
    pub fn new() -> (p: Pipeline)
        ensures
            p@.gen == 0,
            p@.results == Seq::<RowModel>::empty(),
    {
        let results: Vec<QueryResultRow> = Vec::new();
        proof {
            assert(results.deep_view() =~= Seq::<RowModel>::empty());
        }
        Pipeline { current_gen: 0, results }
    }

    /// The caller-visible result collection, in arrival order.
    pub fn results(&self) -> (r: &Vec<QueryResultRow>)
        ensures
            r.deep_view() == self@.results,
    {
        &self.results
    }

    /// Begin a query. A malformed expression is refused synchronously
    /// and changes nothing; the empty expression is a valid match-all
    /// query, not an error. On success the visible results are cleared,
    /// any earlier pending query is superseded, and the caller gets the
    /// new pending query with the fresh channel its worker is to fill.
    /// `_handle` is the store connection the worker will query; the
    /// pipeline itself only hands it through.
    pub fn start(&mut self, _handle: &Handle, expr: &str) -> (r: Result<
        (PendingQuery, Channel),
        QueryError,
    >)
        requires
            old(self)@.gen < u64::MAX,
        ensures
            spec_parse(expr@) is Malformed ==> r is Err && final(self)@ == old(self)@,
            !(spec_parse(expr@) is Malformed) ==> ({
                &&& r is Ok
                &&& r->Ok_0.0 == spec_start(old(self)@).1
                &&& r->Ok_0.1@.rows == Seq::<RowModel>::empty()
                &&& !r->Ok_0.1@.closed
                &&& r->Ok_0.1@.failure is None
                &&& final(self)@ == spec_start(old(self)@).0
            }),
    {
        let plan = parse_query(expr);
        if let QueryPlan::Malformed = plan {
            return Err(QueryError::Malformed);
        }
        self.current_gen = self.current_gen + 1;
        self.results = Vec::new();
        proof {
            assert(self.results.deep_view() =~= Seq::<RowModel>::empty());
            assert(self@ =~= spec_start(old(self)@).0);
        }
        Ok((PendingQuery { gen: self.current_gen, cursor: 0 }, Channel::new()))
    }

    /// Drain the channel: pull every row that has arrived since the last
    /// drain, in arrival order, and report the worker's status. Never
    /// blocks — an empty channel just reports `Pending`. Rows of the
    /// current query are appended to the visible results and returned;
    /// rows of a superseded query are consumed and dropped.
    pub fn drain(&mut self, pending: &mut PendingQuery, chan: &Channel) -> (r: (
        Vec<QueryResultRow>,
        DrainStatus,
    ))
        requires
            old(pending).cursor <= chan@.rows.len(),
        ensures
            final(self)@ == spec_drain(old(self)@, *old(pending), chan@).0,
            *final(pending) == spec_drain(old(self)@, *old(pending), chan@).1,
            r.0.deep_view() == spec_drain(old(self)@, *old(pending), chan@).2,
            r.1@ == spec_status(chan@),
    {
        let ghost start_cursor = old(pending).cursor as int;
        let n: usize = chan.rows.len();
        if pending.gen != self.current_gen {
            pending.cursor = n;
            let out: Vec<QueryResultRow> = Vec::new();
            proof {
                assert(out.deep_view() =~= Seq::<RowModel>::empty());
            }
            return (out, chan.status());
        }
        let mut out: Vec<QueryResultRow> = Vec::new();
        let mut i: usize = pending.cursor;
        proof {
            assert(out.deep_view() =~= chan@.rows.subrange(start_cursor, start_cursor));
            assert(self.results.deep_view() =~= old(self)@.results + chan@.rows.subrange(
                start_cursor,
                start_cursor,
            ));
        }
        while i < n
            invariant
                n == chan.rows.len(),
                0 <= start_cursor <= i <= n,
                chan@.rows.len() == n,
                self@.gen == old(self)@.gen,
                self@.results == old(self)@.results + chan@.rows.subrange(start_cursor, i as int),
                out.deep_view() == chan@.rows.subrange(start_cursor, i as int),
            decreases n - i,
        {
            let ghost sofar = chan@.rows.subrange(start_cursor, i as int);
            let row = chan.rows[i].clone();
            proof {
                assert(row@ == chan@.rows[i as int]);
                assert(chan@.rows.subrange(start_cursor, i + 1) =~= sofar.push(row@));
            }
            let copy = row.clone();
            let ghost prior_results = self.results.deep_view();
            let ghost prior_out = out.deep_view();
            self.results.push(copy);
            out.push(row);
            proof {
                assert(self.results.deep_view() =~= prior_results.push(chan@.rows[i as int]));
                assert(out.deep_view() =~= prior_out.push(chan@.rows[i as int]));
                assert(self@.results =~= old(self)@.results + chan@.rows.subrange(
                    start_cursor,
                    i + 1,
                ));
            }
            i = i + 1;
        }
        pending.cursor = n;
        proof {
            assert(self@ =~= spec_drain(old(self)@, *old(pending), chan@).0);
        }
        (out, chan.status())
    }
}

/// The synchronization invariant between the pipeline, its current
/// pending query, and that query's channel: the visible result collection
/// is exactly the drained prefix of the worker's emissions — same rows,
/// same order, nothing foreign in between.
pub open spec fn synced(p: PipelineModel, pq: PendingQuery, c: ChannelModel) -> bool {
    &&& pq.gen == p.gen
    &&& pq.cursor <= c.rows.len()
    &&& p.results == c.rows.take(pq.cursor as int)
}

/// Law: `start` establishes the synchronization invariant with the fresh
/// channel it hands out.
pub proof fn lemma_start_establishes_sync(p: PipelineModel, c: ChannelModel)
    requires
        c.rows.len() == 0,
    ensures
        synced(spec_start(p).0, spec_start(p).1, c),
{
    assert(c.rows.take(0) =~= Seq::<RowModel>::empty());
}

/// Law: a drain of the current query preserves the invariant and leaves
/// the visible results equal to everything emitted so far — rows appear
/// in exactly the worker's emission order, whatever the polling cadence.
pub proof fn lemma_drain_preserves_sync(p: PipelineModel, pq: PendingQuery, c: ChannelModel)
    requires
        synced(p, pq, c),
        c.rows.len() <= usize::MAX,
    ensures
        synced(spec_drain(p, pq, c).0, spec_drain(p, pq, c).1, c),
        spec_drain(p, pq, c).0.results == c.rows,
{
    assert(c.rows.take(pq.cursor as int) + c.rows.subrange(pq.cursor as int, c.rows.len() as int)
        =~= c.rows);
    assert(c.rows.take(c.rows.len() as int) =~= c.rows);
}

/// Law: the worker emitting one more row preserves the invariant — more
/// generally, anything that extends the channel's rows does.
pub proof fn lemma_extend_preserves_sync(
    p: PipelineModel,
    pq: PendingQuery,
    c1: ChannelModel,
    c2: ChannelModel,
)
    requires
        synced(p, pq, c1),
        c1.rows.is_prefix_of(c2.rows),
    ensures
        synced(p, pq, c2),
{
    assert(c2.rows.take(pq.cursor as int) =~= c1.rows.take(pq.cursor as int));
}

/// Law: draining a query that never received rows returns nothing,
/// reports `Pending`, and changes nothing — absence of data is not an
/// error, and the call has nothing to wait for.
pub proof fn lemma_drain_before_rows(p: PipelineModel, pq: PendingQuery, c: ChannelModel)
    requires
        c.rows.len() == 0,
        !c.closed,
        c.failure is None,
        pq.cursor == 0,
    ensures
        spec_drain(p, pq, c).0 == p,
        spec_drain(p, pq, c).1 == pq,
        spec_drain(p, pq, c).2 == Seq::<RowModel>::empty(),
        spec_status(c) == StatusModel::Pending,
{
    assert(c.rows.subrange(0, 0) =~= Seq::<RowModel>::empty());
    if pq.gen == p.gen {
        assert(p.results + Seq::<RowModel>::empty() =~= p.results);
        assert(spec_drain(p, pq, c).0 =~= p);
    }
}

/// Law: a drain on behalf of a superseded query never touches the
/// visible results — a stale worker's rows are consumed and dropped.
pub proof fn lemma_stale_drain_no_effect(p: PipelineModel, pq: PendingQuery, c: ChannelModel)
    requires
        pq.gen != p.gen,
    ensures
        spec_drain(p, pq, c).0 == p,
        spec_drain(p, pq, c).2 == Seq::<RowModel>::empty(),
{
}

/// Law: starting query B while query A is still pending supersedes A.
/// A's pending query is no longer current, so none of its drains — with
/// whatever its worker still emits — can ever reach the visible results,
/// while B starts synchronized with its own fresh channel.
pub proof fn lemma_supersede(p: PipelineModel, pq_a: PendingQuery, c_a: ChannelModel, c_b: ChannelModel)
    requires
        pq_a.gen == p.gen,
        p.gen < u64::MAX,
        c_b.rows.len() == 0,
    ensures
        spec_start(p).1.gen != pq_a.gen,
        spec_drain(spec_start(p).0, pq_a, c_a).0 == spec_start(p).0,
        spec_drain(spec_start(p).0, pq_a, c_a).2 == Seq::<RowModel>::empty(),
        synced(spec_start(p).0, spec_start(p).1, c_b),
{
    lemma_stale_drain_no_effect(spec_start(p).0, pq_a, c_a);
    lemma_start_establishes_sync(p, c_b);
}

/// Successive snapshots of one channel, each taken at a poll: folding
/// `drain` over them.
pub open spec fn run_drains(p: PipelineModel, pq: PendingQuery, cs: Seq<ChannelModel>) -> (
    PipelineModel,
    PendingQuery,
)
    decreases cs.len(),
{
    if cs.len() == 0 {
        (p, pq)
    } else {
        let step = spec_drain(p, pq, cs[0]);
        run_drains(step.0, step.1, cs.skip(1))
    }
}

/// Law: over any interleaving of polling and production — any chain of
/// channel snapshots, each extending the one before — the visible result
/// collection ends as exactly the worker's emissions, in emission order.
pub proof fn lemma_drains_in_order(p: PipelineModel, pq: PendingQuery, cs: Seq<ChannelModel>)
    requires
        cs.len() > 0,
        synced(p, pq, cs[0]),
        forall|i: int| 0 <= i < cs.len() ==> #[trigger] cs[i].rows.len() <= usize::MAX,
        forall|i: int| 0 <= i < cs.len() - 1 ==> #[trigger] cs[i].rows.is_prefix_of(cs[i + 1].rows),
    ensures
        run_drains(p, pq, cs).0.results == cs.last().rows,
        synced(run_drains(p, pq, cs).0, run_drains(p, pq, cs).1, cs.last()),
    decreases cs.len(),
{
    let step = spec_drain(p, pq, cs[0]);
    lemma_drain_preserves_sync(p, pq, cs[0]);
    if cs.len() == 1 {
        assert(cs.skip(1).len() == 0);
        assert(run_drains(step.0, step.1, cs.skip(1)) == (step.0, step.1));
        assert(cs.last() == cs[0]);
    } else {
        assert(cs[0].rows.is_prefix_of(cs[1].rows));
        assert(cs.skip(1)[0] == cs[1]);
        lemma_extend_preserves_sync(step.0, step.1, cs[0], cs.skip(1)[0]);
        assert forall|i: int| 0 <= i < cs.skip(1).len() implies #[trigger] cs.skip(1)[i].rows.len()
            <= usize::MAX by {
            assert(cs.skip(1)[i] == cs[i + 1]);
        }
        assert forall|i: int|
            0 <= i < cs.skip(1).len() - 1 implies #[trigger] cs.skip(1)[i].rows.is_prefix_of(
            cs.skip(1)[i + 1].rows,
        ) by {
            assert(cs.skip(1)[i] == cs[i + 1]);
            assert(cs.skip(1)[i + 1] == cs[i + 2]);
        }
        lemma_drains_in_order(step.0, step.1, cs.skip(1));
        assert(run_drains(p, pq, cs) == run_drains(step.0, step.1, cs.skip(1)));
        assert(cs.skip(1).last() == cs.last());
    }
}

} // verus!
