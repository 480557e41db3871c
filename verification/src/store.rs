//! A plain-value model of the mail store: the conditions that decide
//! whether an open attempt succeeds, the threads a search iterates, and
//! the fragment of the search language this client emits.

use vstd::prelude::*;

verus! {

/// The observable condition of the mail store at the manager's configured
/// path, sampled at the moment an open is attempted. The store itself is
/// an outside capability; these four facts are all the open decision reads.
#[derive(Clone, Copy, PartialEq, Eq, Structural, Debug)]
pub struct StoreStatus {
    /// A store exists at the path.
    pub present: bool,
    /// The caller may read the store's files.
    pub accessible: bool,
    /// Another writer currently holds the store's write lock.
    pub write_locked: bool,
    /// The index is not corrupt.
    pub intact: bool,
}

/// One mail thread as the store's search iterates it.
pub struct ThreadEntry {
    pub id: String,
    pub subject: String,
    pub total_messages: u32,
    pub authors: Vec<String>,
    /// Epoch seconds of the oldest message in the thread.
    pub oldest_date: i64,
    /// Epoch seconds of the newest message in the thread.
    pub newest_date: i64,
    /// Tags attached to the thread, matched by `tag:` queries.
    pub tags: Vec<String>,
}

/// Mathematical image of a `ThreadEntry`.
#[verifier::ext_equal]
pub struct EntryModel {
    pub id: Seq<char>,
    pub subject: Seq<char>,
    pub total_messages: u32,
    pub authors: Seq<Seq<char>>,
    pub oldest_date: i64,
    pub newest_date: i64,
    pub tags: Seq<Seq<char>>,
}

impl View for ThreadEntry {
    type V = EntryModel;

    open spec fn view(&self) -> EntryModel {
        EntryModel {
            id: self.id@,
            subject: self.subject@,
            total_messages: self.total_messages,
            authors: self.authors.deep_view(),
            oldest_date: self.oldest_date,
            newest_date: self.newest_date,
            tags: self.tags.deep_view(),
        }
    }
}

impl DeepView for ThreadEntry {
    type V = EntryModel;

    open spec fn deep_view(&self) -> EntryModel {
        self.view()
    }
}

/// A thread's dates are ordered: the oldest message is no newer than the
/// newest one.
pub open spec fn entry_wf(e: EntryModel) -> bool {
    e.oldest_date <= e.newest_date
}

/// The mail store's content: the threads its search iterates, in the
/// store's own order.
pub struct Store {
    pub threads: Vec<ThreadEntry>,
}

impl View for Store {
    type V = Seq<EntryModel>;

    open spec fn view(&self) -> Seq<EntryModel> {
        self.threads.deep_view()
    }
}

/// Every thread in the store has ordered dates.
pub open spec fn store_wf(threads: Seq<EntryModel>) -> bool {
    forall|i: int| 0 <= i < threads.len() ==> entry_wf(#[trigger] threads[i])
}

/// A query expression the store refused as malformed.
#[derive(Clone, Copy, PartialEq, Eq, Structural, Debug)]
pub enum QueryError {
    Malformed,
}

/// A parsed query expression. The store's search language, as this
/// client exercises it, has two forms: the empty expression, which
/// matches every thread, and `tag:<name>`, which matches the threads
/// carrying that tag. Anything else the store refuses as malformed.
pub enum QueryPlan {
    /// The empty expression: every thread matches.
    All,
    /// `tag:<name>`: the threads tagged `<name>` match.
    Tag(String),
    /// An expression outside the store's language.
    Malformed,
}

/// Mathematical image of a `QueryPlan`.
pub enum PlanModel {
    All,
    Tag(Seq<char>),
    Malformed,
}

impl View for QueryPlan {
    type V = PlanModel;

    open spec fn view(&self) -> PlanModel {
        match self {
            QueryPlan::All => PlanModel::All,
            QueryPlan::Tag(t) => PlanModel::Tag(t@),
            QueryPlan::Malformed => PlanModel::Malformed,
        }
    }
}

/// How the store reads a query expression: empty means "all threads";
/// `tag:` followed by a nonempty name searches that tag; everything else
/// is malformed.
pub open spec fn spec_parse(q: Seq<char>) -> PlanModel {
    if q.len() == 0 {
        PlanModel::All
    } else if q.len() > 4 && q[0] == 't' && q[1] == 'a' && q[2] == 'g' && q[3] == ':' {
        PlanModel::Tag(q.skip(4))
    } else {
        PlanModel::Malformed
    }
}

/// Parse a query expression into the store's plan for it.
pub fn parse_query(expr: &str) -> (p: QueryPlan)
    ensures
        p@ == spec_parse(expr@),
{
    let n: usize = expr.unicode_len();
    if n == 0 {
        QueryPlan::All
    } else if n > 4 && expr.get_char(0) == 't' && expr.get_char(1) == 'a' && expr.get_char(2)
        == 'g' && expr.get_char(3) == ':' {
        let tag = expr.substring_char(4, n).to_owned();
        proof {
            assert(tag@ =~= expr@.skip(4));
        }
        QueryPlan::Tag(tag)
    } else {
        QueryPlan::Malformed
    }
}

/// The expression the UI builds when a tag is selected: `tag:<name>` for
/// a chosen tag, the match-all empty expression when the selection is
/// cleared.
pub fn query_for_tag(tag: Option<&String>) -> (q: String)
    ensures
        tag matches Some(t) ==> q@ == seq!['t', 'a', 'g', ':'] + t@,
        tag is None ==> q@ == Seq::<char>::empty(),
{
    match tag {
        None => String::new(),
        Some(t) => {
            proof {
                reveal_strlit("tag:");
                assert(("tag:")@ =~= seq!['t', 'a', 'g', ':']);
            }
            let mut q = String::from_str("tag:");
            q.append(t.as_str());
            q
        },
    }
}

/// Law: the expression built for a selected tag parses back to a search
/// for exactly that tag — the UI side and the store side of the query
/// language agree.
pub proof fn lemma_parse_tag_query(t: Seq<char>)
    requires
        t.len() > 0,
    ensures
        spec_parse(seq!['t', 'a', 'g', ':'] + t) == PlanModel::Tag(t),
{
    let q = seq!['t', 'a', 'g', ':'] + t;
    assert(q[0] == 't' && q[1] == 'a' && q[2] == 'g' && q[3] == ':');
    assert(q.skip(4) =~= t);
}

/// Law: the empty expression is a valid query and means "all threads" —
/// it is never rejected.
pub proof fn lemma_parse_empty_query()
    ensures
        spec_parse(Seq::<char>::empty()) == PlanModel::All,
{
}

/// Whether a thread carries the tag `t`.
pub open spec fn entry_has_tag(e: EntryModel, t: Seq<char>) -> bool {
    exists|i: int| 0 <= i < e.tags.len() && e.tags[i] == t
}

/// Whether a thread matches a parsed query. A malformed plan matches
/// nothing; it never reaches a search, because `start` refuses it first.
pub open spec fn spec_matches(e: EntryModel, p: PlanModel) -> bool {
    match p {
        PlanModel::All => true,
        PlanModel::Tag(t) => entry_has_tag(e, t),
        PlanModel::Malformed => false,
    }
}

/// Decide whether one iterated thread matches the plan.
pub fn entry_matches(e: &ThreadEntry, p: &QueryPlan) -> (b: bool)
    ensures
        b == spec_matches(e@, p@),
{
    match p {
        QueryPlan::All => true,
        QueryPlan::Tag(t) => has_tag(e, t),
        QueryPlan::Malformed => false,
    }
}

/// Walk the thread's tags looking for `t`.
fn has_tag(e: &ThreadEntry, t: &String) -> (b: bool)
    ensures
        b == entry_has_tag(e@, t@),
{
    let n: usize = e.tags.len();
    let mut i: usize = 0;
    while i < n
        invariant
            n == e.tags.len(),
            0 <= i <= n,
            forall|j: int| 0 <= j < i ==> e.tags@[j]@ != t@,
        decreases n - i,
    {
        if e.tags[i].eq(t) {
            assert(e@.tags[i as int] == t@);
            return true;
        }
        i = i + 1;
    }
    assert forall|j: int| 0 <= j < e@.tags.len() implies e@.tags[j] != t@ by {
        assert(e@.tags[j] == e.tags@[j]@);
    }
    false
}

} // verus!
