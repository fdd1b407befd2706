//! The `logs` commands: their arguments, the shared list parsers, and the
//! decisions of `logs search` (its request and its paging).

use vstd::prelude::*;
use crate::logs::{Page, SearchFilter, SearchRequest, StorageTier, tier_named, tier_error, opt_view};
use crate::text::{
    chars_of, split_trim_nonempty, string_from_chars, string_views, trim, trim_str,
    trimmed_pieces,
};
use crate::time_spec::{
    normalize, normalize_spec, relative_admissible, outcome, time_input_admissible, TimeError, TimeFault,
};

verus! {

/// Arguments of `logs search`.
#[derive(Debug)]
pub struct SearchArgs {
    pub query: Option<String>,
    pub from: String,
    pub to: String,
    pub limit: u32,
    pub max: u32,
    pub sort: String,
    pub index: Option<String>,
    pub fields: Option<String>,
    pub storage: String,
}

/// Arguments of `logs tail`.
#[derive(Debug)]
pub struct TailArgs {
    pub query: Option<String>,
    pub interval: String,
    pub since: String,
    pub index: Option<String>,
    pub fields: Option<String>,
    pub storage: String,
    pub batch: u32,
}

/// Arguments of `logs get`.
#[derive(Debug)]
pub struct GetArgs {
    pub event_id: String,
    pub index: Option<String>,
    pub fields: Option<String>,
}

/// Arguments of `logs aggregate`.
#[derive(Debug)]
pub struct AggregateArgs {
    pub query: Option<String>,
    pub from: String,
    pub to: String,
    pub index: Option<String>,
    pub storage: String,
    pub group_by: Vec<String>,
    pub group_limit: u32,
    pub measure: Vec<String>,
    pub interval: Option<String>,
}

/// Arguments of `logs facets`.
#[derive(Debug)]
pub struct FacetsArgs {
    pub prefix: Option<String>,
}

/// The `logs` subcommand to run.
#[derive(Debug)]
pub enum LogsCommand {
    Search(SearchArgs),
    Tail(TailArgs),
    Get(GetArgs),
    Aggregate(AggregateArgs),
    Facets(FacetsArgs),
}

/// Arguments of `logs`.
#[derive(Debug)]
pub struct LogsArgs {
    pub command: LogsCommand,
}

/// Why a command's arguments were refused.
#[derive(Debug)]
pub enum CliError {
    /// An unknown storage tier, with its message.
    Storage(String),
    /// A bad time or duration.
    Time(TimeError),
    /// A bad `--measure`, with its message.
    Measure(String),
    /// A bad tail poll interval, with its message.
    Interval(String),
    /// The command is not available yet, with its message.
    Unsupported(String),
    /// The current time could not be written as RFC-3339.
    Clock,
    /// A required argument is missing, with its message.
    Missing(String),
}

/// The message of `logs facets`, which is not implemented yet.
pub fn facets_unsupported() -> (r: CliError)
    ensures
        r matches CliError::Unsupported(m) && m@ == "`ddog logs facets` is not yet implemented (planned for v0.2)"@,
{
    CliError::Unsupported("`ddog logs facets` is not yet implemented (planned for v0.2)".to_owned())
}

// ---- Lists ----------------------------------------------------------------------

/// The views of a vector of strings.
pub open spec fn views(v: Vec<String>) -> Seq<Seq<char>> {
    string_views(v@)
}

/// A comma-separated list: its trimmed, non-empty items.
pub open spec fn comma_list(s: Seq<char>) -> Seq<Seq<char>> {
    trimmed_pieces(s, ',')
}

/// Comma-separated attribute paths; none when the flag is absent.
pub fn parse_fields(raw: Option<String>) -> (r: Vec<String>)
    ensures
        raw matches Some(s) ==> views(r) == comma_list(s@),
        raw is None ==> r@.len() == 0,
{
    match raw {
        Some(s) => {
            let r = split_trim_nonempty(s.as_str(), ',');
            assert(views(r) =~= comma_list(s@));
            r
        },
        None => Vec::new(),
    }
}

/// Comma-separated index names; `None` when the flag is absent.
pub fn parse_indexes(raw: Option<String>) -> (r: Option<Vec<String>>)
    ensures
        raw matches Some(s) ==> (r matches Some(v) && views(v) == comma_list(s@)),
        raw is None ==> r is None,
{
    match raw {
        Some(s) => {
            let r = split_trim_nonempty(s.as_str(), ',');
            assert(views(r) =~= comma_list(s@));
            Some(r)
        },
        None => None,
    }
}

// ---- The query ---------------------------------------------------------------------

/// The query given as an argument, when it is not empty.
pub fn query_from_arg(cli_query: Option<String>) -> (r: Option<String>)
    ensures
        r matches Some(q) ==> cli_query == Some(q) && q@.len() > 0,
        r is None ==> (cli_query matches Some(q) ==> q@.len() == 0),
{
    match cli_query {
        Some(q) => if !q.as_str().is_empty() {
            Some(q)
        } else {
            None
        },
        None => None,
    }
}

/// The query read from standard input: its trimmed text, when not empty.
pub fn query_from_input(text: &str) -> (r: Option<String>)
    ensures
        trim(text@).len() == 0 ==> r is None,
        trim(text@).len() > 0 ==> (r matches Some(q) && q@ == trim(text@)),
{
    let t = trim_str(text);
    if t.len() == 0 {
        None
    } else {
        Some(string_from_chars(t.as_slice()))
    }
}

// ---- Search ------------------------------------------------------------------------

/// The page size `n` kept within `1..=1000`.
pub open spec fn clamp_limit(n: int) -> int {
    if n < 1 {
        1
    } else if n > 1000 {
        1000
    } else {
        n
    }
}

/// `n.clamp(1, 1000)`.
pub fn clamp_page_limit(n: u32) -> (r: u32)
    ensures
        r == clamp_limit(n as int),
{
    if n < 1 {
        1
    } else if n > 1000 {
        1000
    } else {
        n
    }
}

/// Everything `logs search` derives from its arguments before it sends a
/// request.
#[derive(Debug)]
pub struct SearchPlan {
    pub query: Option<String>,
    pub storage: StorageTier,
    pub from: String,
    pub to: String,
    pub fields: Vec<String>,
    pub indexes: Option<Vec<String>>,
    pub limit: u32,
    pub sort: String,
    pub max: u32,
}

/// Converts a storage tier name, as the commands do.
pub fn storage_of(s: &str) -> (r: Result<StorageTier, CliError>)
    ensures
        tier_named(s@) matches Some(t) ==> r matches Ok(x) && x == t,
        tier_named(s@) is None ==> (r matches Err(CliError::Storage(m)) && m@ == tier_error(s@)),
{
    match StorageTier::parse(s) {
        Ok(t) => Ok(t),
        Err(m) => Err(CliError::Storage(m)),
    }
}

/// Normalizes a time for the logs API, as the commands do.
pub fn time_of(s: &str) -> (r: Result<String, CliError>)
    requires
        relative_admissible(trim(s@)),
    ensures
        normalize_spec(s@) matches Ok(t) ==> (r matches Ok(x) && x@ == t),
        normalize_spec(s@) matches Err(f) ==> (r matches Err(CliError::Time(e)) && e@ == f),
{
    match normalize(s) {
        Ok(t) => Ok(t),
        Err(e) => Err(CliError::Time(e)),
    }
}

/// What [`plan_search`] gives: the first failing check (storage tier,
/// `--from`, `--to`) as its error; otherwise the plan with the normalized
/// window, the fields, the indexes and the clamped page size.
pub open spec fn search_outcome(args: SearchArgs, query: Option<String>, r: Result<SearchPlan, CliError>) -> bool {
    &&& (tier_named(args.storage@) is None ==> (r matches Err(CliError::Storage(m)) && m@
        == tier_error(args.storage@)))
    &&& (tier_named(args.storage@) is Some ==> (normalize_spec(args.from@) matches Err(f) ==> (
    r matches Err(CliError::Time(e)) && e@ == f)))
    &&& (tier_named(args.storage@) is Some && normalize_spec(args.from@) is Ok ==> (normalize_spec(
        args.to@,
    ) matches Err(f) ==> (r matches Err(CliError::Time(e)) && e@ == f)))
    &&& (r matches Ok(p) ==> {
        &&& tier_named(args.storage@) == Some(p.storage)
        &&& normalize_spec(args.from@) == Ok::<Seq<char>, TimeFault>(p.from@)
        &&& normalize_spec(args.to@) == Ok::<Seq<char>, TimeFault>(p.to@)
        &&& p.query == query
        &&& (args.fields matches Some(f) ==> views(p.fields) == comma_list(f@))
        &&& (args.fields is None ==> p.fields@.len() == 0)
        &&& (args.index matches Some(i) ==> (p.indexes matches Some(v) && views(v) == comma_list(i@)))
        &&& (args.index is None ==> p.indexes is None)
        &&& p.limit == clamp_limit(args.limit as int)
        &&& p.sort == args.sort
        &&& p.max == args.max
    })
    &&& (tier_named(args.storage@) is Some && normalize_spec(args.from@) is Ok && normalize_spec(
        args.to@,
    ) is Ok ==> r is Ok)
}

/// The inputs on which `logs search` runs without panicking: each time must
/// split at its last character, checked only once the checks before it have
/// passed.
pub open spec fn search_admissible(args: SearchArgs) -> bool {
    tier_named(args.storage@) is Some ==> {
        &&& relative_admissible(trim(args.from@))
        &&& (normalize_spec(args.from@) is Ok ==> relative_admissible(trim(args.to@)))
    }
}

/// Checks `logs search`'s arguments in the order the command does: the
/// storage tier, then `--from`, then `--to`.
pub fn plan_search(args: SearchArgs, query: Option<String>) -> (r: Result<SearchPlan, CliError>)
    requires
        search_admissible(args),
    ensures
        search_outcome(args, query, r),
{
    let storage = storage_of(args.storage.as_str())?;
    let from = time_of(args.from.as_str())?;
    let to = time_of(args.to.as_str())?;
    let fields = parse_fields(args.fields);
    let indexes = parse_indexes(args.index);
    let limit = clamp_page_limit(args.limit);
    Ok(SearchPlan { query, storage, from, to, fields, indexes, limit, sort: args.sort, max: args.max })
}

/// The request for one page of a search.
pub fn search_page_request(plan: &SearchPlan, cursor: Option<String>) -> (r: SearchRequest)
    ensures
        opt_view(r.filter.from) == Some(plan.from@),
        opt_view(r.filter.to) == Some(plan.to@),
        opt_view(r.filter.query) == opt_view(plan.query),
        r.filter.indexes matches Some(v) ==> (plan.indexes matches Some(w) && views(v) == views(w)),
        r.filter.indexes is None <==> plan.indexes is None,
        r.filter.storage_tier == Some(plan.storage),
        r.page matches Some(p) && p.limit == Some(plan.limit) && opt_view(p.cursor) == opt_view(cursor),
        opt_view(r.sort) == Some(plan.sort@),
        r.options is None,
{
    SearchRequest {
        filter: SearchFilter {
            from: Some(plan.from.clone()),
            to: Some(plan.to.clone()),
            query: clone_opt(&plan.query),
            indexes: clone_opt_list(&plan.indexes),
            storage_tier: Some(plan.storage),
        },
        page: Some(Page { cursor, limit: Some(plan.limit) }),
        sort: Some(plan.sort.clone()),
        options: None,
    }
}

/// A copy of an optional string.
pub fn clone_opt(o: &Option<String>) -> (r: Option<String>)
    ensures
        opt_view(r) == opt_view(*o),
{
    match o {
        Some(s) => Some(s.clone()),
        None => None,
    }
}

/// A copy of a list of strings.
pub fn clone_list(v: &Vec<String>) -> (r: Vec<String>)
    ensures
        views(r) == views(*v),
{
    let mut r: Vec<String> = Vec::new();
    let mut i: usize = 0;
    while i < v.len()
        invariant
            i <= v@.len(),
            r@.len() == i,
            forall|k: int| 0 <= k < i ==> #[trigger] r@[k]@ == v@[k]@,
        decreases v@.len() - i,
    {
        r.push(v[i].clone());
        i = i + 1;
    }
    assert(views(r) =~= views(*v));
    r
}

/// A copy of an optional list of strings.
pub fn clone_opt_list(o: &Option<Vec<String>>) -> (r: Option<Vec<String>>)
    ensures
        r matches Some(v) ==> (*o matches Some(w) && views(v) == views(w)),
        r is None <==> o is None,
{
    match o {
        Some(v) => Some(clone_list(v)),
        None => None,
    }
}

/// The paging state of `logs search`: the cursor of the next page, the
/// events emitted so far, and the cap (`0` for none).
#[derive(Debug)]
pub struct SearchPager {
    pub cursor: Option<String>,
    pub total: u32,
    pub max: u32,
}

impl SearchPager {
    /// The pager is consistent: under a cap, fewer events than the cap were
    /// emitted.
    pub open spec fn wf(&self) -> bool {
        self.max == 0 || self.total < self.max
    }

    /// How many events of a page of `n` are emitted before the cap is hit.
    pub open spec fn take_of(&self, n: int) -> int {
        if self.max == 0 || n <= self.max - self.total {
            n
        } else {
            self.max - self.total
        }
    }

    /// A pager at the first page.
    pub fn new(max: u32) -> (r: Self)
        ensures
            r.wf(),
            r.cursor is None,
            r.total == 0,
            r.max == max,
    {
        SearchPager { cursor: None, total: 0, max }
    }

    /// After a page of `n` events with next-page cursor `next`: returns how
    /// many of them to emit and whether to fetch another page. Paging stops
    /// at the cap or when there is no (non-empty) cursor.
    pub fn on_page(&mut self, n: usize, next: Option<String>) -> (r: (usize, bool))
        requires
            old(self).wf(),
            old(self).max != 0 || old(self).total + n <= u32::MAX,
        ensures
            r.0 == old(self).take_of(n as int),
            final(self).total == old(self).total + r.0,
            final(self).max == old(self).max,
            r.1 == (!(final(self).max != 0 && final(self).total >= final(self).max) && (next matches Some(c) && c@.len() > 0)),
            r.1 ==> final(self).wf() && opt_view(final(self).cursor) == opt_view(next),
            old(self).max != 0 ==> final(self).total <= old(self).max,
    {
        let take: usize = if self.max == 0 || n as u64 <= (self.max - self.total) as u64 {
            n
        } else {
            (self.max - self.total) as usize
        };
        self.total = self.total + take as u32;
        if self.max != 0 && self.total >= self.max {
            return (take, false);
        }
        match next {
            Some(c) => if !c.as_str().is_empty() {
                self.cursor = Some(c);
                (take, true)
            } else {
                (take, false)
            },
            None => (take, false),
        }
    }
}

/// Under a cap, a search never emits more events than the cap, whatever the
/// pages hold.
pub proof fn search_respects_max(p: SearchPager, n: int)
    requires
        p.wf(),
        p.max != 0,
        n >= 0,
    ensures
        p.total + p.take_of(n) <= p.max,
{
}

/// Whether `logs search` runs on these arguments without panicking.
pub fn search_input_admissible(args: &SearchArgs) -> (b: bool)
    ensures
        b == search_admissible(*args),
{
    if storage_of(args.storage.as_str()).is_err() {
        return true;
    }
    if !time_input_admissible(args.from.as_str()) {
        return false;
    }
    if normalize(args.from.as_str()).is_err() {
        return true;
    }
    time_input_admissible(args.to.as_str())
}

/// The plan of `logs search`, or `None` on the arguments on which the
/// command panics (a time that does not split at its last character, once
/// the checks before it have passed).
pub fn plan_search_checked(args: SearchArgs, query: Option<String>) -> (r: Option<
    Result<SearchPlan, CliError>,
>)
    ensures
        r is None <==> !search_admissible(args),
        r matches Some(x) ==> search_outcome(args, query, x),
{
    if search_input_admissible(&args) {
        Some(plan_search(args, query))
    } else {
        None
    }
}

} // verus!
