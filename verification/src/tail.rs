//! `logs tail`: the poll interval, the first window, the poll request, and
//! de-duplication of events across overlapping polls.

use vstd::prelude::*;
use crate::logs::{Page, SearchFilter, SearchRequest, StorageTier, opt_view, tier_named, tier_error};
use crate::logs_cli::{
    CliError, TailArgs, clamp_limit, clamp_page_limit, clone_opt, clone_opt_list, comma_list,
    parse_fields, parse_indexes, storage_of, time_of, views,
};
use crate::text::{
    chars_eq, chars_eq_str, chars_of, parse_u64, parse_u64_chars, push_str, slice_chars,
    string_from_chars, trim, trim_str,
};
use crate::time_spec::{
    normalize_spec, now_rfc3339, now_word, relative_admissible, splits_cleanly, TimeFault,
};

verus! {

// ---- The poll interval ----------------------------------------------------------------

/// Seconds per unit for poll intervals: `s`, `m`, `h`.
pub open spec fn poll_unit_secs(u: char) -> Option<int> {
    if u == 's' {
        Some(1)
    } else if u == 'm' {
        Some(60)
    } else if u == 'h' {
        Some(3600)
    } else {
        None
    }
}

/// Why a poll interval was refused, as its message.
pub open spec fn interval_error(raw: Seq<char>) -> Option<Seq<char>> {
    let s = trim(raw);
    if s.len() == 0 {
        Some("empty duration"@)
    } else if parse_u64(s.drop_last()) is None {
        Some("invalid duration '"@ + raw + "' (expected e.g. 2s, 30s, 1m)"@)
    } else if poll_unit_secs(s.last()) is None {
        Some("invalid duration unit '"@ + seq![s.last()] + "' (use s|m|h)"@)
    } else {
        None
    }
}

/// The seconds a well-formed poll interval denotes.
pub open spec fn interval_secs(raw: Seq<char>) -> int {
    let s = trim(raw);
    parse_u64(s.drop_last()).unwrap() * poll_unit_secs(s.last()).unwrap()
}

/// The inputs on which [`parse_duration`] runs without panicking.
pub open spec fn interval_admissible(raw: Seq<char>) -> bool {
    &&& splits_cleanly(trim(raw))
    &&& (interval_error(raw) is None ==> interval_secs(raw) <= u64::MAX)
}

/// Parses a poll interval like `2s`, `30s`, `1m`, `1h` into seconds.
pub fn parse_duration(raw: &str) -> (r: Result<u64, CliError>)
    requires
        interval_admissible(raw@),
    ensures
        interval_error(raw@) matches Some(m) ==> (r matches Err(CliError::Interval(x)) && x@ == m),
        interval_error(raw@) is None ==> r == Ok::<u64, CliError>(interval_secs(raw@) as u64),
{
    let s = trim_str(raw);
    let n = s.len();
    if n == 0 {
        return Err(CliError::Interval("empty duration".to_owned()));
    }
    let num = slice_chars(s.as_slice(), 0, n - 1);
    assert(num@ =~= s@.drop_last());
    let v = match parse_u64_chars(num.as_slice()) {
        Some(v) => v,
        None => {
            let mut m: Vec<char> = Vec::new();
            push_str(&mut m, "invalid duration '");
            push_str(&mut m, raw);
            push_str(&mut m, "' (expected e.g. 2s, 30s, 1m)");
            return Err(CliError::Interval(string_from_chars(m.as_slice())));
        },
    };
    let u = s[n - 1];
    if u == 's' {
        Ok(v)
    } else if u == 'm' {
        Ok(v * 60)
    } else if u == 'h' {
        Ok(v * 3600)
    } else {
        let mut m: Vec<char> = Vec::new();
        push_str(&mut m, "invalid duration unit '");
        m.push(u);
        push_str(&mut m, "' (use s|m|h)");
        assert(m@ =~= "invalid duration unit '"@ + seq![u] + "' (use s|m|h)"@);
        Err(CliError::Interval(string_from_chars(m.as_slice())))
    }
}

/// Whether a poll interval may be handed to [`parse_duration`].
pub fn interval_input_admissible(raw: &str) -> (b: bool)
    ensures
        b == interval_admissible(raw@),
{
    let s = trim_str(raw);
    let n = s.len();
    if n == 0 {
        return true;
    }
    if (s[n - 1] as u32) >= 128 {
        return false;
    }
    let num = slice_chars(s.as_slice(), 0, n - 1);
    assert(num@ =~= s@.drop_last());
    match parse_u64_chars(num.as_slice()) {
        None => true,
        Some(v) => {
            let u = s[n - 1];
            if u == 's' {
                true
            } else if u == 'm' {
                v <= u64::MAX / 60
            } else if u == 'h' {
                v <= u64::MAX / 3600
            } else {
                true
            }
        },
    }
}

/// The poll interval in seconds: the parsed interval, at least two seconds.
pub fn poll_interval_secs(raw: &str) -> (r: Result<u64, CliError>)
    requires
        interval_admissible(raw@),
    ensures
        interval_error(raw@) matches Some(m) ==> (r matches Err(CliError::Interval(x)) && x@ == m),
        interval_error(raw@) is None ==> r == Ok::<u64, CliError>(
            if interval_secs(raw@) < 2 {
                2
            } else {
                interval_secs(raw@) as u64
            },
        ),
{
    let secs = parse_duration(raw)?;
    Ok(if secs < 2 {
        2
    } else {
        secs
    })
}

// ---- The first window -------------------------------------------------------------------

/// The start of the first poll: the normalized `--since`, with `now`
/// replaced by the current time `now_text`.
pub open spec fn since_spec(raw: Seq<char>, now_text: Seq<char>) -> Result<Seq<char>, TimeFault> {
    match normalize_spec(raw) {
        Ok(t) => if t == now_word() {
            Ok(now_text)
        } else {
            Ok(t)
        },
        Err(f) => Err(f),
    }
}

/// Resolves `--since` against the given current time.
pub fn resolve_since_at(raw: &str, now_text: String) -> (r: Result<String, CliError>)
    requires
        relative_admissible(trim(raw@)),
    ensures
        since_spec(raw@, now_text@) matches Ok(t) ==> (r matches Ok(x) && x@ == t),
        since_spec(raw@, now_text@) matches Err(f) ==> (r matches Err(CliError::Time(e)) && e@ == f),
{
    let normalized = time_of(raw)?;
    let v = chars_of(normalized.as_str());
    if chars_eq_str(v.as_slice(), "now") {
        proof {
            reveal_strlit("now");
            assert("now"@ =~= now_word());
        }
        Ok(now_text)
    } else {
        proof {
            reveal_strlit("now");
            assert("now"@ =~= now_word());
        }
        Ok(normalized)
    }
}

/// Resolves `--since`: the normalized time, with `now` replaced by the
/// current time read from the clock. The clock is read only for `now`;
/// nothing is promised of its value, and `Clock` is the error when it could
/// not be written.
pub fn resolve_since(raw: &str) -> (r: Result<String, CliError>)
    requires
        relative_admissible(trim(raw@)),
    ensures
        normalize_spec(raw@) matches Err(f) ==> (r matches Err(CliError::Time(e)) && e@ == f),
        normalize_spec(raw@) matches Ok(t) ==> (t != now_word() ==> (r matches Ok(x) && x@ == t)),
        normalize_spec(raw@) == Ok::<Seq<char>, TimeFault>(now_word()) ==> (r is Ok || r matches Err(
            CliError::Clock,
        )),
        r matches Ok(x) ==> exists|now: Seq<char>| #[trigger] since_spec(raw@, now) == Ok::<Seq<char>, TimeFault>(x@),
{
    let normalized = time_of(raw)?;
    let v = chars_of(normalized.as_str());
    proof {
        reveal_strlit("now");
        assert("now"@ =~= now_word());
    }
    if chars_eq_str(v.as_slice(), "now") {
        match now_rfc3339() {
            Some(now) => {
                assert(since_spec(raw@, now@) == Ok::<Seq<char>, TimeFault>(now@));
                Ok(now)
            },
            None => Err(CliError::Clock),
        }
    } else {
        assert(since_spec(raw@, seq![]) == Ok::<Seq<char>, TimeFault>(normalized@));
        Ok(normalized)
    }
}

// ---- The poll request -----------------------------------------------------------------------

/// Everything `logs tail` derives from its arguments before polling.
#[derive(Debug)]
pub struct TailPlan {
    pub interval_secs: u64,
    pub storage: StorageTier,
    pub fields: Vec<String>,
    pub indexes: Option<Vec<String>>,
    pub query: Option<String>,
    pub batch: u32,
}

/// Checks `logs tail`'s arguments in the order the command does: the
/// interval, then the storage tier.
pub fn plan_tail(args: TailArgs) -> (r: Result<TailPlan, CliError>)
    requires
        interval_admissible(args.interval@),
    ensures
        interval_error(args.interval@) matches Some(m) ==> (r matches Err(CliError::Interval(x)) && x@ == m),
        interval_error(args.interval@) is None ==> (tier_named(args.storage@) is None ==> (r matches Err(
            CliError::Storage(m),
        ) && m@ == tier_error(args.storage@))),
        r is Ok <==> interval_error(args.interval@) is None && tier_named(args.storage@) is Some,
        r matches Ok(p) ==> {
            &&& p.interval_secs == (if interval_secs(args.interval@) < 2 {
                2
            } else {
                interval_secs(args.interval@)
            })
            &&& tier_named(args.storage@) == Some(p.storage)
            &&& (args.fields matches Some(f) ==> views(p.fields) == comma_list(f@))
            &&& (args.fields is None ==> p.fields@.len() == 0)
            &&& (args.index matches Some(i) ==> (p.indexes matches Some(v) && views(v) == comma_list(i@)))
            &&& (args.index is None ==> p.indexes is None)
            &&& p.query == args.query
            &&& p.batch == clamp_limit(args.batch as int)
        },
{
    let interval_secs = poll_interval_secs(args.interval.as_str())?;
    let storage = storage_of(args.storage.as_str())?;
    let fields = parse_fields(args.fields);
    let indexes = parse_indexes(args.index);
    Ok(TailPlan {
        interval_secs,
        storage,
        fields,
        indexes,
        query: args.query,
        batch: clamp_page_limit(args.batch),
    })
}

/// The request of one poll: events from `from` to `to`, oldest first.
pub fn tail_request(plan: &TailPlan, from: &str, to: &str) -> (r: SearchRequest)
    ensures
        opt_view(r.filter.from) == Some(from@),
        opt_view(r.filter.to) == Some(to@),
        opt_view(r.filter.query) == opt_view(plan.query),
        r.filter.indexes matches Some(v) ==> (plan.indexes matches Some(w) && views(v) == views(w)),
        r.filter.indexes is None <==> plan.indexes is None,
        r.filter.storage_tier == Some(plan.storage),
        r.page matches Some(p) && p.limit == Some(plan.batch) && p.cursor is None,
        opt_view(r.sort) == Some("timestamp"@),
        r.options is None,
{
    SearchRequest {
        filter: SearchFilter {
            from: Some(from.to_owned()),
            to: Some(to.to_owned()),
            query: clone_opt(&plan.query),
            indexes: clone_opt_list(&plan.indexes),
            storage_tier: Some(plan.storage),
        },
        page: Some(Page { cursor: None, limit: Some(plan.batch) }),
        sort: Some("timestamp".to_owned()),
        options: None,
    }
}

// ---- De-duplication -----------------------------------------------------------------------

/// How many IDs are remembered before the memory is cleared.
pub const SEEN_CAP: usize = 10000;

/// The event IDs seen in recent polls.
#[derive(Debug)]
pub struct TailState {
    seen: Vec<String>,
}

impl View for TailState {
    type V = Seq<Seq<char>>;

    closed spec fn view(&self) -> Seq<Seq<char>> {
        views(self.seen)
    }
}

/// No ID occurs twice.
pub open spec fn distinct(s: Seq<Seq<char>>) -> bool {
    forall|i: int, j: int| 0 <= i < j < s.len() ==> s[i] != s[j]
}

impl TailState {
    /// The IDs remembered are distinct.
    #[verifier::type_invariant]
    spec fn inv(&self) -> bool {
        distinct(views(self.seen))
    }

    /// Nothing seen yet.
    pub fn new() -> (r: Self)
        ensures
            r@.len() == 0,
    {
        let seen: Vec<String> = Vec::new();
        assert(views(seen) =~= Seq::<Seq<char>>::empty());
        TailState { seen }
    }

    /// The IDs remembered are distinct.
    pub fn remembers_distinct(&self)
        ensures
            distinct(self@),
    {
        proof {
            use_type_invariant(self);
        }
    }

    /// Records an event ID; true when it was not seen before (the event is
    /// then shown), false for a duplicate.
    pub fn record(&mut self, id: &str) -> (fresh: bool)
        ensures
            distinct(final(self)@),
            fresh == !old(self)@.contains(id@),
            fresh ==> final(self)@ == old(self)@.push(id@),
            !fresh ==> final(self)@ == old(self)@,
            final(self)@.contains(id@),
    {
        proof {
            use_type_invariant(&*self);
        }
        let target = chars_of(id);
        let mut i: usize = 0;
        let n = self.seen.len();
        while i < n
            invariant
                n == self.seen@.len(),
                i <= n,
                distinct(self@),
                self@ == old(self)@,
                target@ == id@,
                forall|k: int| 0 <= k < i ==> (#[trigger] self.seen@[k])@ != id@,
            decreases n - i,
        {
            let e: &String = &self.seen[i];
            assert(*e == self.seen@[i as int]);
            let es: &str = e.as_str();
            assert(es@ == e@);
            let s = chars_of(es);
            assert(s@ == self.seen@[i as int]@);
            if chars_eq(s.as_slice(), target.as_slice()) {
                assert(self@[i as int] == self.seen@[i as int]@);
                assert(self@[i as int] == id@);
                return false;
            }
            i = i + 1;
        }
        assert(!views(self.seen).contains(id@)) by {
            if views(self.seen).contains(id@) {
                let k = choose|k: int| 0 <= k < views(self.seen).len() && views(self.seen)[k] == id@;
                assert(self.seen@[k]@ == id@);
            }
        }
        let ghost before = views(self.seen);
        let mut seen: Vec<String> = Vec::new();
        assert(views(seen) =~= Seq::<Seq<char>>::empty());
        std::mem::swap(&mut seen, &mut self.seen);
        seen.push(id.to_owned());
        assert(views(seen) =~= before.push(id@));
        assert(views(seen)[before.len() as int] == id@);
        proof {
            tail_shows_each_id_once(before, id@);
        }
        self.seen = seen;
        true
    }

    /// Ends a poll: the memory is cleared once it holds more than
    /// [`SEEN_CAP`] IDs.
    pub fn end_poll(&mut self)
        ensures
            distinct(final(self)@),
            old(self)@.len() > SEEN_CAP ==> final(self)@.len() == 0,
            old(self)@.len() <= SEEN_CAP ==> final(self)@ == old(self)@,
    {
        proof {
            use_type_invariant(&*self);
        }
        if self.seen.len() > SEEN_CAP {
            let empty: Vec<String> = Vec::new();
            assert(views(empty) =~= Seq::<Seq<char>>::empty());
            self.seen = empty;
        }
    }
}

/// Between two clears, an event ID is shown at most once: once admitted, the
/// same ID is refused.
pub proof fn tail_shows_each_id_once(seen: Seq<Seq<char>>, id: Seq<char>)
    requires
        distinct(seen),
    ensures
        seen.push(id).contains(id),
        distinct(seen.push(id)) <== !seen.contains(id),
{
    assert(seen.push(id)[seen.len() as int] == id);
    if !seen.contains(id) {
        assert forall|i: int, j: int| 0 <= i < j < seen.push(id).len() implies seen.push(id)[i] != seen.push(id)[j] by {
            if j == seen.len() {
                assert(seen[i] != id);
            }
        }
    }
}

// ---- The polling session ---------------------------------------------------------------

/// The IDs remembered after recording `ids`, in order, on top of `seen`:
/// each ID not yet remembered is added.
pub open spec fn remembered(seen: Seq<Seq<char>>, ids: Seq<Seq<char>>) -> Seq<Seq<char>>
    decreases ids.len(),
{
    if ids.len() == 0 {
        seen
    } else {
        let s = remembered(seen, ids.drop_last());
        if s.contains(ids.last()) {
            s
        } else {
            s.push(ids.last())
        }
    }
}

/// Which events of a poll are shown: those whose ID is neither remembered
/// nor earlier in the same poll.
pub open spec fn shown(seen: Seq<Seq<char>>, ids: Seq<Seq<char>>) -> Seq<bool>
    decreases ids.len(),
{
    if ids.len() == 0 {
        Seq::empty()
    } else {
        shown(seen, ids.drop_last()).push(!remembered(seen, ids.drop_last()).contains(ids.last()))
    }
}

/// The memory at the end of a poll: cleared once it holds more than
/// [`SEEN_CAP`] IDs.
pub open spec fn after_poll(seen: Seq<Seq<char>>) -> Seq<Seq<char>> {
    if seen.len() > SEEN_CAP {
        Seq::empty()
    } else {
        seen
    }
}

/// The state of `logs tail` between polls: where the next window starts and
/// the IDs already shown.
#[derive(Debug)]
pub struct TailSession {
    from: String,
    seen: TailState,
}

impl TailSession {
    /// Where the next window starts.
    pub closed spec fn window_start(&self) -> Seq<char> {
        self.from@
    }

    /// The IDs already shown and remembered.
    pub closed spec fn remembered_ids(&self) -> Seq<Seq<char>> {
        self.seen@
    }

    /// A session whose first window starts at `since`.
    pub fn new(since: String) -> (r: Self)
        ensures
            r.window_start() == since@,
            r.remembered_ids().len() == 0,
    {
        TailSession { from: since, seen: TailState::new() }
    }

    /// The request of the next poll: from the window start to `now`.
    pub fn poll_request(&self, plan: &TailPlan, now: &str) -> (r: SearchRequest)
        ensures
            opt_view(r.filter.from) == Some(self.window_start()),
            opt_view(r.filter.to) == Some(now@),
            opt_view(r.filter.query) == opt_view(plan.query),
            r.filter.storage_tier == Some(plan.storage),
            r.page matches Some(p) && p.limit == Some(plan.batch) && p.cursor is None,
            opt_view(r.sort) == Some("timestamp"@),
    {
        tail_request(plan, self.from.as_str(), now)
    }

    /// A poll up to `now` returned events with these IDs, in order: says
    /// which to show, remembers them, and moves the window start to `now`.
    pub fn on_events(&mut self, now: String, ids: &Vec<String>) -> (r: Vec<bool>)
        ensures
            r@ == shown(old(self).remembered_ids(), views(*ids)),
            picked(views(*ids), r@) == shown_ids(old(self).remembered_ids(), views(*ids)),
            final(self).remembered_ids() == after_poll(
                remembered(old(self).remembered_ids(), views(*ids)),
            ),
            final(self).window_start() == now@,
            session_state(*final(self)) == session_next(
                session_state(*old(self)),
                (now@, Some(views(*ids))),
            ),
            picked(views(*ids), r@) == step_shown(session_state(*old(self)), (now@, Some(views(*ids)))),
    {
        let ghost start = self.seen@;
        let ghost all = views(*ids);
        let mut flags: Vec<bool> = Vec::new();
        let mut i: usize = 0;
        while i < ids.len()
            invariant
                i <= ids@.len(),
                all == views(*ids),
                self.seen@ == remembered(start, all.take(i as int)),
                flags@ == shown(start, all.take(i as int)),
            decreases ids@.len() - i,
        {
            let ghost before = self.seen@;
            assert(all.take(i + 1).drop_last() =~= all.take(i as int));
            assert(all.take(i + 1).last() == ids@[i as int]@);
            let fresh = self.seen.record(ids[i].as_str());
            flags.push(fresh);
            i = i + 1;
            assert(self.seen@ == remembered(start, all.take(i as int)));
            assert(flags@ =~= shown(start, all.take(i as int)));
        }
        assert(all.take(ids@.len() as int) =~= all);
        proof {
            lemma_picked_shown(start, all);
        }
        self.seen.end_poll();
        self.from = now;
        flags
    }

    /// A poll up to `now` failed: the window start still moves to `now`.
    pub fn on_error(&mut self, now: String)
        ensures
            final(self).window_start() == now@,
            final(self).remembered_ids() == old(self).remembered_ids(),
            session_state(*final(self)) == session_next(session_state(*old(self)), (now@, None)),
    {
        self.from = now;
    }
}

proof fn lemma_remembered_grows(seen: Seq<Seq<char>>, ids: Seq<Seq<char>>)
    ensures
        forall|x: Seq<char>| seen.contains(x) ==> #[trigger] remembered(seen, ids).contains(x),
        forall|k: int| 0 <= k < ids.len() ==> remembered(seen, ids).contains(#[trigger] ids[k]),
    decreases ids.len(),
{
    if ids.len() > 0 {
        let pre = ids.drop_last();
        lemma_remembered_grows(seen, pre);
        let s = remembered(seen, pre);
        assert forall|x: Seq<char>| s.contains(x) implies #[trigger] remembered(seen, ids).contains(x) by {
            if !s.contains(ids.last()) {
                let k = choose|k: int| 0 <= k < s.len() && s[k] == x;
                assert(s.push(ids.last())[k] == x);
            }
        }
        assert forall|k: int| 0 <= k < ids.len() implies remembered(seen, ids).contains(#[trigger] ids[k]) by {
            if k < ids.len() - 1 {
                assert(pre[k] == ids[k]);
                assert(s.contains(pre[k]));
            } else if !s.contains(ids.last()) {
                assert(s.push(ids.last())[s.len() as int] == ids.last());
            }
        }
    }
}

proof fn lemma_shown_len(seen: Seq<Seq<char>>, ids: Seq<Seq<char>>)
    ensures
        shown(seen, ids).len() == ids.len(),
    decreases ids.len(),
{
    if ids.len() > 0 {
        lemma_shown_len(seen, ids.drop_last());
    }
}

proof fn lemma_shown_index(seen: Seq<Seq<char>>, ids: Seq<Seq<char>>, j: int)
    requires
        0 <= j < ids.len(),
    ensures
        shown(seen, ids)[j] == !remembered(seen, ids.take(j)).contains(ids[j]),
    decreases ids.len(),
{
    let pre = ids.drop_last();
    lemma_shown_len(seen, pre);
    if j < ids.len() - 1 {
        lemma_shown_index(seen, pre, j);
        assert(pre.take(j) =~= ids.take(j));
        assert(shown(seen, ids)[j] == shown(seen, pre)[j]);
    } else {
        assert(pre =~= ids.take(j));
    }
}

/// Within one poll and across polls without a clear, an event ID is shown at
/// most once: a shown event's ID was not remembered and does not occur
/// earlier in the same poll.
pub proof fn tail_never_repeats(seen: Seq<Seq<char>>, ids: Seq<Seq<char>>, j: int)
    requires
        0 <= j < ids.len(),
        shown(seen, ids)[j],
    ensures
        !seen.contains(ids[j]),
        forall|i: int| 0 <= i < j ==> ids[i] != ids[j],
{
    lemma_shown_index(seen, ids, j);
    lemma_remembered_grows(seen, ids.take(j));
    assert forall|i: int| 0 <= i < j implies ids[i] != ids[j] by {
        assert(ids.take(j)[i] == ids[i]);
    }
}

/// The IDs whose flag is set, in order.
pub open spec fn picked(ids: Seq<Seq<char>>, flags: Seq<bool>) -> Seq<Seq<char>>
    decreases ids.len(),
{
    if ids.len() == 0 || flags.len() == 0 {
        Seq::empty()
    } else {
        let p = picked(ids.drop_last(), flags.drop_last());
        if flags.last() {
            p.push(ids.last())
        } else {
            p
        }
    }
}

proof fn lemma_picked_shown(seen: Seq<Seq<char>>, ids: Seq<Seq<char>>)
    ensures
        picked(ids, shown(seen, ids)) == shown_ids(seen, ids),
    decreases ids.len(),
{
    if ids.len() > 0 {
        lemma_picked_shown(seen, ids.drop_last());
        lemma_shown_len(seen, ids.drop_last());
        assert(shown(seen, ids).drop_last() =~= shown(seen, ids.drop_last()));
    }
}

// ---- A whole run ----------------------------------------------------------------------

/// The IDs of the events shown in one poll, in order.
pub open spec fn shown_ids(seen: Seq<Seq<char>>, ids: Seq<Seq<char>>) -> Seq<Seq<char>>
    decreases ids.len(),
{
    if ids.len() == 0 {
        Seq::empty()
    } else {
        let p = shown_ids(seen, ids.drop_last());
        if remembered(seen, ids.drop_last()).contains(ids.last()) {
            p
        } else {
            p.push(ids.last())
        }
    }
}

proof fn lemma_remembered_is_seen_plus_shown(seen: Seq<Seq<char>>, ids: Seq<Seq<char>>)
    ensures
        remembered(seen, ids) == seen + shown_ids(seen, ids),
    decreases ids.len(),
{
    if ids.len() > 0 {
        lemma_remembered_is_seen_plus_shown(seen, ids.drop_last());
        let p = shown_ids(seen, ids.drop_last());
        assert((seen + p).push(ids.last()) =~= seen + p.push(ids.last()));
    }
}

proof fn lemma_remembered_distinct(seen: Seq<Seq<char>>, ids: Seq<Seq<char>>)
    requires
        distinct(seen),
    ensures
        distinct(remembered(seen, ids)),
    decreases ids.len(),
{
    if ids.len() > 0 {
        let s = remembered(seen, ids.drop_last());
        lemma_remembered_distinct(seen, ids.drop_last());
        if !s.contains(ids.last()) {
            tail_shows_each_id_once(s, ids.last());
        }
    }
}

/// A session's state: where the next window starts, and the IDs remembered.
pub open spec fn session_state(s: TailSession) -> (Seq<char>, Seq<Seq<char>>) {
    (s.window_start(), s.remembered_ids())
}

/// One step of a session: a poll up to `step.0` returned events with the IDs
/// `step.1`, or failed (`None`). Either way the next window starts at
/// `step.0`; the events' IDs are remembered and the memory cleared once it
/// outgrows [`SEEN_CAP`].
pub open spec fn session_next(
    state: (Seq<char>, Seq<Seq<char>>),
    step: (Seq<char>, Option<Seq<Seq<char>>>),
) -> (Seq<char>, Seq<Seq<char>>) {
    match step.1 {
        Some(ids) => (step.0, after_poll(remembered(state.1, ids))),
        None => (step.0, state.1),
    }
}

/// The IDs of the events a step shows.
pub open spec fn step_shown(
    state: (Seq<char>, Seq<Seq<char>>),
    step: (Seq<char>, Option<Seq<Seq<char>>>),
) -> Seq<Seq<char>> {
    match step.1 {
        Some(ids) => shown_ids(state.1, ids),
        None => Seq::empty(),
    }
}

/// The state after a run of steps from a session started at `since`.
pub open spec fn session_after(since: Seq<char>, steps: Seq<(Seq<char>, Option<Seq<Seq<char>>>)>) -> (
    Seq<char>,
    Seq<Seq<char>>,
)
    decreases steps.len(),
{
    if steps.len() == 0 {
        (since, Seq::empty())
    } else {
        session_next(session_after(since, steps.drop_last()), steps.last())
    }
}

/// The IDs of all events shown over a run, in order.
pub open spec fn run_output(since: Seq<char>, steps: Seq<(Seq<char>, Option<Seq<Seq<char>>>)>) -> Seq<
    Seq<char>,
>
    decreases steps.len(),
{
    if steps.len() == 0 {
        Seq::empty()
    } else {
        run_output(since, steps.drop_last()) + step_shown(
            session_after(since, steps.drop_last()),
            steps.last(),
        )
    }
}

/// The memory is never cleared during the run: after each poll it holds at
/// most [`SEEN_CAP`] IDs.
pub open spec fn run_never_cleared(
    since: Seq<char>,
    steps: Seq<(Seq<char>, Option<Seq<Seq<char>>>)>,
) -> bool {
    forall|k: int| 0 <= k < steps.len() ==> poll_fits(session_after(since, steps.take(k)), #[trigger] steps[k])
}

/// A step keeps the memory within [`SEEN_CAP`].
pub open spec fn poll_fits(state: (Seq<char>, Seq<Seq<char>>), step: (Seq<char>, Option<Seq<Seq<char>>>)) -> bool {
    match step.1 {
        Some(ids) => remembered(state.1, ids).len() <= SEEN_CAP,
        None => true,
    }
}

/// `logs tail` over a whole run started at `since`: the first window starts
/// at `since` and each later window starts where the one before ended,
/// whether its poll succeeded or failed; and as long as the memory is never
/// cleared, every event ID shown is remembered, and no ID is shown twice.
pub proof fn tail_run(since: Seq<char>, steps: Seq<(Seq<char>, Option<Seq<Seq<char>>>)>)
    ensures
        session_after(since, steps.take(0)).0 == since,
        forall|k: int|
            0 < k <= steps.len() ==> #[trigger] session_after(since, steps.take(k)).0 == steps[k - 1].0,
        run_never_cleared(since, steps) ==> session_after(since, steps).1 == run_output(since, steps),
        run_never_cleared(since, steps) ==> distinct(run_output(since, steps)),
    decreases steps.len(),
{
    assert(steps.take(0) =~= Seq::<(Seq<char>, Option<Seq<Seq<char>>>)>::empty());
    assert forall|k: int| 0 < k <= steps.len() implies #[trigger] session_after(since, steps.take(k)).0
        == steps[k - 1].0 by {
        assert(steps.take(k).drop_last() =~= steps.take(k - 1));
        assert(steps.take(k).last() == steps[k - 1]);
    }
    if steps.len() > 0 && run_never_cleared(since, steps) {
        let pre = steps.drop_last();
        assert forall|k: int| 0 <= k < pre.len() implies poll_fits(
            session_after(since, pre.take(k)),
            #[trigger] pre[k],
        ) by {
            assert(pre.take(k) =~= steps.take(k));
            assert(pre[k] == steps[k]);
        }
        tail_run(since, pre);
        let m = session_after(since, pre).1;
        let last = steps.last();
        assert(steps.take(pre.len() as int) =~= pre);
        assert(steps[pre.len() as int] == last);
        match last.1 {
            Some(ids) => {
                assert(poll_fits(session_after(since, steps.take(pre.len() as int)), steps[pre.len() as int]));
                lemma_remembered_is_seen_plus_shown(m, ids);
                lemma_remembered_distinct(m, ids);
            },
            None => {
                assert(run_output(since, pre) + Seq::<Seq<char>>::empty() =~= run_output(since, pre));
            },
        }
    } else if steps.len() == 0 {
        assert(Seq::<Seq<char>>::empty() =~= run_output(since, steps));
    }
}

} // verus!
