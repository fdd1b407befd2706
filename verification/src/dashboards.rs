//! Dashboards: the client-side title filter of `dashboards list`, its table,
//! and the one-line summary of `dashboards get`.

use vstd::prelude::*;
use crate::json::{get_spec, JsonSpec, JsonValue};
use crate::logs::opt_view;
use crate::logs_cli::views;
use crate::monitors::dash_or;
use crate::text::{
    chars_of, contains, contains_chars, occurs_at, decimal, decimal_u64, lowercase, push_all, push_str,
    string_from_chars, to_lowercase,
};

verus! {

/// Path of the dashboards endpoint.
pub const DASHBOARD_PATH: &'static str = "api/v1/dashboard";

/// One entry of the dashboard list.
#[derive(Debug)]
pub struct DashboardSummary {
    pub id: String,
    pub title: Option<String>,
    pub url: Option<String>,
    pub author_handle: Option<String>,
    pub description: Option<String>,
}

/// The dashboard list.
#[derive(Debug)]
pub struct DashboardListResponse {
    pub dashboards: Vec<DashboardSummary>,
}

/// The path of one dashboard: `api/v1/dashboard/<id>`.
pub open spec fn dashboard_path_text(id: Seq<char>) -> Seq<char> {
    "api/v1/dashboard/"@ + id
}

/// The path of one dashboard.
pub fn dashboard_path(id: &str) -> (r: String)
    ensures
        r@ == dashboard_path_text(id@),
{
    let mut v: Vec<char> = Vec::new();
    push_str(&mut v, "api/v1/dashboard/");
    push_str(&mut v, id);
    string_from_chars(v.as_slice())
}

/// Whether a dashboard's title, lowercased, contains `needle`. A dashboard
/// without a title never matches.
pub open spec fn title_matches(d: DashboardSummary, needle: Seq<char>) -> bool {
    match opt_view(d.title) {
        Some(t) => contains(lowercase(t), needle),
        None => false,
    }
}

/// The dashboards that `dashboards list --query q` shows: all of them
/// without a query; with one, those whose lowercased title contains the
/// lowercased query, in their order.
pub open spec fn title_filter(ds: Seq<DashboardSummary>, query: Option<Seq<char>>) -> Seq<
    DashboardSummary,
> {
    match query {
        None => ds,
        Some(q) => ds.filter(|d: DashboardSummary| title_matches(d, lowercase(q))),
    }
}

/// With a query, a dashboard is kept exactly when it is listed, has a title,
/// and the lowercased query occurs somewhere (at any position) in its
/// lowercased title; nothing is added. Without a query all are kept.
pub proof fn title_filter_is_substring_match(ds: Seq<DashboardSummary>, q: Seq<char>)
    ensures
        title_filter(ds, None) == ds,
        title_filter(ds, Some(q)).len() <= ds.len(),
        forall|d: DashboardSummary|
            #[trigger] title_filter(ds, Some(q)).contains(d) <==> (ds.contains(d) && match d.title {
                Some(t) => exists|i: int| occurs_at(lowercase(t@), lowercase(q), i),
                None => false,
            }),
{
    let pred = |d: DashboardSummary| title_matches(d, lowercase(q));
    let out = title_filter(ds, Some(q));
    assert(out == ds.filter(pred));
    #[allow(deprecated)]
    ds.filter_lemma(pred);
    assert forall|d: DashboardSummary| #[trigger] out.contains(d) <==> (ds.contains(d) && match d.title {
        Some(t) => exists|i: int| occurs_at(lowercase(t@), lowercase(q), i),
        None => false,
    }) by {
        if out.contains(d) {
            ds.lemma_filter_contains_rev(pred, d);
            let j = choose|j: int| 0 <= j < out.len() && out[j] == d;
            assert(pred(out[j]));
        }
        if ds.contains(d) && pred(d) {
            let j = choose|j: int| 0 <= j < ds.len() && ds[j] == d;
            assert(pred(ds[j]));
        }
    }
}

fn matches_title(d: &DashboardSummary, needle: &[char]) -> (b: bool)
    ensures
        b == title_matches(*d, needle@),
{
    match &d.title {
        Some(t) => {
            let lower = to_lowercase(t.as_str());
            let lc = chars_of(lower.as_str());
            contains_chars(lc.as_slice(), needle)
        },
        None => false,
    }
}

/// Filters dashboards by title, case-insensitively, keeping their order.
pub fn filter_by_title(dashboards: Vec<DashboardSummary>, query: Option<&str>) -> (r: Vec<
    DashboardSummary,
>)
    ensures
        r@ == title_filter(
            dashboards@,
            match query {
                Some(q) => Some(q@),
                None => None,
            },
        ),
{
    match query {
        None => dashboards,
        Some(q) => {
            let lower = to_lowercase(q);
            let needle = chars_of(lower.as_str());
            let ghost all = dashboards@;
            let ghost pred = |d: DashboardSummary| title_matches(d, lowercase(q@));
            let mut kept: Vec<DashboardSummary> = Vec::new();
            assert(all.take(0).filter(pred) =~= Seq::empty()) by {
                reveal(Seq::filter);
            }
            for d in it: dashboards.into_iter()
                invariant
                    it.seq() == all,
                    needle@ == lowercase(q@),
                    pred == (|d: DashboardSummary| title_matches(d, lowercase(q@))),
                    kept@ == all.take(it.index() as int).filter(pred),
            {
                let ghost k = it.index() as int;
                assert(d == all[k]);
                let ghost before = kept@;
                assert(all.take(k + 1).drop_last() =~= all.take(k));
                assert(all.take(k + 1).last() == all[k]);
                let keep = matches_title(&d, needle.as_slice());
                assert(keep == pred(all[k]));
                if keep {
                    kept.push(d);
                }
                assert(kept@ == all.take(k + 1).filter(pred)) by {
                    reveal(Seq::filter);
                }
            }
            assert(all.take(all.len() as int) =~= all);
            kept
        },
    }
}

/// The table header of `dashboards list`.
pub open spec fn list_header() -> Seq<Seq<char>> {
    seq!["id"@, "title"@, "url"@]
}

/// The table header of `dashboards list`.
pub fn dashboard_table_header() -> (r: Vec<String>)
    ensures
        views(r) == list_header(),
{
    let mut r: Vec<String> = Vec::new();
    r.push("id".to_owned());
    r.push("title".to_owned());
    r.push("url".to_owned());
    assert(views(r) =~= list_header());
    r
}

/// A row of `dashboards list`: id, title or `-`, url or `-`.
pub open spec fn dashboard_row_spec(d: DashboardSummary) -> Seq<Seq<char>> {
    seq![d.id@, dash_or(opt_view(d.title)), dash_or(opt_view(d.url))]
}

fn text_or_dash(o: &Option<String>) -> (r: String)
    ensures
        r@ == dash_or(opt_view(*o)),
{
    match o {
        Some(s) => s.clone(),
        None => "-".to_owned(),
    }
}

/// A row of `dashboards list`.
pub fn dashboard_row(d: &DashboardSummary) -> (r: Vec<String>)
    ensures
        views(r) == dashboard_row_spec(*d),
{
    let mut r: Vec<String> = Vec::new();
    r.push(d.id.clone());
    r.push(text_or_dash(&d.title));
    r.push(text_or_dash(&d.url));
    assert(views(r) =~= dashboard_row_spec(*d));
    r
}

/// The text of member `key` when it is a string, else `-`.
pub open spec fn str_member_or_dash(v: JsonSpec, key: Seq<char>) -> Seq<char> {
    match get_spec(v, key) {
        Some(JsonSpec::Str(s)) => s,
        _ => "-"@,
    }
}

/// The number of elements of member `widgets` when it is an array, else 0.
pub open spec fn widget_count(v: JsonSpec) -> nat {
    match get_spec(v, "widgets"@) {
        Some(JsonSpec::Array(xs)) => xs.len(),
        _ => 0,
    }
}

/// The summary line of `dashboards get`:
/// `<id>  <title>  (<n> widgets)  <url>`.
pub open spec fn summary_text(v: JsonSpec) -> Seq<char> {
    str_member_or_dash(v, "id"@) + "  "@ + str_member_or_dash(v, "title"@) + "  ("@ + decimal(
        widget_count(v),
    ) + " widgets)  "@ + str_member_or_dash(v, "url"@)
}

/// The summary line begins with the dashboard's `id` and ends with two
/// spaces and its `url`, each the member's text when it is a string and `-`
/// otherwise.
pub proof fn summary_names_id_and_url(v: JsonSpec)
    ensures
        get_spec(v, "url"@) matches Some(JsonSpec::Str(u)) ==> {
            let s = summary_text(v);
            &&& s.len() >= u.len() + 2
            &&& s.subrange(s.len() - u.len() - 2, s.len() as int) == "  "@ + u
        },
        !(get_spec(v, "url"@) matches Some(JsonSpec::Str(_))) ==> {
            let s = summary_text(v);
            &&& s.len() >= 3
            &&& s.subrange(s.len() - 3, s.len() as int) == "  -"@
        },
        get_spec(v, "id"@) matches Some(JsonSpec::Str(x)) ==> {
            let s = summary_text(v);
            &&& s.len() >= x.len()
            &&& s.subrange(0, x.len() as int) == x
        },
        !(get_spec(v, "id"@) matches Some(JsonSpec::Str(_))) ==> summary_text(v)[0] == '-',
{
    reveal_strlit("  ");
    reveal_strlit("-");
    reveal_strlit("  -");
    reveal_strlit(" widgets)  ");
    let id = str_member_or_dash(v, "id"@);
    let u = str_member_or_dash(v, "url"@);
    let mid = "  "@ + str_member_or_dash(v, "title"@) + "  ("@ + decimal(widget_count(v))
        + " widgets)  "@;
    let s = summary_text(v);
    assert(s =~= id + mid + u);
    let w = " widgets)  "@;
    assert(w.len() == 11);
    assert(mid.subrange(mid.len() - 2, mid.len() as int) =~= "  "@);
    assert(s.subrange(s.len() - u.len() - 2, s.len() as int) =~= "  "@ + u);
    assert(s.subrange(0, id.len() as int) =~= id);
    if !(get_spec(v, "url"@) matches Some(JsonSpec::Str(_))) {
        assert(u == "-"@);
        assert("  "@ + "-"@ =~= "  -"@);
    }
    if !(get_spec(v, "id"@) matches Some(JsonSpec::Str(_))) {
        assert(id == "-"@);
        assert(s[0] == id[0]);
    }
}

fn str_member(v: &JsonValue, key: &str) -> (r: String)
    ensures
        r@ == str_member_or_dash(v@, key@),
{
    match v.get(key) {
        Some(x) => match x.as_str() {
            Some(s) => s.clone(),
            None => "-".to_owned(),
        },
        None => "-".to_owned(),
    }
}

/// The summary line of a dashboard definition.
pub fn summary_line(dash: &JsonValue) -> (r: String)
    ensures
        r@ == summary_text(dash@),
{
    let id = str_member(dash, "id");
    let title = str_member(dash, "title");
    let url = str_member(dash, "url");
    let n: usize = match dash.get("widgets") {
        Some(w) => match w.as_array() {
            Some(xs) => {
                proof {
                    crate::json::lemma_items_view(xs@);
                }
                xs.len()
            },
            None => 0,
        },
        None => 0,
    };
    assert(n == widget_count(dash@));
    let mut v: Vec<char> = Vec::new();
    push_str(&mut v, id.as_str());
    push_str(&mut v, "  ");
    push_str(&mut v, title.as_str());
    push_str(&mut v, "  (");
    push_all(&mut v, decimal_u64(n as u64).as_slice());
    push_str(&mut v, " widgets)  ");
    push_str(&mut v, url.as_str());
    string_from_chars(v.as_slice())
}

/// Arguments of `dashboards get`.
#[derive(Debug)]
pub struct GetArgs {
    pub dashboard_id: String,
}

/// Arguments of `dashboards list`.
#[derive(Debug)]
pub struct ListArgs {
    pub query: Option<String>,
}

/// The subcommand of `dashboards`.
#[derive(Debug)]
pub enum DashboardsCommand {
    Get(GetArgs),
    List(ListArgs),
}

/// Arguments of `dashboards`.
#[derive(Debug)]
pub struct DashboardsArgs {
    pub command: DashboardsCommand,
}

} // verus!
