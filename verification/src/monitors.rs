//! Monitors: the list filter and its query parameters, and the text and
//! table renderings of `monitors list` / `monitors get`.

use vstd::prelude::*;
use crate::json::JsonValue;
use crate::logs::opt_view;
use crate::logs_cli::{clone_opt, views};
use crate::text::{decimal_i64, decimal_int, join, join_strings, push_all, push_str, string_from_chars};

verus! {

/// Path of the monitors endpoint.
pub const MONITOR_PATH: &'static str = "api/v1/monitor";

/// A monitor. Only the rendered fields are typed; the rest of the payload
/// is kept in `extra`.
#[derive(Debug)]
pub struct Monitor {
    pub id: i64,
    pub name: Option<String>,
    pub overall_state: Option<String>,
    pub kind: Option<String>,
    pub tags: Vec<String>,
    pub query: Option<String>,
    pub message: Option<String>,
    pub extra: JsonValue,
}

/// Filters for listing monitors, each a query parameter.
#[derive(Debug)]
pub struct MonitorListFilter {
    /// Substring of the monitor name (`name`).
    pub name: Option<String>,
    /// Scope tags (`tags`).
    pub tags: Option<String>,
    /// Tags on the monitor object itself (`monitor_tags`).
    pub monitor_tags: Option<String>,
}

/// The query parameters of a list filter: `name`, `tags`, `monitor_tags`,
/// in that order, each only when set.
pub open spec fn list_params(f: MonitorListFilter) -> Seq<(Seq<char>, Seq<char>)> {
    (match opt_view(f.name) {
        Some(v) => seq![("name"@, v)],
        None => Seq::empty(),
    }) + (match opt_view(f.tags) {
        Some(v) => seq![("tags"@, v)],
        None => Seq::empty(),
    }) + (match opt_view(f.monitor_tags) {
        Some(v) => seq![("monitor_tags"@, v)],
        None => Seq::empty(),
    })
}

/// Each filter that is set is sent as exactly one parameter under its own
/// key (`name`, `tags` for the scope tags, `monitor_tags`), and nothing else
/// is sent.
pub proof fn list_params_follow_filter(f: MonitorListFilter)
    ensures
        forall|v: Seq<char>| list_params(f).contains(("name"@, v)) <==> opt_view(f.name) == Some(v),
        forall|v: Seq<char>| list_params(f).contains(("tags"@, v)) <==> opt_view(f.tags) == Some(v),
        forall|v: Seq<char>|
            list_params(f).contains(("monitor_tags"@, v)) <==> opt_view(f.monitor_tags) == Some(v),
        forall|i: int|
            0 <= i < list_params(f).len() ==> {
                let k = (#[trigger] list_params(f)[i]).0;
                k == "name"@ || k == "tags"@ || k == "monitor_tags"@
            },
        list_params(f).len() == (if f.name is Some { 1int } else { 0 }) + (if f.tags is Some {
            1int
        } else {
            0
        }) + (if f.monitor_tags is Some { 1int } else { 0 }),
{
    reveal_strlit("name");
    reveal_strlit("tags");
    reveal_strlit("monitor_tags");
    assert("name"@.len() == 4 && "tags"@.len() == 4 && "monitor_tags"@.len() == 12);
    assert("name"@[0] != "tags"@[0]);
    let a: Seq<(Seq<char>, Seq<char>)> = match opt_view(f.name) {
        Some(v) => seq![("name"@, v)],
        None => Seq::empty(),
    };
    let b: Seq<(Seq<char>, Seq<char>)> = match opt_view(f.tags) {
        Some(v) => seq![("tags"@, v)],
        None => Seq::empty(),
    };
    let c: Seq<(Seq<char>, Seq<char>)> = match opt_view(f.monitor_tags) {
        Some(v) => seq![("monitor_tags"@, v)],
        None => Seq::empty(),
    };
    let ps = list_params(f);
    assert(ps =~= a + b + c);
    assert forall|i: int| 0 <= i < ps.len() implies ({
        let k = (#[trigger] ps[i]).0;
        k == "name"@ || k == "tags"@ || k == "monitor_tags"@
    }) by {
        if i < a.len() {
            assert(ps[i] == a[i]);
        } else if i < a.len() + b.len() {
            assert(ps[i] == b[i - a.len()]);
        } else {
            assert(ps[i] == c[i - a.len() - b.len()]);
        }
    }
    assert forall|v: Seq<char>| ps.contains(("tags"@, v)) <==> opt_view(f.tags) == Some(v) by {
        if ps.contains(("tags"@, v)) {
            let i = choose|i: int| 0 <= i < ps.len() && ps[i] == ("tags"@, v);
            if i < a.len() {
                assert(ps[i] == a[i]);
            } else if i < a.len() + b.len() {
                assert(ps[i] == b[i - a.len()]);
            } else {
                assert(ps[i] == c[i - a.len() - b.len()]);
            }
        }
        if opt_view(f.tags) == Some(v) {
            assert(ps[a.len() as int] == ("tags"@, v));
        }
    }
    assert forall|v: Seq<char>| ps.contains(("name"@, v)) <==> opt_view(f.name) == Some(v) by {
        if ps.contains(("name"@, v)) {
            let i = choose|i: int| 0 <= i < ps.len() && ps[i] == ("name"@, v);
            if i < a.len() {
                assert(ps[i] == a[i]);
            } else if i < a.len() + b.len() {
                assert(ps[i] == b[i - a.len()]);
            } else {
                assert(ps[i] == c[i - a.len() - b.len()]);
            }
        }
        if opt_view(f.name) == Some(v) {
            assert(ps[0] == ("name"@, v));
        }
    }
    assert forall|v: Seq<char>| ps.contains(("monitor_tags"@, v)) <==> opt_view(f.monitor_tags) == Some(
        v,
    ) by {
        if ps.contains(("monitor_tags"@, v)) {
            let i = choose|i: int| 0 <= i < ps.len() && ps[i] == ("monitor_tags"@, v);
            if i < a.len() {
                assert(ps[i] == a[i]);
            } else if i < a.len() + b.len() {
                assert(ps[i] == b[i - a.len()]);
            } else {
                assert(ps[i] == c[i - a.len() - b.len()]);
            }
        }
        if opt_view(f.monitor_tags) == Some(v) {
            assert(ps[(a.len() + b.len()) as int] == ("monitor_tags"@, v));
        }
    }
}

/// The views of a list of parameters.
pub open spec fn param_views(ps: Seq<(String, String)>) -> Seq<(Seq<char>, Seq<char>)> {
    Seq::new(ps.len(), |i: int| (ps[i].0@, ps[i].1@))
}

/// The query parameters for listing monitors.
pub fn monitor_list_query(filter: &MonitorListFilter) -> (r: Vec<(String, String)>)
    ensures
        param_views(r@) == list_params(*filter),
{
    let mut q: Vec<(String, String)> = Vec::new();
    if let Some(name) = &filter.name {
        q.push(("name".to_owned(), name.clone()));
    }
    let ghost a = q@;
    if let Some(tags) = &filter.tags {
        q.push(("tags".to_owned(), tags.clone()));
    }
    let ghost b = q@;
    if let Some(monitor_tags) = &filter.monitor_tags {
        q.push(("monitor_tags".to_owned(), monitor_tags.clone()));
    }
    assert(param_views(q@) =~= list_params(*filter));
    q
}

/// The path of one monitor: `api/v1/monitor/<id>`.
pub open spec fn monitor_path_text(id: int) -> Seq<char> {
    "api/v1/monitor/"@ + decimal_int(id)
}

/// The path of one monitor.
pub fn monitor_path(id: i64) -> (r: String)
    ensures
        r@ == monitor_path_text(id as int),
{
    let mut v: Vec<char> = Vec::new();
    push_str(&mut v, "api/v1/monitor/");
    push_all(&mut v, decimal_i64(id).as_slice());
    string_from_chars(v.as_slice())
}

/// An optional text or `-`.
pub open spec fn dash_or(o: Option<Seq<char>>) -> Seq<char> {
    match o {
        Some(s) => s,
        None => "-"@,
    }
}

fn text_or_dash(o: &Option<String>) -> (r: String)
    ensures
        r@ == dash_or(opt_view(*o)),
{
    match o {
        Some(s) => s.clone(),
        None => "-".to_owned(),
    }
}

/// The table header of `monitors list`.
pub open spec fn list_header() -> Seq<Seq<char>> {
    seq!["id"@, "name"@, "overall_state"@, "tags"@]
}

/// The table header of `monitors list`.
pub fn monitor_table_header() -> (r: Vec<String>)
    ensures
        views(r) == list_header(),
{
    let mut r: Vec<String> = Vec::new();
    r.push("id".to_owned());
    r.push("name".to_owned());
    r.push("overall_state".to_owned());
    r.push("tags".to_owned());
    assert(views(r) =~= list_header());
    r
}

/// A row of `monitors list`: id, name, state, comma-joined tags.
pub open spec fn monitor_row_spec(m: Monitor) -> Seq<Seq<char>> {
    seq![decimal_int(m.id as int), dash_or(opt_view(m.name)), dash_or(opt_view(m.overall_state)), join(views(m.tags), ","@)]
}

/// A row of `monitors list`.
pub fn monitor_row(m: &Monitor) -> (r: Vec<String>)
    ensures
        views(r) == monitor_row_spec(*m),
{
    let mut r: Vec<String> = Vec::new();
    r.push(string_from_chars(decimal_i64(m.id).as_slice()));
    r.push(text_or_dash(&m.name));
    r.push(text_or_dash(&m.overall_state));
    r.push(string_from_chars(join_strings(m.tags.as_slice(), ",").as_slice()));
    assert(views(r) =~= monitor_row_spec(*m));
    r
}

/// The text lines of `monitors get`: `<id>  <state>  <name>`, then the tags
/// when there are any, the query when present, and the message when present
/// and not empty.
pub open spec fn monitor_lines_spec(m: Monitor) -> Seq<Seq<char>> {
    seq![decimal_int(m.id as int) + "  "@ + dash_or(opt_view(m.overall_state)) + "  "@ + dash_or(opt_view(m.name))]
        + (if m.tags@.len() > 0 {
        seq!["tags: "@ + join(views(m.tags), ","@)]
    } else {
        Seq::empty()
    }) + (match opt_view(m.query) {
        Some(q) => seq!["query: "@ + q],
        None => Seq::empty(),
    }) + (match opt_view(m.message) {
        Some(msg) => if msg.len() > 0 {
            seq!["message: "@ + msg]
        } else {
            Seq::empty()
        },
        None => Seq::empty(),
    })
}

/// The text lines of `monitors get`.
pub fn monitor_lines(m: &Monitor) -> (r: Vec<String>)
    ensures
        views(r) == monitor_lines_spec(*m),
{
    let mut r: Vec<String> = Vec::new();
    let mut first: Vec<char> = Vec::new();
    push_all(&mut first, decimal_i64(m.id).as_slice());
    push_str(&mut first, "  ");
    push_str(&mut first, text_or_dash(&m.overall_state).as_str());
    push_str(&mut first, "  ");
    push_str(&mut first, text_or_dash(&m.name).as_str());
    r.push(string_from_chars(first.as_slice()));
    let ghost l1 = views(r);
    if m.tags.len() > 0 {
        let mut t: Vec<char> = Vec::new();
        push_str(&mut t, "tags: ");
        push_all(&mut t, join_strings(m.tags.as_slice(), ",").as_slice());
        r.push(string_from_chars(t.as_slice()));
    }
    let ghost l2 = views(r);
    if let Some(q) = &m.query {
        let mut t: Vec<char> = Vec::new();
        push_str(&mut t, "query: ");
        push_str(&mut t, q.as_str());
        r.push(string_from_chars(t.as_slice()));
    }
    let ghost l3 = views(r);
    if let Some(msg) = &m.message {
        if !msg.as_str().is_empty() {
            let mut t: Vec<char> = Vec::new();
            push_str(&mut t, "message: ");
            push_str(&mut t, msg.as_str());
            r.push(string_from_chars(t.as_slice()));
        }
    }
    assert(views(r) =~= monitor_lines_spec(*m));
    r
}

/// Arguments of `monitors list`.
#[derive(Debug)]
pub struct ListArgs {
    pub name: Option<String>,
    pub tag: Option<String>,
    pub monitor_tag: Option<String>,
}

/// Arguments of `monitors get`.
#[derive(Debug)]
pub struct GetArgs {
    pub monitor_id: i64,
}

/// The subcommand of `monitors`.
#[derive(Debug)]
pub enum MonitorsCommand {
    List(ListArgs),
    Get(GetArgs),
}

/// Arguments of `monitors`.
#[derive(Debug)]
pub struct MonitorsArgs {
    pub command: MonitorsCommand,
}

/// The list filter of `monitors list`: `--name`, `--tag` as `tags`,
/// `--monitor-tag` as `monitor_tags`.
pub fn list_filter(args: ListArgs) -> (r: MonitorListFilter)
    ensures
        r.name == args.name,
        r.tags == args.tag,
        r.monitor_tags == args.monitor_tag,
{
    MonitorListFilter { name: args.name, tags: args.tag, monitor_tags: args.monitor_tag }
}

} // verus!
