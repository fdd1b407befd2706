//! Output modes and the text renderings of log events.
//!
//! Writing to the terminal happens outside this crate; the lines and table
//! cells written are computed here.

use vstd::prelude::*;
use crate::client::{strip_leading, strip_leading_chars};
use crate::json::{JsonSpec, json_text, pointer_spec};
use crate::logs::{LogEvent, opt_view};
use crate::logs_cli::views;
use crate::text::{
    chars_of, join, join_strings, push_all, push_padded, push_str, pad_right, string_from_chars,
    to_uppercase, truncated, truncate_chars, uppercase,
};

verus! {

/// How results are written.
#[derive(Debug, Clone, Copy, PartialEq, Eq, Structural)]
pub enum OutputMode {
    Text,
    Json,
    Ndjson,
    Table,
}

/// The mode named by `-o`, if it names one.
pub open spec fn mode_named(s: Seq<char>) -> Option<OutputMode> {
    if s == "text"@ {
        Some(OutputMode::Text)
    } else if s == "json"@ {
        Some(OutputMode::Json)
    } else if s == "ndjson"@ {
        Some(OutputMode::Ndjson)
    } else if s == "table"@ {
        Some(OutputMode::Table)
    } else {
        None
    }
}

/// The automatic mode: text on a terminal, JSON otherwise.
pub open spec fn auto_mode(stdout_is_tty: bool) -> OutputMode {
    if stdout_is_tty {
        OutputMode::Text
    } else {
        OutputMode::Json
    }
}

/// The output mode for the `-o` flag and whether standard output is a
/// terminal; the flag is `true` when an unknown mode name was given (and
/// a warning is due).
pub fn resolve_mode(flag: Option<&str>, stdout_is_tty: bool) -> (r: (OutputMode, bool))
    ensures
        flag matches Some(f) ==> (mode_named(f@) matches Some(m) ==> r == (m, false)),
        flag matches Some(f) ==> (mode_named(f@) is None ==> r == (auto_mode(stdout_is_tty), true)),
        flag is None ==> r == (auto_mode(stdout_is_tty), false),
{
    let auto = if stdout_is_tty {
        OutputMode::Text
    } else {
        OutputMode::Json
    };
    match flag {
        Some(f) => {
            let v = chars_of(f);
            if crate::text::chars_eq_str(v.as_slice(), "text") {
                (OutputMode::Text, false)
            } else if crate::text::chars_eq_str(v.as_slice(), "json") {
                (OutputMode::Json, false)
            } else if crate::text::chars_eq_str(v.as_slice(), "ndjson") {
                (OutputMode::Ndjson, false)
            } else if crate::text::chars_eq_str(v.as_slice(), "table") {
                (OutputMode::Table, false)
            } else {
                (auto, true)
            }
        },
        None => (auto, false),
    }
}

// ---- Fields -----------------------------------------------------------------------

/// `s` with every `a` replaced by `b`.
pub open spec fn replace_char(s: Seq<char>, a: char, b: char) -> Seq<char> {
    Seq::new(s.len(), |i: int| if s[i] == a {
        b
    } else {
        s[i]
    })
}

/// The JSON Pointer of an attribute path: leading `@`s dropped, dots
/// turned into slashes, a slash in front.
pub open spec fn attribute_pointer(path: Seq<char>) -> Seq<char> {
    seq!['/'] + replace_char(strip_leading(path, '@'), '.', '/')
}

/// The text of an optional string, empty when absent.
pub open spec fn or_empty(o: Option<Seq<char>>) -> Seq<char> {
    match o {
        Some(s) => s,
        None => Seq::empty(),
    }
}

/// The value of a field for text and table output: the named attributes
/// directly, `tags` comma-joined, anything else looked up in the free-form
/// attributes (strings as they are, other values as JSON text, absent as
/// empty).
pub open spec fn field_value(ev: LogEvent, path: Seq<char>) -> Seq<char> {
    if path == "timestamp"@ {
        or_empty(opt_view(ev.attributes.timestamp))
    } else if path == "service"@ {
        or_empty(opt_view(ev.attributes.service))
    } else if path == "status"@ {
        or_empty(opt_view(ev.attributes.status))
    } else if path == "message"@ {
        or_empty(opt_view(ev.attributes.message))
    } else if path == "host"@ {
        or_empty(opt_view(ev.attributes.host))
    } else if path == "tags"@ {
        join(views(ev.attributes.tags), ","@)
    } else {
        match pointer_spec(ev.attributes.attributes@, attribute_pointer(path)) {
            Some(JsonSpec::Str(s)) => s,
            Some(v) => json_text(v),
            None => Seq::empty(),
        }
    }
}

/// The named fields `timestamp`, `service`, `status`, `message` and `host`
/// are the event's own attributes (empty when absent), and `tags` is its tags
/// comma-joined, whatever the free-form attributes hold.
pub proof fn named_fields_are_attributes(ev: LogEvent)
    ensures
        ev.attributes.timestamp matches Some(x) ==> field_value(ev, "timestamp"@) == x@,
        ev.attributes.timestamp is None ==> field_value(ev, "timestamp"@).len() == 0,
        ev.attributes.service matches Some(x) ==> field_value(ev, "service"@) == x@,
        ev.attributes.service is None ==> field_value(ev, "service"@).len() == 0,
        ev.attributes.status matches Some(x) ==> field_value(ev, "status"@) == x@,
        ev.attributes.status is None ==> field_value(ev, "status"@).len() == 0,
        ev.attributes.message matches Some(x) ==> field_value(ev, "message"@) == x@,
        ev.attributes.message is None ==> field_value(ev, "message"@).len() == 0,
        ev.attributes.host matches Some(x) ==> field_value(ev, "host"@) == x@,
        ev.attributes.host is None ==> field_value(ev, "host"@).len() == 0,
        field_value(ev, "tags"@) == join(views(ev.attributes.tags), ","@),
{
    reveal_strlit("timestamp");
    reveal_strlit("service");
    reveal_strlit("status");
    reveal_strlit("message");
    reveal_strlit("host");
    reveal_strlit("tags");
    assert("timestamp"@.len() == 9 && "service"@.len() == 7 && "status"@.len() == 6);
    assert("message"@.len() == 7 && "host"@.len() == 4 && "tags"@.len() == 4);
    assert("service"@ != "timestamp"@);
    assert("status"@ != "timestamp"@ && "status"@ != "service"@);
    assert("message"@[0] != "service"@[0]);
    assert("message"@ != "timestamp"@ && "message"@ != "service"@ && "message"@ != "status"@);
    assert("host"@ != "timestamp"@ && "host"@ != "service"@ && "host"@ != "status"@
        && "host"@ != "message"@);
    assert("tags"@[0] != "host"@[0]);
    assert("tags"@ != "timestamp"@ && "tags"@ != "service"@ && "tags"@ != "status"@
        && "tags"@ != "message"@ && "tags"@ != "host"@);
}

fn opt_or(o: &Option<String>, dflt: &str) -> (r: Vec<char>)
    ensures
        o matches Some(s) ==> r@ == s@,
        o is None ==> r@ == dflt@,
{
    match o {
        Some(s) => chars_of(s.as_str()),
        None => chars_of(dflt),
    }
}

fn attribute_pointer_string(path: &str) -> (r: String)
    ensures
        r@ == attribute_pointer(path@),
{
    let key = strip_leading_chars(path, '@');
    let kv = chars_of(key.as_str());
    let mut out: Vec<char> = Vec::new();
    out.push('/');
    let mut i: usize = 0;
    while i < kv.len()
        invariant
            i <= kv@.len(),
            out@ == seq!['/'] + replace_char(kv@.take(i as int), '.', '/'),
        decreases kv@.len() - i,
    {
        if kv[i] == '.' {
            out.push('/');
        } else {
            out.push(kv[i]);
        }
        i = i + 1;
        assert(out@ =~= seq!['/'] + replace_char(kv@.take(i as int), '.', '/'));
    }
    assert(kv@.take(kv@.len() as int) =~= kv@);
    string_from_chars(out.as_slice())
}

/// The value of one field of an event, as text.
pub fn lookup_field(ev: &LogEvent, path: &str) -> (r: String)
    ensures
        r@ == field_value(*ev, path@),
{
    proof {
        reveal_strlit("");
    }
    let p = chars_of(path);
    let a = &ev.attributes;
    if crate::text::chars_eq_str(p.as_slice(), "timestamp") {
        string_from_chars(opt_or(&a.timestamp, "").as_slice())
    } else if crate::text::chars_eq_str(p.as_slice(), "service") {
        string_from_chars(opt_or(&a.service, "").as_slice())
    } else if crate::text::chars_eq_str(p.as_slice(), "status") {
        string_from_chars(opt_or(&a.status, "").as_slice())
    } else if crate::text::chars_eq_str(p.as_slice(), "message") {
        string_from_chars(opt_or(&a.message, "").as_slice())
    } else if crate::text::chars_eq_str(p.as_slice(), "host") {
        string_from_chars(opt_or(&a.host, "").as_slice())
    } else if crate::text::chars_eq_str(p.as_slice(), "tags") {
        let j = join_strings(a.tags.as_slice(), ",");
        string_from_chars(j.as_slice())
    } else {
        let ptr = attribute_pointer_string(path);
        match a.attributes.pointer(ptr.as_str()) {
            Some(v) => match v.as_str() {
                Some(s) => s.clone(),
                None => v.to_text(),
            },
            None => String::new(),
        }
    }
}

// ---- Lines and tables --------------------------------------------------------------

/// The status shown for an event: upper-cased, `INFO` when absent.
pub open spec fn status_text(ev: LogEvent) -> Seq<char> {
    uppercase(
        match opt_view(ev.attributes.status) {
            Some(s) => s,
            None => "info"@,
        },
    )
}

/// An attribute or `-` when absent.
pub open spec fn or_dash(o: Option<Seq<char>>) -> Seq<char> {
    match o {
        Some(s) => s,
        None => "-"@,
    }
}

/// `name=value` for each requested field, separated by spaces.
pub open spec fn extras_text(ev: LogEvent, fields: Seq<Seq<char>>) -> Seq<char>
    decreases fields.len(),
{
    if fields.len() == 0 {
        Seq::empty()
    } else if fields.len() == 1 {
        fields[0] + "="@ + field_value(ev, fields[0])
    } else {
        extras_text(ev, fields.drop_last()) + " "@ + fields.last() + "="@ + field_value(
            ev,
            fields.last(),
        )
    }
}

/// The text line of an event: timestamp, status padded to 5, service padded
/// to 20, message, and the requested fields.
pub open spec fn event_line(ev: LogEvent, fields: Seq<Seq<char>>) -> Seq<char> {
    let base = or_dash(opt_view(ev.attributes.timestamp)) + "  "@ + pad_right(status_text(ev), 5)
        + "  "@ + pad_right(or_dash(opt_view(ev.attributes.service)), 20) + "  "@ + or_empty(
        opt_view(ev.attributes.message),
    );
    if fields.len() == 0 {
        base
    } else {
        base + "  "@ + extras_text(ev, fields)
    }
}

fn status_chars(ev: &LogEvent) -> (r: Vec<char>)
    ensures
        r@ == status_text(*ev),
{
    let up = match &ev.attributes.status {
        Some(s) => to_uppercase(s.as_str()),
        None => {
            proof {
                reveal_strlit("info");
            }
            to_uppercase("info")
        },
    };
    chars_of(up.as_str())
}

/// The text line written for an event.
pub fn text_event_line(ev: &LogEvent, fields: &Vec<String>) -> (r: String)
    ensures
        r@ == event_line(*ev, views(*fields)),
{
    let a = &ev.attributes;
    let mut out: Vec<char> = Vec::new();
    let ts = opt_or(&a.timestamp, "-");
    push_all(&mut out, ts.as_slice());
    push_str(&mut out, "  ");
    let st = status_chars(ev);
    push_padded(&mut out, st.as_slice(), 5);
    push_str(&mut out, "  ");
    let svc = opt_or(&a.service, "-");
    push_padded(&mut out, svc.as_slice(), 20);
    push_str(&mut out, "  ");
    let msg = opt_or(&a.message, "");
    push_all(&mut out, msg.as_slice());
    proof {
        reveal_strlit("");
    }
    let ghost base = out@;
    assert(base =~= or_dash(opt_view(a.timestamp)) + "  "@ + pad_right(status_text(*ev), 5) + "  "@
        + pad_right(or_dash(opt_view(a.service)), 20) + "  "@ + or_empty(opt_view(a.message)));
    if fields.len() > 0 {
        push_str(&mut out, "  ");
        let ghost fs = views(*fields);
        let ghost start = out@;
        let mut i: usize = 0;
        assert(fs.take(0) =~= Seq::<Seq<char>>::empty());
        while i < fields.len()
            invariant
                i <= fields@.len(),
                fs == views(*fields),
                out@ == start + extras_text(*ev, fs.take(i as int)),
            decreases fields@.len() - i,
        {
            assert(fs.take(i + 1).drop_last() =~= fs.take(i as int));
            assert(fs[i as int] == fields@[i as int]@);
            if i > 0 {
                push_str(&mut out, " ");
            }
            push_str(&mut out, fields[i].as_str());
            push_str(&mut out, "=");
            let v = lookup_field(ev, fields[i].as_str());
            push_str(&mut out, v.as_str());
            i = i + 1;
            assert(out@ =~= start + extras_text(*ev, fs.take(i as int)));
        }
        assert(fs.take(fields@.len() as int) =~= fs);
    }
    string_from_chars(out.as_slice())
}

/// The header of the events table: the four columns and the requested
/// fields.
pub open spec fn event_header(fields: Seq<Seq<char>>) -> Seq<Seq<char>> {
    seq!["timestamp"@, "status"@, "service"@, "message"@] + fields
}

/// One row of the events table: timestamp, status, service, the message cut
/// to 80 characters, and the requested fields.
pub open spec fn event_row(ev: LogEvent, fields: Seq<Seq<char>>) -> Seq<Seq<char>> {
    seq![
        or_dash(opt_view(ev.attributes.timestamp)),
        status_text(ev),
        or_dash(opt_view(ev.attributes.service)),
        truncated(or_empty(opt_view(ev.attributes.message)), 80),
    ] + Seq::new(fields.len(), |i: int| field_value(ev, fields[i]))
}

/// The view of the `k`-th string of `v`.
pub open spec fn string_views_at(v: Seq<String>, k: int) -> Seq<char> {
    v[k]@
}

/// The header of the events table.
pub fn event_table_header(fields: &Vec<String>) -> (r: Vec<String>)
    ensures
        views(r) == event_header(views(*fields)),
{
    let mut r: Vec<String> = Vec::new();
    r.push("timestamp".to_owned());
    r.push("status".to_owned());
    r.push("service".to_owned());
    r.push("message".to_owned());
    let mut i: usize = 0;
    while i < fields.len()
        invariant
            i <= fields@.len(),
            r@.len() == 4 + i,
            views(r) == event_header(views(*fields).take(i as int)),
        decreases fields@.len() - i,
    {
        let ghost before = r@;
        let f = fields[i].clone();
        assert(f@ == views(*fields)[i as int]);
        r.push(f);
        assert(forall|k: int| 0 <= k < before.len() ==> r@[k] == before[k]);
        assert(forall|k: int| 0 <= k < before.len() ==> views(r)[k] == #[trigger] string_views_at(before, k));
        i = i + 1;
        let ghost h = event_header(views(*fields).take(i as int));
        let ghost lits = seq!["timestamp"@, "status"@, "service"@, "message"@];
        assert(lits.len() == 4);
        assert forall|k: int| 0 <= k < h.len() implies #[trigger] views(r)[k] == h[k] by {
            if k < 4 {
                assert(h[k] == lits[k]);
                assert(views(r)[k] == before[k]@);
                assert(event_header(views(*fields).take(i - 1))[k] == lits[k]);
            } else if k < 4 + i - 1 {
                assert(h[k] == views(*fields)[k - 4]);
                assert(event_header(views(*fields).take(i - 1))[k] == views(*fields)[k - 4]);
            } else {
                assert(h[k] == views(*fields)[i - 1]);
            }
        }
        assert(views(r) =~= h);
    }
    assert(views(*fields).take(fields@.len() as int) =~= views(*fields));
    r
}

/// Shortens `s` to its first `n` characters followed by `…` when it has
/// more than `n` characters.
pub fn truncate(s: String, n: usize) -> (r: String)
    ensures
        r@ == truncated(s@, n as nat),
{
    let cs = chars_of(s.as_str());
    if cs.len() > n {
        string_from_chars(truncate_chars(cs.as_slice(), n).as_slice())
    } else {
        s
    }
}

/// One row of the events table.
pub fn event_table_row(ev: &LogEvent, fields: &Vec<String>) -> (r: Vec<String>)
    ensures
        views(r) == event_row(*ev, views(*fields)),
{
    let a = &ev.attributes;
    let mut r: Vec<String> = Vec::new();
    r.push(string_from_chars(opt_or(&a.timestamp, "-").as_slice()));
    r.push(string_from_chars(status_chars(ev).as_slice()));
    r.push(string_from_chars(opt_or(&a.service, "-").as_slice()));
    let msg = opt_or(&a.message, "");
    proof {
        reveal_strlit("");
    }
    r.push(truncate(string_from_chars(msg.as_slice()), 80));
    let ghost fs = views(*fields);
    let mut i: usize = 0;
    proof {
        let ev_row = event_row(*ev, fs.take(0));
        let first = seq![
            or_dash(opt_view(ev.attributes.timestamp)),
            status_text(*ev),
            or_dash(opt_view(ev.attributes.service)),
            truncated(or_empty(opt_view(ev.attributes.message)), 80),
        ];
        assert(Seq::new(fs.take(0).len(), |k: int| field_value(*ev, fs.take(0)[k])) =~= Seq::<Seq<char>>::empty());
        assert(ev_row =~= first);
        assert(views(r)[0] == first[0]);
        assert(views(r)[1] == first[1]);
        assert(views(r)[2] == first[2]);
        assert(views(r)[3] == first[3]);
        assert(views(r) =~= ev_row);
    }
    while i < fields.len()
        invariant
            i <= fields@.len(),
            fs == views(*fields),
            r@.len() == 4 + i,
            views(r) == event_row(*ev, fs.take(i as int)),
        decreases fields@.len() - i,
    {
        assert(fs[i as int] == fields@[i as int]@);
        let ghost before = r@;
        let v = lookup_field(ev, fields[i].as_str());
        r.push(v);
        assert(forall|k: int| 0 <= k < before.len() ==> r@[k] == before[k]);
        i = i + 1;
        proof {
            let now_row = event_row(*ev, fs.take(i as int));
            let prev_row = event_row(*ev, fs.take(i - 1));
            assert forall|k: int| 0 <= k < now_row.len() implies #[trigger] views(r)[k] == now_row[k] by {
                if k < 4 + i - 1 {
                    assert(views(r)[k] == before[k]@);
                    assert(now_row[k] == prev_row[k]);
                } else {
                    assert(now_row[k] == field_value(*ev, fs[i - 1]));
                }
            }
            assert(views(r) =~= now_row);
        }
    }
    assert(fs.take(fields@.len() as int) =~= fs);
    r
}

} // verus!
