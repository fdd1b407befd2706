//! Logs API v2: request and response shapes for search and aggregation, and
//! the request that fetches a single event by ID.

use vstd::prelude::*;
use crate::error::ApiError;
use crate::json::JsonValue;
use crate::text::{chars_eq_str, chars_of, push_str, string_from_chars};

verus! {

/// Path of the search endpoint.
pub const SEARCH_PATH: &'static str = "api/v2/logs/events/search";

/// Path of the aggregation endpoint.
pub const AGGREGATE_PATH: &'static str = "api/v2/logs/analytics/aggregate";

/// Storage tier for log queries.
#[derive(Debug, Clone, Copy, PartialEq, Eq, Structural)]
pub enum StorageTier {
    Indexes,
    OnlineArchives,
    Flex,
}

/// The tier a command-line name denotes: `indexes`, `online-archives`,
/// `flex`.
pub open spec fn tier_named(s: Seq<char>) -> Option<StorageTier> {
    if s == "indexes"@ {
        Some(StorageTier::Indexes)
    } else if s == "online-archives"@ {
        Some(StorageTier::OnlineArchives)
    } else if s == "flex"@ {
        Some(StorageTier::Flex)
    } else {
        None
    }
}

/// The message for an unknown storage tier name.
pub open spec fn tier_error(s: Seq<char>) -> Seq<char> {
    "invalid storage tier '"@ + s + "' (expected indexes|online-archives|flex)"@
}

impl StorageTier {
    /// Parses a storage tier name (exact match, no trimming).
    pub fn parse(s: &str) -> (r: Result<StorageTier, String>)
        ensures
            tier_named(s@) matches Some(t) ==> r == Ok::<StorageTier, String>(t),
            tier_named(s@) is None ==> (r matches Err(m) && m@ == tier_error(s@)),
    {
        let v = chars_of(s);
        if chars_eq_str(v.as_slice(), "indexes") {
            Ok(StorageTier::Indexes)
        } else if chars_eq_str(v.as_slice(), "online-archives") {
            Ok(StorageTier::OnlineArchives)
        } else if chars_eq_str(v.as_slice(), "flex") {
            Ok(StorageTier::Flex)
        } else {
            let mut m: Vec<char> = Vec::new();
            push_str(&mut m, "invalid storage tier '");
            push_str(&mut m, s);
            push_str(&mut m, "' (expected indexes|online-archives|flex)");
            Err(string_from_chars(m.as_slice()))
        }
    }

    /// The name of the tier as the API spells it.
    pub fn api_name(&self) -> (r: &'static str)
        ensures
            tier_named(r@) == Some(*self),
    {
        match self {
            StorageTier::Indexes => {
                let r = "indexes";
                assert(tier_named(r@) == Some(StorageTier::Indexes));
                r
            },
            StorageTier::OnlineArchives => {
                let r = "online-archives";
                proof {
                    reveal_strlit("indexes");
                    reveal_strlit("online-archives");
                }
                assert(r@.len() == 15 && "indexes"@.len() == 7);
                assert(r@ != "indexes"@);
                r
            },
            StorageTier::Flex => {
                let r = "flex";
                proof {
                    reveal_strlit("indexes");
                    reveal_strlit("online-archives");
                    reveal_strlit("flex");
                }
                assert(r@.len() == 4 && "indexes"@.len() == 7 && "online-archives"@.len() == 15);
                assert(r@ != "indexes"@);
                assert(r@ != "online-archives"@);
                r
            },
        }
    }
}

impl std::str::FromStr for StorageTier {
    type Err = String;

    fn from_str(s: &str) -> (r: Result<Self, Self::Err>)
        ensures
            tier_named(s@) matches Some(t) ==> r == Ok::<StorageTier, String>(t),
            tier_named(s@) is None ==> (r matches Err(m) && m@ == tier_error(s@)),
    {
        StorageTier::parse(s)
    }
}

// ---- Search -------------------------------------------------------------------

/// A search request.
#[derive(Debug)]
pub struct SearchRequest {
    pub filter: SearchFilter,
    pub page: Option<Page>,
    pub sort: Option<String>,
    pub options: Option<SearchOptions>,
}

/// What a search or an aggregation is over.
#[derive(Debug)]
pub struct SearchFilter {
    pub from: Option<String>,
    pub to: Option<String>,
    pub query: Option<String>,
    pub indexes: Option<Vec<String>>,
    pub storage_tier: Option<StorageTier>,
}

/// Paging of a search.
#[derive(Debug)]
pub struct Page {
    pub cursor: Option<String>,
    pub limit: Option<u32>,
}

/// Options of a search.
#[derive(Debug)]
pub struct SearchOptions {
    pub timezone: Option<String>,
}

/// A page of search results.
#[derive(Debug)]
pub struct SearchResponse {
    pub data: Vec<LogEvent>,
    pub meta: Option<Meta>,
    pub links: Option<Links>,
}

/// One log event.
#[derive(Debug)]
pub struct LogEvent {
    pub id: String,
    pub kind: Option<String>,
    pub attributes: LogAttributes,
}

/// The attributes of a log event.
#[derive(Debug)]
pub struct LogAttributes {
    pub timestamp: Option<String>,
    pub service: Option<String>,
    pub status: Option<String>,
    pub message: Option<String>,
    pub host: Option<String>,
    pub tags: Vec<String>,
    pub attributes: JsonValue,
}

/// Metadata of a search response.
#[derive(Debug)]
pub struct Meta {
    pub page: Option<MetaPage>,
    pub elapsed: Option<u64>,
    pub status: Option<String>,
    pub warnings: Vec<JsonValue>,
}

/// The paging cursor of a search response.
#[derive(Debug)]
pub struct MetaPage {
    pub after: Option<String>,
}

/// Links of a search response.
#[derive(Debug)]
pub struct Links {
    pub next: Option<String>,
}

/// The view of an optional string.
pub open spec fn opt_view(o: Option<String>) -> Option<Seq<char>> {
    match o {
        Some(s) => Some(s@),
        None => None,
    }
}

/// The query that finds one event by ID: `@id:<id>`.
pub open spec fn id_query(id: Seq<char>) -> Seq<char> {
    "@id:"@ + id
}

/// The search request `logs get` sends: the ID query over the last 30 days,
/// newest first, one result.
pub fn logs_get_request(id: &str, indexes: Option<Vec<String>>) -> (r: SearchRequest)
    ensures
        opt_view(r.filter.query) == Some(id_query(id@)),
        opt_view(r.filter.from) == Some("now-30d"@),
        opt_view(r.filter.to) == Some("now"@),
        r.filter.indexes == indexes,
        r.filter.storage_tier is None,
        r.page matches Some(p) && p.limit == Some(1u32) && p.cursor is None,
        opt_view(r.sort) == Some("-timestamp"@),
        r.options is None,
{
    let mut q: Vec<char> = Vec::new();
    push_str(&mut q, "@id:");
    push_str(&mut q, id);
    SearchRequest {
        filter: SearchFilter {
            query: Some(string_from_chars(q.as_slice())),
            from: Some("now-30d".to_owned()),
            to: Some("now".to_owned()),
            indexes,
            storage_tier: None,
        },
        page: Some(Page { limit: Some(1), cursor: None }),
        sort: Some("-timestamp".to_owned()),
        options: None,
    }
}

/// The message when no event has the ID.
pub open spec fn missing_event_message(id: Seq<char>) -> Seq<char> {
    "no log event with id "@ + id
}

/// The first event of a search response, or "not found" when there is none.
pub fn first_event(id: &str, resp: SearchResponse) -> (r: Result<LogEvent, ApiError>)
    ensures
        resp.data@.len() > 0 ==> r == Ok::<LogEvent, ApiError>(resp.data@[0]),
        resp.data@.len() == 0 ==> (r matches Err(ApiError::NotFound(m)) && m@
            == missing_event_message(id@)),
{
    let mut data = resp.data;
    if data.len() > 0 {
        Ok(data.swap_remove(0))
    } else {
        let mut m: Vec<char> = Vec::new();
        push_str(&mut m, "no log event with id ");
        push_str(&mut m, id);
        Err(ApiError::NotFound(string_from_chars(m.as_slice())))
    }
}

// ---- Aggregate ------------------------------------------------------------------

/// An aggregation request.
#[derive(Debug)]
pub struct AggregateRequest {
    pub filter: SearchFilter,
    pub compute: Vec<Compute>,
    pub group_by: Vec<GroupBy>,
    pub options: Option<SearchOptions>,
}

/// One measure to compute.
#[derive(Debug)]
pub struct Compute {
    pub aggregation: String,
    pub metric: Option<String>,
    pub kind: Option<String>,
    pub interval: Option<String>,
}

/// One facet to group by.
#[derive(Debug)]
pub struct GroupBy {
    pub facet: String,
    pub limit: Option<u32>,
}

/// An aggregation response.
#[derive(Debug)]
pub struct AggregateResponse {
    pub data: Option<AggregateData>,
    pub meta: Option<JsonValue>,
}

/// The buckets of an aggregation.
#[derive(Debug)]
pub struct AggregateData {
    pub buckets: Vec<Bucket>,
    pub kind: Option<String>,
}

/// One group of an aggregation: its group-by values and computed measures.
#[derive(Debug)]
pub struct Bucket {
    pub by: JsonValue,
    pub computes: JsonValue,
}

} // verus!
