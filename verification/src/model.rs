//! Snapshot model: the values that one poll of the server yields.

use vstd::prelude::*;

verus! {

/// The question of a DNS query.
#[derive(Clone, Debug, PartialEq, Eq)]
pub struct Question {
    pub class: String,
    pub name: String,
    pub question_type: String,
}

/// What the server knows of a client beyond its address.
#[derive(Clone, Debug, PartialEq, Eq)]
pub struct ClientInfo {
    pub name: Option<String>,
}

/// One record of the query log.
#[derive(Clone, Debug, PartialEq, Eq)]
pub struct Query {
    pub cached: bool,
    pub client: String,
    /// Elapsed time in milliseconds, as a decimal numeral.
    pub elapsed_ms: String,
    pub question: Question,
    pub reason: String,
    /// Time of the query, RFC 3339.
    pub time: String,
    pub upstream: String,
    pub client_info: Option<ClientInfo>,
}

/// The query log as the server returns it.
#[derive(Clone, Debug, PartialEq, Eq)]
pub struct QueryResponse {
    pub data: Vec<Query>,
}

/// A name with its count, one entry of a ranked list.
#[derive(Clone, Debug, PartialEq, Eq)]
pub struct DomainData {
    pub name: String,
    pub count: i32,
}

/// Cumulative counters, the counters of each bucket of the reporting window,
/// and the ranked lists.
#[derive(Clone, Debug, PartialEq, Eq)]
pub struct StatsResponse {
    pub num_dns_queries: u64,
    pub num_blocked_filtering: u64,
    pub num_replaced_safebrowsing: u64,
    pub num_replaced_safesearch: u64,
    pub num_replaced_parental: u64,
    /// Average processing time, as the text that is shown.
    pub avg_processing_time: String,
    pub dns_queries: Vec<u64>,
    pub blocked_filtering: Vec<u64>,
    pub replaced_safebrowsing: Vec<u64>,
    pub replaced_parental: Vec<u64>,
    pub top_queried_domains: Vec<DomainData>,
    pub top_blocked_domains: Vec<DomainData>,
    pub top_clients: Vec<DomainData>,
}

impl StatsResponse {
    /// All bucket arrays cover the same, non-empty reporting window.
    pub open spec fn window_is_uniform(&self) -> bool {
        &&& self.dns_queries@.len() >= 1
        &&& self.blocked_filtering@.len() == self.dns_queries@.len()
        &&& self.replaced_safebrowsing@.len() == self.dns_queries@.len()
        &&& self.replaced_parental@.len() == self.dns_queries@.len()
    }
}

/// The server's operational status.
#[derive(Clone, Debug, PartialEq, Eq)]
pub struct StatusResponse {
    pub version: String,
    pub language: String,
    pub dns_addresses: Vec<String>,
    pub dns_port: u16,
    pub http_port: u16,
    pub protection_disabled_duration: u64,
    pub protection_enabled: bool,
    pub dhcp_available: bool,
    pub running: bool,
}

/// One filter list of the server.
#[derive(Clone, Debug, PartialEq, Eq)]
pub struct Filter {
    pub url: String,
    pub name: String,
    pub rules_count: u32,
    pub enabled: bool,
}

/// The filter lists of the server.
#[derive(Clone, Debug, PartialEq, Eq)]
pub struct AdGuardFilteringStatus {
    pub filters: Vec<Filter>,
}

/// Query log, statistics and status of one poll, handed on as one value.
#[derive(Clone, Debug, PartialEq, Eq)]
pub struct TickResult {
    pub queries: Vec<Query>,
    pub stats: StatsResponse,
    pub status: StatusResponse,
}

/// The colours in which the panels set their text.
#[derive(Clone, Copy, Debug, PartialEq, Eq, Structural)]
pub enum Accent {
    Green,
    LightGreen,
    Red,
    Yellow,
    Cyan,
    Blue,
    Magenta,
    Gray,
}

/// Why a snapshot cannot be shown.
#[derive(Clone, Copy, Debug, PartialEq, Eq, Structural)]
pub enum ValidationError {
    /// An elapsed time is not a decimal numeral, or does not fit.
    BadElapsed,
    /// The reporting window is empty.
    EmptyWindow,
    /// The bucket arrays differ in length.
    WindowMismatch,
    /// The blocked counters of one bucket exceed the counter range.
    CounterOverflow,
    /// The interpolated series is too long to hold.
    SeriesTooLong,
}

} // verus!
