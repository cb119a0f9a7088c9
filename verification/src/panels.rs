//! The smaller panels of the dashboard: the gauge of blocked queries, the
//! status panel and the ranked lists.

use vstd::prelude::*;
use vstd::string::*;
use crate::classify::{block_percentage, blocked_total, percent_of};
use crate::model::{Accent, DomainData, Filter, StatsResponse, StatusResponse};
use crate::text::{
    decimal_string,
    decimal_text,
    push_decimal,
    push_signed_decimal,
    signed_decimal_text,
    truncate,
};

verus! {

/// The gauge of blocked queries.
#[derive(Clone, Debug, PartialEq, Eq)]
pub struct Gauge {
    /// The share of blocked queries, in percent.
    pub percent: u128,
    /// How far the gauge is filled, in percent: the share, and 100 where the
    /// share is above that.
    pub filled: u16,
    pub label: String,
}

/// The label of the gauge: how many queries of how many were blocked, and the
/// percentage.
pub open spec fn gauge_label_of(stats: StatsResponse) -> Seq<char> {
    "Blocked "@ + decimal_text(blocked_total(stats) as nat) + " out of "@ + decimal_text(
        stats.num_dns_queries as nat,
    ) + " ("@ + decimal_text(
        percent_of(blocked_total(stats), stats.num_dns_queries as int) as nat,
    ) + "%)"@
}

impl Gauge {
    /// Whether this is the gauge of `stats`.
    pub open spec fn shows(self, stats: StatsResponse) -> bool {
        &&& self.percent == percent_of(blocked_total(stats), stats.num_dns_queries as int)
        &&& self.filled == if self.percent <= 100 {
            self.percent
        } else {
            100
        }
        &&& self.label@ == gauge_label_of(stats)
    }
}

/// Builds the gauge of blocked queries. With no queries at all it stands at 0.
pub fn make_gauge(stats: &StatsResponse) -> (gauge: Gauge)
    ensures
        gauge.shows(*stats),
        gauge.filled <= 100,
        stats.num_dns_queries == 0 ==> gauge.percent == 0 && gauge.filled == 0,
{
    let total_blocked: u128 = stats.num_blocked_filtering as u128
        + stats.num_replaced_safebrowsing as u128 + stats.num_replaced_parental as u128
        + stats.num_replaced_safesearch as u128;
    let percent = block_percentage(stats);
    let filled: u16 = if percent <= 100 {
        percent as u16
    } else {
        100
    };
    let mut label = String::from_str("Blocked ");
    push_decimal(&mut label, total_blocked);
    label.append(" out of ");
    push_decimal(&mut label, stats.num_dns_queries as u128);
    label.append(" (");
    push_decimal(&mut label, percent);
    label.append("%)");
    Gauge { percent, filled, label }
}

/// One line of the status panel.
#[derive(Clone, Debug, PartialEq, Eq)]
pub struct StatusLine {
    pub label: String,
    pub value: String,
    /// The accent of the value.
    pub accent: Accent,
}

/// The status panel.
#[derive(Clone, Debug, PartialEq, Eq)]
pub struct StatusPanel {
    pub lines: Vec<StatusLine>,
}

/// The text of a flag.
pub open spec fn flag_text(flag: bool) -> Seq<char> {
    if flag {
        "true"@
    } else {
        "false"@
    }
}

/// The accent of a flag: green where it is set, red where it is not.
pub open spec fn flag_accent(flag: bool) -> Accent {
    if flag {
        Accent::Green
    } else {
        Accent::Red
    }
}

/// The text of the two ports.
pub open spec fn ports_text(status: StatusResponse) -> Seq<char> {
    ":"@ + decimal_text(status.dns_port as nat) + " (DNS), :"@ + decimal_text(
        status.http_port as nat,
    ) + " (HTTP)"@
}

/// The lines of the status panel, each as label, value and accent.
pub open spec fn status_lines_of(status: StatusResponse, stats: StatsResponse) -> Seq<
    (Seq<char>, Seq<char>, Accent),
> {
    seq![
        ("Running: "@, flag_text(status.running), flag_accent(status.running)),
        (
            "Protection Enabled: "@,
            flag_text(status.protection_enabled),
            flag_accent(status.protection_enabled),
        ),
        ("DHCP Available: "@, flag_text(status.dhcp_available), flag_accent(status.dhcp_available)),
        ("Avg Processing Time: "@, stats.avg_processing_time@ + "ms"@, Accent::Blue),
        ("Version: "@, status.version@, Accent::Blue),
        ("Ports: "@, ports_text(status), Accent::Blue),
        ("Total Queries: "@, decimal_text(stats.num_dns_queries as nat), Accent::Green),
        ("Filtered: "@, decimal_text(stats.num_blocked_filtering as nat), Accent::Yellow),
        ("Malware Blocked: "@, decimal_text(stats.num_replaced_safebrowsing as nat), Accent::Red),
        ("Parental Controls: "@, decimal_text(stats.num_replaced_parental as nat), Accent::Magenta),
        ("Safe Search: "@, decimal_text(stats.num_replaced_safesearch as nat), Accent::Cyan),
    ]
}

impl StatusLine {
    /// The texts and the accent of the line.
    pub open spec fn as_triple(self) -> (Seq<char>, Seq<char>, Accent) {
        (self.label@, self.value@, self.accent)
    }
}

impl StatusPanel {
    /// Whether this is the panel of `status` and `stats`.
    pub open spec fn shows(self, status: StatusResponse, stats: StatsResponse) -> bool {
        &&& self.lines@.len() == status_lines_of(status, stats).len()
        &&& forall|i: int|
            0 <= i < self.lines@.len() ==> (#[trigger] self.lines@[i]).as_triple()
                == status_lines_of(status, stats)[i]
    }
}

fn status_line(label: &str, value: String, accent: Accent) -> (line: StatusLine)
    ensures
        line.as_triple() == (label@, value@, accent),
{
    StatusLine { label: String::from_str(label), value, accent }
}

fn flag_line(label: &str, flag: bool) -> (line: StatusLine)
    ensures
        line.as_triple() == (label@, flag_text(flag), flag_accent(flag)),
{
    if flag {
        status_line(label, String::from_str("true"), Accent::Green)
    } else {
        status_line(label, String::from_str("false"), Accent::Red)
    }
}

/// Builds the status panel: the server's flags, its version and ports, and
/// the cumulative counters.
pub fn render_status_paragraph(status: &StatusResponse, stats: &StatsResponse) -> (panel:
    StatusPanel)
    ensures
        panel.shows(*status, *stats),
{
    let mut lines: Vec<StatusLine> = Vec::new();
    lines.push(flag_line("Running: ", status.running));
    lines.push(flag_line("Protection Enabled: ", status.protection_enabled));
    lines.push(flag_line("DHCP Available: ", status.dhcp_available));
    lines.push(
        status_line(
            "Avg Processing Time: ",
            stats.avg_processing_time.clone().concat("ms"),
            Accent::Blue,
        ),
    );
    lines.push(status_line("Version: ", status.version.clone(), Accent::Blue));
    let mut ports = String::from_str(":");
    push_decimal(&mut ports, status.dns_port as u128);
    ports.append(" (DNS), :");
    push_decimal(&mut ports, status.http_port as u128);
    ports.append(" (HTTP)");
    lines.push(status_line("Ports: ", ports, Accent::Blue));
    lines.push(
        status_line("Total Queries: ", decimal_string(stats.num_dns_queries as u128), Accent::Green),
    );
    lines.push(
        status_line(
            "Filtered: ",
            decimal_string(stats.num_blocked_filtering as u128),
            Accent::Yellow,
        ),
    );
    lines.push(
        status_line(
            "Malware Blocked: ",
            decimal_string(stats.num_replaced_safebrowsing as u128),
            Accent::Red,
        ),
    );
    lines.push(
        status_line(
            "Parental Controls: ",
            decimal_string(stats.num_replaced_parental as u128),
            Accent::Magenta,
        ),
    );
    lines.push(
        status_line(
            "Safe Search: ",
            decimal_string(stats.num_replaced_safesearch as u128),
            Accent::Cyan,
        ),
    );
    StatusPanel { lines }
}

/// The number of characters left for a name in a list on a screen of `width`
/// columns, where `taken` of a quarter of the screen go to what stands beside
/// the name; `None` where fewer than three would be left, too few to cut a
/// name and mark the cut.
pub open spec fn name_room_of(width: u16, taken: u16) -> Option<int> {
    if width / 4 >= taken + 3 {
        Some(width / 4 - taken)
    } else {
        None
    }
}

/// A name as a list shows it: cut to the room there is, after a space.
pub open spec fn shown_name_of(name: Seq<char>, room: Option<int>) -> Seq<char> {
    match room {
        Some(room) => if name.len() > room {
            " "@ + name.subrange(0, room - 3) + "..."@
        } else {
            " "@ + name
        },
        None => " "@ + name,
    }
}

/// A count as a list shows it: in brackets, after a space.
pub open spec fn shown_count_of(count: int) -> Seq<char> {
    " ("@ + signed_decimal_text(count) + ")"@
}

fn shown_name(name: &str, width: u16, taken: u16) -> (text: String)
    requires
        taken <= 100,
    ensures
        text@ == shown_name_of(name@, name_room_of(width, taken)),
{
    let quarter = width / 4;
    let mut text = String::from_str(" ");
    if quarter >= taken + 3 {
        let cut = truncate(name, (quarter - taken) as usize);
        text.append(cut.as_str());
    } else {
        text.append(name);
    }
    text
}

fn shown_count(count: i128) -> (text: String)
    requires
        count > i128::MIN,
    ensures
        text@ == shown_count_of(count as int),
{
    let mut text = String::from_str(" (");
    push_signed_decimal(&mut text, count);
    text.append(")");
    text
}

/// One entry of a ranked list.
#[derive(Clone, Debug, PartialEq, Eq)]
pub struct RankedItem {
    pub name: String,
    pub count: String,
}

/// A ranked list.
#[derive(Clone, Debug, PartialEq, Eq)]
pub struct RankedList {
    pub title: String,
    /// The accent of the counts.
    pub accent: Accent,
    pub items: Vec<RankedItem>,
}

/// The columns of a quarter of the screen that a ranked list needs beside a
/// name.
pub const RANKED_TAKEN: u16 = 12;

/// The columns of a quarter of the screen that the list of filters needs
/// beside a name.
pub const FILTERS_TAKEN: u16 = 14;

impl RankedList {
    /// Whether this is the list of `data` under `title` on a screen of
    /// `width` columns.
    pub open spec fn shows(
        self,
        title: Seq<char>,
        data: Seq<DomainData>,
        color: Accent,
        width: u16,
    ) -> bool {
        &&& self.title@ == title
        &&& self.accent == color
        &&& self.items@.len() == data.len()
        &&& forall|i: int|
            0 <= i < data.len() ==> {
                &&& (#[trigger] self.items@[i]).name@ == shown_name_of(
                    data[i].name@,
                    name_room_of(width, RANKED_TAKEN),
                )
                &&& self.items@[i].count@ == shown_count_of(data[i].count as int)
            }
    }
}

/// Builds a ranked list of names with their counts, in the order of `data`.
pub fn make_list(title: &str, data: &[DomainData], color: Accent, width: u16) -> (list: RankedList)
    ensures
        list.shows(title@, data@, color, width),
{
    let mut items: Vec<RankedItem> = Vec::new();
    let mut i: usize = 0;
    while i < data.len()
        invariant
            0 <= i <= data@.len(),
            items@.len() == i,
            forall|p: int|
                0 <= p < i ==> {
                    &&& (#[trigger] items@[p]).name@ == shown_name_of(
                        data@[p].name@,
                        name_room_of(width, RANKED_TAKEN),
                    )
                    &&& items@[p].count@ == shown_count_of(data@[p].count as int)
                },
        decreases data@.len() - i,
    {
        let name = shown_name(data[i].name.as_str(), width, RANKED_TAKEN);
        let count = shown_count(data[i].count as i128);
        items.push(RankedItem { name, count });
        i += 1;
    }
    RankedList { title: String::from_str(title), accent: color, items }
}

/// One entry of the list of filters.
#[derive(Clone, Debug, PartialEq, Eq)]
pub struct FilterItem {
    /// Whether the filter is switched on.
    pub enabled: bool,
    /// The accent of the mark that says so.
    pub accent: Accent,
    pub name: String,
    pub rule_count: String,
}

/// The list of filters.
#[derive(Clone, Debug, PartialEq, Eq)]
pub struct FilterList {
    pub items: Vec<FilterItem>,
}

impl FilterItem {
    /// Whether this is the entry of `filter` on a screen of `width` columns.
    pub open spec fn shows(self, filter: Filter, width: u16) -> bool {
        &&& self.enabled == filter.enabled
        &&& self.accent == flag_accent(filter.enabled)
        &&& self.name@ == shown_name_of(filter.name@, name_room_of(width, FILTERS_TAKEN))
        &&& self.rule_count@ == shown_count_of(filter.rules_count as int)
    }
}

impl FilterList {
    /// Whether this is the list of `filters` on a screen of `width` columns.
    pub open spec fn shows(self, filters: Seq<Filter>, width: u16) -> bool {
        &&& self.items@.len() == filters.len()
        &&& forall|i: int|
            0 <= i < filters.len() ==> (#[trigger] self.items@[i]).shows(filters[i], width)
    }
}

/// Builds the list of filters, in the order of `filters`.
pub fn make_filters_list(filters: &[Filter], width: u16) -> (list: FilterList)
    ensures
        list.shows(filters@, width),
{
    let mut items: Vec<FilterItem> = Vec::new();
    let mut i: usize = 0;
    while i < filters.len()
        invariant
            0 <= i <= filters@.len(),
            items@.len() == i,
            forall|p: int| 0 <= p < i ==> (#[trigger] items@[p]).shows(filters@[p], width),
        decreases filters@.len() - i,
    {
        let filter = &filters[i];
        let accent = if filter.enabled {
            Accent::Green
        } else {
            Accent::Red
        };
        let name = shown_name(filter.name.as_str(), width, FILTERS_TAKEN);
        let rule_count = shown_count(filter.rules_count as i128);
        items.push(FilterItem { enabled: filter.enabled, accent, name, rule_count });
        i += 1;
    }
    FilterList { items }
}

} // verus!
