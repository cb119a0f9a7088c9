//! Classifier: display category and accent of a query, share of blocked queries.

use vstd::prelude::*;
use crate::model::{Accent, StatsResponse};
use crate::text::str_eq;

verus! {

/// The display category of a query.
#[derive(Clone, Copy, Debug, PartialEq, Eq, Structural)]
pub enum StatusCategory {
    Blacklisted,
    Cached,
    Rewrite,
    Allowed,
    OtherBlock,
}

/// The category of a query with the given block reason and cache flag: the
/// first rule that matches decides.
pub open spec fn status_category_of(reason: Seq<char>, cached: bool) -> StatusCategory {
    if reason == "FilteredBlackList"@ {
        StatusCategory::Blacklisted
    } else if cached {
        StatusCategory::Cached
    } else if reason == "Rewrite"@ {
        StatusCategory::Rewrite
    } else if reason == "NotFilteredNotFound"@ {
        StatusCategory::Allowed
    } else {
        StatusCategory::OtherBlock
    }
}

/// The accent of a row, which goes by the block reason alone.
pub open spec fn row_accent_of(reason: Seq<char>) -> Accent {
    if reason == "NotFilteredNotFound"@ {
        Accent::Green
    } else if reason == "FilteredBlackList"@ {
        Accent::Red
    } else if reason == "Rewrite"@ {
        Accent::LightGreen
    } else {
        Accent::Yellow
    }
}

impl StatusCategory {
    /// The text shown for the category.
    pub open spec fn label_text(self) -> Seq<char> {
        match self {
            StatusCategory::Blacklisted => "Blacklisted"@,
            StatusCategory::Cached => "Cached"@,
            StatusCategory::Rewrite => "Rewrite"@,
            StatusCategory::Allowed => "Allowed"@,
            StatusCategory::OtherBlock => "Other Block"@,
        }
    }

    /// The accent in which the category is shown.
    pub open spec fn accent_of(self) -> Accent {
        match self {
            StatusCategory::Blacklisted => Accent::Red,
            StatusCategory::Cached => Accent::Cyan,
            StatusCategory::Rewrite => Accent::LightGreen,
            StatusCategory::Allowed => Accent::Green,
            StatusCategory::OtherBlock => Accent::Yellow,
        }
    }

    /// Gives the text shown for the category.
    pub fn label(self) -> (text: &'static str)
        ensures
            text@ == self.label_text(),
    {
        match self {
            StatusCategory::Blacklisted => "Blacklisted",
            StatusCategory::Cached => "Cached",
            StatusCategory::Rewrite => "Rewrite",
            StatusCategory::Allowed => "Allowed",
            StatusCategory::OtherBlock => "Other Block",
        }
    }

    /// Gives the accent in which the category is shown.
    pub fn accent(self) -> (accent: Accent)
        ensures
            accent == self.accent_of(),
    {
        match self {
            StatusCategory::Blacklisted => Accent::Red,
            StatusCategory::Cached => Accent::Cyan,
            StatusCategory::Rewrite => Accent::LightGreen,
            StatusCategory::Allowed => Accent::Green,
            StatusCategory::OtherBlock => Accent::Yellow,
        }
    }
}

/// Classifies a query by its block reason and cache flag.
pub fn status_category(reason: &str, cached: bool) -> (category: StatusCategory)
    ensures
        category == status_category_of(reason@, cached),
{
    if str_eq(reason, "FilteredBlackList") {
        StatusCategory::Blacklisted
    } else if cached {
        StatusCategory::Cached
    } else if str_eq(reason, "Rewrite") {
        StatusCategory::Rewrite
    } else if str_eq(reason, "NotFilteredNotFound") {
        StatusCategory::Allowed
    } else {
        StatusCategory::OtherBlock
    }
}

/// Text and accent of the status cell of a query.
pub fn block_status_text(reason: &str, cached: bool) -> (cell: (String, Accent))
    ensures
        cell.0@ == status_category_of(reason@, cached).label_text(),
        cell.1 == status_category_of(reason@, cached).accent_of(),
{
    let category = status_category(reason, cached);
    (String::from_str(category.label()), category.accent())
}

/// The accent of the row of a query.
pub fn make_row_color(reason: &str) -> (accent: Accent)
    ensures
        accent == row_accent_of(reason@),
{
    if str_eq(reason, "NotFilteredNotFound") {
        Accent::Green
    } else if str_eq(reason, "FilteredBlackList") {
        Accent::Red
    } else if str_eq(reason, "Rewrite") {
        Accent::LightGreen
    } else {
        Accent::Yellow
    }
}

/// A blacklisted query is shown as such whether or not the answer was cached,
/// and a cached answer to any other query is shown as cached, whatever the
/// reason.
pub proof fn lemma_status_precedence(reason: Seq<char>, cached: bool)
    ensures
        reason == "FilteredBlackList"@ ==> status_category_of(reason, cached)
            == StatusCategory::Blacklisted,
        reason != "FilteredBlackList"@ && cached ==> status_category_of(reason, cached)
            == StatusCategory::Cached,
        reason == "NotFilteredNotFound"@ && cached ==> status_category_of(reason, cached)
            == StatusCategory::Cached,
{
    reveal_strlit("FilteredBlackList");
    reveal_strlit("NotFilteredNotFound");
    assert("FilteredBlackList"@.len() == 17);
    assert("NotFilteredNotFound"@.len() == 19);
}

/// The sum of the four counters of blocked or replaced queries.
pub open spec fn blocked_total(stats: StatsResponse) -> int {
    stats.num_blocked_filtering + stats.num_replaced_safebrowsing + stats.num_replaced_parental
        + stats.num_replaced_safesearch
}

/// The share of `blocked` in `total` in percent, rounded to the nearest whole
/// number, halves upwards; 0 where `total` is 0.
pub open spec fn percent_of(blocked: int, total: int) -> int {
    if total == 0 {
        0
    } else {
        (200 * blocked + total) / (2 * total)
    }
}

/// The percentage of queries that were blocked or replaced.
pub fn block_percentage(stats: &StatsResponse) -> (percent: u128)
    ensures
        percent == percent_of(blocked_total(*stats), stats.num_dns_queries as int),
        stats.num_dns_queries == 0 ==> percent == 0,
{
    let total: u128 = stats.num_dns_queries as u128;
    if total == 0 {
        return 0;
    }
    let blocked: u128 = stats.num_blocked_filtering as u128
        + stats.num_replaced_safebrowsing as u128 + stats.num_replaced_parental as u128
        + stats.num_replaced_safesearch as u128;
    (200 * blocked + total) / (2 * total)
}

} // verus!
