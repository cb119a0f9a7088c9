//! Version checks: whether the server is recent enough for the dashboard,
//! and whether the dashboard itself is up to date.

use std::cmp::Ordering;
use vstd::prelude::*;
use vstd::string::*;
use crate::request::{is_success, Response};

verus! {

/// How one version stands to another.
#[derive(Clone, Copy, Debug, PartialEq, Eq, Structural)]
pub enum VersionOrder {
    Older,
    Same,
    Newer,
}

/// How the semantic version `first` stands to `second` in the order of
/// `Version::cmp`; `None` where one of the two texts is no semantic version.
pub uninterp spec fn semver_order(first: Seq<char>, second: Seq<char>) -> Option<VersionOrder>;

/// Parses both texts with `semver::Version::parse` and compares the versions
/// with their `cmp`. The contract gives the outcome a name: the order of the
/// two, or nothing where the parser refuses one of them.
#[verifier::external_body]
fn version_order(first: &str, second: &str) -> (order: Option<VersionOrder>)
    ensures
        order == semver_order(first@, second@),
{
    match (semver::Version::parse(first), semver::Version::parse(second)) {
        (Ok(first), Ok(second)) => Some(
            match first.cmp(&second) {
                Ordering::Less => VersionOrder::Older,
                Ordering::Equal => VersionOrder::Same,
                Ordering::Greater => VersionOrder::Newer,
            },
        ),
        _ => None,
    }
}

/// What the check of the server's version found.
#[derive(Clone, Copy, Debug, PartialEq, Eq, Structural)]
pub enum VersionVerdict {
    Supported,
    /// The server is older than the oldest version that is supported.
    TooOld,
    /// The server gave no version.
    Missing,
    /// The server's version cannot be read.
    Unreadable,
}

/// The verdict on a server whose version stands to the oldest supported one
/// as `order` says.
pub open spec fn verdict_of(order: Option<VersionOrder>) -> VersionVerdict {
    match order {
        Some(VersionOrder::Older) => VersionVerdict::TooOld,
        Some(_) => VersionVerdict::Supported,
        None => VersionVerdict::Unreadable,
    }
}

/// Gives the verdict on a server whose version stands to the oldest
/// supported one as `order` says.
pub fn version_verdict(order: Option<VersionOrder>) -> (verdict: VersionVerdict)
    ensures
        verdict == verdict_of(order),
{
    match order {
        Some(VersionOrder::Older) => VersionVerdict::TooOld,
        Some(_) => VersionVerdict::Supported,
        None => VersionVerdict::Unreadable,
    }
}

/// The verdict on a server that reports `version`, a semantic version behind
/// one leading character.
pub open spec fn server_verdict_of(version: Option<Seq<char>>) -> VersionVerdict {
    match version {
        None => VersionVerdict::Missing,
        Some(text) => if text.len() == 0 {
            VersionVerdict::Unreadable
        } else {
            verdict_of(semver_order(text.subrange(1, text.len() as int), "0.107.29"@))
        },
    }
}

/// Checks that the server is recent enough. The server writes its version
/// with a leading `v`, which is not part of the version.
pub fn check_version(version: Option<&str>) -> (verdict: VersionVerdict)
    ensures
        verdict == server_verdict_of(
            match version {
                Some(text) => Some(text@),
                None => None,
            },
        ),
{
    match version {
        None => VersionVerdict::Missing,
        Some(text) => {
            let len = text.unicode_len();
            if len == 0 {
                VersionVerdict::Unreadable
            } else {
                version_verdict(version_order(text.substring_char(1, len), "0.107.29"))
            }
        },
    }
}

/// What the check for a newer dashboard found.
#[derive(Clone, Copy, Debug, PartialEq, Eq, Structural)]
pub enum UpdateStatus {
    /// One of the two versions is not known.
    Unknown,
    UpdateAvailable,
    UpToDate,
    /// The running version is ahead of the newest release.
    AheadOfRelease,
}

/// The status of a dashboard whose version stands to version 0.0.0 as
/// `current_to_zero` says and to the newest release as `current_to_latest`
/// says, where that release stands to 0.0.0 as `latest_to_zero` says. A
/// version that cannot be read, or that is 0.0.0, is not known.
pub open spec fn update_status_of(
    current_to_zero: Option<VersionOrder>,
    latest_to_zero: Option<VersionOrder>,
    current_to_latest: Option<VersionOrder>,
) -> UpdateStatus {
    if current_to_zero is None || current_to_zero == Some(VersionOrder::Same) || latest_to_zero
        is None || latest_to_zero == Some(VersionOrder::Same) {
        UpdateStatus::Unknown
    } else {
        match current_to_latest {
            Some(VersionOrder::Older) => UpdateStatus::UpdateAvailable,
            Some(VersionOrder::Same) => UpdateStatus::UpToDate,
            Some(VersionOrder::Newer) => UpdateStatus::AheadOfRelease,
            None => UpdateStatus::Unknown,
        }
    }
}

fn is_known(to_zero: Option<VersionOrder>) -> (known: bool)
    ensures
        known == !(to_zero is None || to_zero == Some(VersionOrder::Same)),
{
    match to_zero {
        None => false,
        Some(VersionOrder::Same) => false,
        Some(_) => true,
    }
}

/// Decides the status of the dashboard from the three comparisons.
pub fn update_status(
    current_to_zero: Option<VersionOrder>,
    latest_to_zero: Option<VersionOrder>,
    current_to_latest: Option<VersionOrder>,
) -> (status: UpdateStatus)
    ensures
        status == update_status_of(current_to_zero, latest_to_zero, current_to_latest),
{
    if !is_known(current_to_zero) || !is_known(latest_to_zero) {
        return UpdateStatus::Unknown;
    }
    match current_to_latest {
        Some(VersionOrder::Older) => UpdateStatus::UpdateAvailable,
        Some(VersionOrder::Same) => UpdateStatus::UpToDate,
        Some(VersionOrder::Newer) => UpdateStatus::AheadOfRelease,
        None => UpdateStatus::Unknown,
    }
}

/// Compares the running version `current` with the newest release `latest`;
/// `latest` is `None` where the release could not be found out.
pub fn check_for_updates(current: &str, latest: Option<&str>) -> (status: UpdateStatus)
    ensures
        status == match latest {
            Some(latest) => update_status_of(
                semver_order(current@, "0.0.0"@),
                semver_order(latest@, "0.0.0"@),
                semver_order(current@, latest@),
            ),
            None => UpdateStatus::Unknown,
        },
{
    match latest {
        Some(latest) => update_status(
            version_order(current, "0.0.0"),
            version_order(latest, "0.0.0"),
            version_order(current, latest),
        ),
        None => UpdateStatus::Unknown,
    }
}

/// What the first connection to the server showed.
#[derive(Clone, Copy, Debug, PartialEq, Eq, Structural)]
pub enum ConnectionVerdict {
    /// The server answered, let the dashboard in, and is of the given
    /// standing.
    Connected(VersionVerdict),
    /// The server answered and refused the credentials.
    AuthenticationFailed,
    /// The server did not answer.
    Unreachable,
}

/// The verdict on a connection that ended in `response`, where the server
/// reported `version` if it answered with success.
pub open spec fn connection_verdict_of(response: Response, version: Option<Seq<char>>)
    -> ConnectionVerdict {
    match response {
        Response::Unanswered => ConnectionVerdict::Unreachable,
        Response::Answered { status, .. } => if is_success(status) {
            ConnectionVerdict::Connected(server_verdict_of(version))
        } else {
            ConnectionVerdict::AuthenticationFailed
        },
    }
}

/// Judges the first connection to the server: whether it answered, whether
/// it let the dashboard in, and whether it is recent enough.
pub fn verify_connection(response: Response, version: Option<&str>) -> (verdict: ConnectionVerdict)
    ensures
        verdict == connection_verdict_of(
            response,
            match version {
                Some(text) => Some(text@),
                None => None,
            },
        ),
{
    match response {
        Response::Unanswered => ConnectionVerdict::Unreachable,
        Response::Answered { status, readable: _ } => if 200 <= status && status <= 299 {
            ConnectionVerdict::Connected(check_version(version))
        } else {
            ConnectionVerdict::AuthenticationFailed
        },
    }
}

} // verus!
