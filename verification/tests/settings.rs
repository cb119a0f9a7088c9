use adguardian::collector::FetchFailure;
use adguardian::config::{
    assignments_from_args, flag_variable, flatten_domains, polling_interval, shown_value,
};
use adguardian::model::DomainData;
use adguardian::request::{
    basic_auth_value, basic_value, resource_url, response_failure, server_address, Resource,
    Response,
};
use adguardian::version::{
    check_for_updates, check_version, update_status, verify_connection, version_verdict,
    ConnectionVerdict, UpdateStatus, VersionOrder, VersionVerdict,
};

fn args(words: &[&str]) -> Vec<String> {
    words.iter().map(|word| String::from(*word)).collect()
}

fn pairs(assignments: &[(&str, &str)]) -> Vec<(String, String)> {
    assignments.iter().map(|(name, value)| (String::from(*name), String::from(*value))).collect()
}

#[test]
fn flags_name_their_settings() {
    assert_eq!(flag_variable("--adguard-ip"), Some("ADGUARD_IP"));
    assert_eq!(flag_variable("--adguard-port"), Some("ADGUARD_PORT"));
    assert_eq!(flag_variable("--adguard-username"), Some("ADGUARD_USERNAME"));
    assert_eq!(flag_variable("--adguard-password"), Some("ADGUARD_PASSWORD"));
    assert_eq!(flag_variable("--adguard-protocol"), None);
    assert_eq!(flag_variable("adguard-ip"), None);
    assert_eq!(flag_variable(""), None);
}

#[test]
fn flags_take_the_next_argument() {
    let line = args(&[
        "adguardian",
        "--adguard-ip",
        "192.168.1.2",
        "--verbose",
        "--adguard-port",
        "3000",
        "--adguard-username",
        "admin",
        "--adguard-password",
        "secret",
    ]);
    assert_eq!(
        assignments_from_args(&line),
        pairs(&[
            ("ADGUARD_IP", "192.168.1.2"),
            ("ADGUARD_PORT", "3000"),
            ("ADGUARD_USERNAME", "admin"),
            ("ADGUARD_PASSWORD", "secret"),
        ])
    );
}

#[test]
fn a_flag_swallows_a_flag_that_follows_it() {
    let line = args(&["--adguard-ip", "--adguard-port", "3000", "--adguard-ip"]);
    assert_eq!(assignments_from_args(&line), pairs(&[("ADGUARD_IP", "--adguard-port")]));
    assert_eq!(assignments_from_args(&args(&[])), pairs(&[]));
    assert_eq!(assignments_from_args(&args(&["--adguard-port"])), pairs(&[]));
    let twice = args(&["--adguard-ip", "a", "--adguard-ip", "b"]);
    assert_eq!(assignments_from_args(&twice), pairs(&[("ADGUARD_IP", "a"), ("ADGUARD_IP", "b")]));
}

#[test]
fn passwords_are_masked() {
    assert_eq!(shown_value("ADGUARD_PASSWORD", "secret"), "******");
    assert_eq!(shown_value("PASSWORD", ""), "******");
    assert_eq!(shown_value("MY_PASSWORDS", "x"), "******");
    assert_eq!(shown_value("ADGUARD_IP", "10.0.0.1"), "10.0.0.1");
    assert_eq!(shown_value("password", "secret"), "secret");
    assert_eq!(shown_value("PASSWOR", "secret"), "secret");
    assert_eq!(shown_value("", "secret"), "secret");
    assert_eq!(shown_value("PASSWORDPASSWORD", "secret"), "******");
    assert_eq!(shown_value("PPASSWORD", "secret"), "******");
    assert_eq!(shown_value("PASS_WORD", "secret"), "secret");
    assert_eq!(shown_value("ÄPASSWORDö", "secret"), "******");
    assert_eq!(shown_value("ÄPASSWORö", "secret"), "secret");
}

#[test]
fn polling_interval_defaults_to_two_seconds() {
    assert_eq!(polling_interval(None), Some(2));
    assert_eq!(polling_interval(Some("5")), Some(5));
    assert_eq!(polling_interval(Some("0")), Some(0));
    assert_eq!(polling_interval(Some("007")), Some(7));
    assert_eq!(polling_interval(Some("18446744073709551615")), Some(u64::MAX));
    assert_eq!(polling_interval(Some("18446744073709551616")), None);
    assert_eq!(polling_interval(Some("+5")), Some(5));
    assert_eq!(polling_interval(Some("+0")), Some(0));
    assert_eq!(polling_interval(Some("+18446744073709551615")), Some(u64::MAX));
    assert_eq!(polling_interval(Some("+")), None);
    assert_eq!(polling_interval(Some("++5")), None);
    assert_eq!(polling_interval(Some("5+")), None);
    assert_eq!(polling_interval(Some("+ 5")), None);
    assert_eq!(polling_interval(Some("2e0")), None);
    assert_eq!(polling_interval(Some("")), None);
    assert_eq!(polling_interval(Some("2s")), None);
    assert_eq!(polling_interval(Some("-2")), None);
    assert_eq!(polling_interval(Some("1.5")), None);
}

#[test]
fn ranked_names_come_out_in_one_list() {
    let groups = vec![
        vec![(String::from("a.example"), 9)],
        vec![],
        vec![(String::from("b.example"), 5), (String::from("c.example"), -1)],
    ];
    assert_eq!(
        flatten_domains(&groups),
        vec![
            DomainData { name: String::from("a.example"), count: 9 },
            DomainData { name: String::from("b.example"), count: 5 },
            DomainData { name: String::from("c.example"), count: -1 },
        ]
    );
    assert_eq!(flatten_domains(&vec![]), vec![]);
}

#[test]
fn addresses_of_the_server() {
    assert_eq!(server_address("http", "192.168.1.2", "3000"), "http://192.168.1.2:3000");
    let endpoint = server_address("https", "adguard.local", "443");
    assert_eq!(resource_url(&endpoint, Resource::QueryLog), "https://adguard.local:443/control/querylog");
    assert_eq!(resource_url(&endpoint, Resource::Stats), "https://adguard.local:443/control/stats");
    assert_eq!(resource_url(&endpoint, Resource::Status), "https://adguard.local:443/control/status");
    assert_eq!(
        resource_url(&endpoint, Resource::FilteringStatus),
        "https://adguard.local:443/control/filtering/status"
    );
}

#[test]
fn authorization_header_holds_the_encoded_credentials() {
    assert_eq!(basic_auth_value("user", "pass"), "Basic dXNlcjpwYXNz");
    assert_eq!(basic_auth_value("admin", "s3cr3t!"), "Basic YWRtaW46czNjcjN0IQ==");
    assert_eq!(basic_auth_value("", ""), "Basic Og==");
    assert_eq!(basic_value("abc"), "Basic abc");
}

#[test]
fn failures_of_a_request() {
    assert_eq!(response_failure(Response::Unanswered), Some(FetchFailure::Transport));
    for status in [200u16, 204, 299] {
        assert_eq!(response_failure(Response::Answered { status, readable: true }), None);
        assert_eq!(
            response_failure(Response::Answered { status, readable: false }),
            Some(FetchFailure::Protocol)
        );
    }
    for status in [0u16, 199, 300, 401, 404, 500] {
        assert_eq!(
            response_failure(Response::Answered { status, readable: true }),
            Some(FetchFailure::Protocol)
        );
    }
}

#[test]
fn server_version_is_checked_against_the_oldest_supported() {
    assert_eq!(check_version(Some("v0.107.29")), VersionVerdict::Supported);
    assert_eq!(check_version(Some("v0.107.30")), VersionVerdict::Supported);
    assert_eq!(check_version(Some("v1.0.0")), VersionVerdict::Supported);
    assert_eq!(check_version(Some("v0.107.28")), VersionVerdict::TooOld);
    assert_eq!(check_version(Some("v0.106.99")), VersionVerdict::TooOld);
    assert_eq!(check_version(Some("v0.107.29-beta.1")), VersionVerdict::TooOld);
    assert_eq!(check_version(Some("v0.107.29+build")), VersionVerdict::Supported);
    assert_eq!(check_version(Some("x0.108.0")), VersionVerdict::Supported);
    assert_eq!(check_version(None), VersionVerdict::Missing);
    assert_eq!(check_version(Some("")), VersionVerdict::Unreadable);
    assert_eq!(check_version(Some("v")), VersionVerdict::Unreadable);
    assert_eq!(check_version(Some("0.107.29")), VersionVerdict::Unreadable);
    assert_eq!(check_version(Some("v0.107")), VersionVerdict::Unreadable);
}

#[test]
fn verdict_by_order() {
    assert_eq!(version_verdict(Some(VersionOrder::Older)), VersionVerdict::TooOld);
    assert_eq!(version_verdict(Some(VersionOrder::Same)), VersionVerdict::Supported);
    assert_eq!(version_verdict(Some(VersionOrder::Newer)), VersionVerdict::Supported);
    assert_eq!(version_verdict(None), VersionVerdict::Unreadable);
}

#[test]
fn dashboard_version_is_compared_with_the_newest_release() {
    assert_eq!(check_for_updates("1.2.0", Some("1.3.0")), UpdateStatus::UpdateAvailable);
    assert_eq!(check_for_updates("1.3.0", Some("1.3.0")), UpdateStatus::UpToDate);
    assert_eq!(check_for_updates("1.4.0", Some("1.3.0")), UpdateStatus::AheadOfRelease);
    assert_eq!(check_for_updates("1.3.0-rc.1", Some("1.3.0")), UpdateStatus::UpdateAvailable);
    assert_eq!(check_for_updates("1.3.0", None), UpdateStatus::Unknown);
    assert_eq!(check_for_updates("1.3.0", Some("0.0.0")), UpdateStatus::Unknown);
    assert_eq!(check_for_updates("0.0.0", Some("1.3.0")), UpdateStatus::Unknown);
    assert_eq!(check_for_updates("one", Some("1.3.0")), UpdateStatus::Unknown);
    assert_eq!(check_for_updates("1.3.0", Some("latest")), UpdateStatus::Unknown);
}

#[test]
fn update_status_by_order() {
    let newer = Some(VersionOrder::Newer);
    assert_eq!(update_status(newer, newer, Some(VersionOrder::Older)), UpdateStatus::UpdateAvailable);
    assert_eq!(update_status(newer, newer, Some(VersionOrder::Same)), UpdateStatus::UpToDate);
    assert_eq!(update_status(newer, newer, Some(VersionOrder::Newer)), UpdateStatus::AheadOfRelease);
    assert_eq!(update_status(newer, newer, None), UpdateStatus::Unknown);
    assert_eq!(update_status(None, newer, Some(VersionOrder::Older)), UpdateStatus::Unknown);
    assert_eq!(
        update_status(Some(VersionOrder::Same), newer, Some(VersionOrder::Older)),
        UpdateStatus::Unknown
    );
    assert_eq!(
        update_status(newer, Some(VersionOrder::Same), Some(VersionOrder::Newer)),
        UpdateStatus::Unknown
    );
    assert_eq!(update_status(newer, None, Some(VersionOrder::Newer)), UpdateStatus::Unknown);
}

#[test]
fn first_connection_is_judged() {
    let ok = Response::Answered { status: 200, readable: true };
    assert_eq!(
        verify_connection(ok, Some("v0.107.36")),
        ConnectionVerdict::Connected(VersionVerdict::Supported)
    );
    assert_eq!(
        verify_connection(ok, Some("v0.100.0")),
        ConnectionVerdict::Connected(VersionVerdict::TooOld)
    );
    assert_eq!(verify_connection(ok, None), ConnectionVerdict::Connected(VersionVerdict::Missing));
    assert_eq!(
        verify_connection(ok, Some("latest")),
        ConnectionVerdict::Connected(VersionVerdict::Unreadable)
    );
    for status in [401u16, 403, 500, 199, 300] {
        let refused = Response::Answered { status, readable: false };
        assert_eq!(
            verify_connection(refused, Some("v0.107.36")),
            ConnectionVerdict::AuthenticationFailed
        );
    }
    assert_eq!(
        verify_connection(Response::Unanswered, Some("v0.107.36")),
        ConnectionVerdict::Unreachable
    );
}
