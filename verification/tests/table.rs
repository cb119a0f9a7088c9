use adguardian::model::{Accent, ClientInfo, Query, Question, ValidationError};
use adguardian::table::{
    age_text, check_queries, client_label, make_query_row, make_query_table, make_request_cell,
    time_ago, Instant,
};

fn question() -> Question {
    Question {
        class: String::from("IN"),
        name: String::from("example.com"),
        question_type: String::from("AAAA"),
    }
}

fn query(reason: &str, cached: bool, elapsed: &str, name: Option<Option<&str>>) -> Query {
    Query {
        cached,
        client: String::from("192.168.1.7"),
        elapsed_ms: String::from(elapsed),
        question: question(),
        reason: String::from(reason),
        time: String::from("2023-05-29T10:00:00+00:00"),
        upstream: String::from("9.9.9.9:53"),
        client_info: name.map(|name| ClientInfo { name: name.map(String::from) }),
    }
}

const NOON: Instant = Instant { secs: 1_685_361_600, nanos: 0 };

fn after(secs: i64, nanos: u32) -> Instant {
    Instant { secs: NOON.secs + secs, nanos }
}

#[test]
fn request_cell_names_class_type_and_name() {
    assert_eq!(make_request_cell(&question()), "[IN] AAAA - example.com");
    let empty = Question {
        class: String::new(),
        name: String::new(),
        question_type: String::new(),
    };
    assert_eq!(make_request_cell(&empty), "[]  - ");
}

#[test]
fn age_in_seconds_below_a_minute() {
    let then = Instant { secs: 1000, nanos: 0 };
    assert_eq!(age_text(then, Instant { secs: 1000, nanos: 0 }), "0 sec ago");
    assert_eq!(age_text(then, Instant { secs: 1059, nanos: 999_999_999 }), "59 sec ago");
    assert_eq!(age_text(then, Instant { secs: 1060, nanos: 0 }), "1 min ago");
    assert_eq!(age_text(then, Instant { secs: 1119, nanos: 5 }), "1 min ago");
    assert_eq!(age_text(then, Instant { secs: 1120, nanos: 0 }), "2 min ago");
    assert_eq!(age_text(then, Instant { secs: 1000 + 86_400, nanos: 0 }), "1440 min ago");
}

#[test]
fn age_counts_whole_seconds() {
    let then = Instant { secs: 1000, nanos: 500_000_000 };
    assert_eq!(age_text(then, Instant { secs: 1001, nanos: 499_999_999 }), "0 sec ago");
    assert_eq!(age_text(then, Instant { secs: 1001, nanos: 500_000_000 }), "1 sec ago");
    assert_eq!(age_text(then, Instant { secs: 1060, nanos: 499_999_999 }), "59 sec ago");
    assert_eq!(age_text(then, Instant { secs: 1060, nanos: 500_000_000 }), "1 min ago");
}

#[test]
fn age_of_a_time_to_come() {
    let then = Instant { secs: 1000, nanos: 0 };
    assert_eq!(age_text(then, Instant { secs: 995, nanos: 0 }), "-5 sec ago");
    assert_eq!(age_text(then, Instant { secs: 999, nanos: 500_000_000 }), "0 sec ago");
    assert_eq!(age_text(then, Instant { secs: 0, nanos: 0 }), "-1000 sec ago");
    assert_eq!(
        age_text(Instant { secs: i64::MAX, nanos: u32::MAX }, Instant { secs: i64::MIN, nanos: 0 }),
        "-18446744073709551619 sec ago"
    );
    assert_eq!(
        age_text(Instant { secs: i64::MIN, nanos: 0 }, Instant { secs: i64::MAX, nanos: 0 }),
        "307445734561825860 min ago"
    );
}

#[test]
fn time_ago_reads_the_timestamp() {
    assert_eq!(time_ago("2023-05-29T12:00:00Z", after(30, 0)), Some(String::from("30 sec ago")));
    assert_eq!(
        time_ago("2023-05-29T12:00:00+00:00", after(150, 0)),
        Some(String::from("2 min ago"))
    );
    assert_eq!(
        time_ago("2023-05-29T14:00:00+02:00", after(59, 0)),
        Some(String::from("59 sec ago"))
    );
    assert_eq!(
        time_ago("2023-05-29T12:00:00.750Z", after(1, 700_000_000)),
        Some(String::from("0 sec ago"))
    );
    assert_eq!(
        time_ago("2023-05-29T12:00:00.750Z", after(1, 750_000_000)),
        Some(String::from("1 sec ago"))
    );
    assert_eq!(time_ago("1970-01-01T00:00:10Z", Instant { secs: 20, nanos: 0 }), Some(String::from("10 sec ago")));
}

#[test]
fn time_ago_refuses_what_is_no_timestamp() {
    assert_eq!(time_ago("", NOON), None);
    assert_eq!(time_ago("yesterday", NOON), None);
    assert_eq!(time_ago("2023-05-29 12:00:00", NOON), None);
    assert_eq!(time_ago("2023-13-29T12:00:00Z", NOON), None);
}

#[test]
fn client_is_shown_by_name_where_one_is_known() {
    assert_eq!(client_label(&query("Rewrite", false, "1", None)), "192.168.1.7");
    assert_eq!(client_label(&query("Rewrite", false, "1", Some(None))), "192.168.1.7");
    assert_eq!(client_label(&query("Rewrite", false, "1", Some(Some("")))), "192.168.1.7");
    assert_eq!(client_label(&query("Rewrite", false, "1", Some(Some("laptop")))), "laptop");
}

#[test]
fn row_of_a_query() {
    let row = make_query_row(&query("FilteredBlackList", true, "25.5", Some(Some("tv"))), after(90, 0))
        .unwrap();
    assert_eq!(row.time, "121 min ago");
    assert_eq!(row.request, "[IN] AAAA - example.com");
    assert_eq!(row.status, "Blacklisted");
    assert_eq!(row.status_accent, Accent::Red);
    assert_eq!(row.time_taken, "25.50 ms");
    assert_eq!(row.time_taken_accent, Accent::Red);
    assert_eq!(row.client, "tv");
    assert_eq!(row.upstream, "9.9.9.9:53");
    assert_eq!(row.accent, Accent::Red);
}

#[test]
fn row_with_unreadable_timestamp() {
    let mut query = query("NotFilteredNotFound", true, "0.2", None);
    query.time = String::from("not a time");
    let row = make_query_row(&query, NOON).unwrap();
    assert_eq!(row.time, "unknown");
    assert_eq!(row.status, "Cached");
    assert_eq!(row.status_accent, Accent::Cyan);
    assert_eq!(row.accent, Accent::Green);
    assert_eq!(row.time_taken_accent, Accent::Green);
}

#[test]
fn narrow_table_has_four_columns() {
    let data = vec![query("Rewrite", false, "1", None), query("Other", false, "2", None)];
    for width in [0u16, 80, 120] {
        let table = make_query_table(&data, width, NOON).unwrap();
        assert_eq!(table.headers, vec!["Time", "Request", "Status", "Time Taken"]);
        assert_eq!(table.widths, vec![20, 40, 20, 20]);
        assert_eq!(table.rows.len(), 2);
    }
}

#[test]
fn wide_table_has_six_columns() {
    let data = vec![query("Rewrite", false, "1", None)];
    for width in [121u16, 200, u16::MAX] {
        let table = make_query_table(&data, width, NOON).unwrap();
        assert_eq!(
            table.headers,
            vec!["Time", "Request", "Status", "Time Taken", "Client", "Upstream DNS"]
        );
        assert_eq!(table.widths, vec![15, 35, 10, 10, 15, 15]);
        assert_eq!(table.rows[0], make_query_row(&data[0], NOON).unwrap());
    }
}

#[test]
fn table_keeps_the_order_of_the_log() {
    let data = vec![
        query("Rewrite", false, "1", Some(Some("a"))),
        query("Rewrite", false, "2", Some(Some("b"))),
        query("Rewrite", false, "3", Some(Some("c"))),
    ];
    let table = make_query_table(&data, 100, NOON).unwrap();
    let clients: Vec<&str> = table.rows.iter().map(|row| row.client.as_str()).collect();
    assert_eq!(clients, vec!["a", "b", "c"]);
    assert_eq!(make_query_table(&[], 100, NOON).unwrap().rows.len(), 0);
}

#[test]
fn one_unreadable_elapsed_time_fails_the_table() {
    let data = vec![query("Rewrite", false, "1", None), query("Rewrite", false, "fast", None)];
    assert_eq!(make_query_table(&data, 100, NOON), Err(ValidationError::BadElapsed));
    assert_eq!(make_query_row(&data[1], NOON), Err(ValidationError::BadElapsed));
}

#[test]
fn queries_are_checked_as_the_table_reads_them() {
    let good = vec![query("Rewrite", false, "1", None), query("Rewrite", false, "0.25", None)];
    assert_eq!(check_queries(&good), None);
    assert_eq!(check_queries(&[]), None);
    let bad = vec![query("Rewrite", false, "1", None), query("Rewrite", false, "1ms", None)];
    assert_eq!(check_queries(&bad), Some(ValidationError::BadElapsed));
}

#[test]
fn table_reads_times_with_sign_and_exponent() {
    let data = vec![
        query("Rewrite", false, "1e3", None),
        query("Rewrite", false, "+1.5", None),
        query("Rewrite", false, "5E-1", None),
    ];
    let table = make_query_table(&data, 100, NOON).unwrap();
    let cells: Vec<(&str, Accent)> =
        table.rows.iter().map(|row| (row.time_taken.as_str(), row.time_taken_accent)).collect();
    assert_eq!(
        cells,
        vec![("1000.00 ms", Accent::Red), ("1.50 ms", Accent::Yellow), ("0.50 ms", Accent::Green)]
    );
    assert_eq!(check_queries(&data), None);
}
