use adguardian::model::{
    Accent, AdGuardFilteringStatus, ClientInfo, DomainData, Filter, Query, Question,
    StatsResponse, StatusResponse, TickResult, ValidationError,
};
use adguardian::panels::{make_filters_list, make_gauge, make_list, render_status_paragraph};
use adguardian::render::{
    build_frame, classify_input, latest_tick, renderer_step, screen_layout, InputEvent,
    InputKind, RendererAction, ScreenLayout,
};
use adguardian::table::Instant;
use adguardian::text::{decimal_string, push_decimal, push_signed_decimal, str_eq, truncate};

fn stats() -> StatsResponse {
    StatsResponse {
        num_dns_queries: 1200,
        num_blocked_filtering: 100,
        num_replaced_safebrowsing: 10,
        num_replaced_safesearch: 7,
        num_replaced_parental: 3,
        avg_processing_time: String::from("0.034"),
        dns_queries: vec![100, 300, 800],
        blocked_filtering: vec![10, 30, 60],
        replaced_safebrowsing: vec![0, 4, 6],
        replaced_parental: vec![1, 1, 1],
        top_queried_domains: vec![
            DomainData { name: String::from("example.com"), count: 40 },
            DomainData { name: String::from("a-very-long-domain-name.example.org"), count: 7 },
        ],
        top_blocked_domains: vec![DomainData { name: String::from("ads.example"), count: -1 }],
        top_clients: vec![],
    }
}

fn status() -> StatusResponse {
    StatusResponse {
        version: String::from("v0.107.29"),
        language: String::from("en"),
        dns_addresses: vec![String::from("127.0.0.1")],
        dns_port: 53,
        http_port: 3000,
        protection_disabled_duration: 0,
        protection_enabled: false,
        dhcp_available: true,
        running: true,
    }
}

fn query(elapsed: &str) -> Query {
    Query {
        cached: false,
        client: String::from("10.0.0.2"),
        elapsed_ms: String::from(elapsed),
        question: Question {
            class: String::from("IN"),
            name: String::from("example.com"),
            question_type: String::from("A"),
        },
        reason: String::from("Rewrite"),
        time: String::from("2023-05-29T12:00:00Z"),
        upstream: String::new(),
        client_info: None::<ClientInfo>,
    }
}

fn filters() -> AdGuardFilteringStatus {
    AdGuardFilteringStatus {
        filters: vec![
            Filter {
                url: String::from("https://example.com/list.txt"),
                name: String::from("AdGuard DNS filter"),
                rules_count: 51234,
                enabled: true,
            },
            Filter {
                url: String::from("https://example.com/other.txt"),
                name: String::from("Off"),
                rules_count: 0,
                enabled: false,
            },
        ],
    }
}

#[test]
fn decimal_numerals() {
    assert_eq!(decimal_string(0), "0");
    assert_eq!(decimal_string(7), "7");
    assert_eq!(decimal_string(10), "10");
    assert_eq!(decimal_string(1_000_000), "1000000");
    assert_eq!(decimal_string(u128::MAX), u128::MAX.to_string());
    let mut text = String::from("n=");
    push_decimal(&mut text, 305);
    assert_eq!(text, "n=305");
    push_signed_decimal(&mut text, -42);
    assert_eq!(text, "n=305-42");
    push_signed_decimal(&mut text, 0);
    push_signed_decimal(&mut text, i128::MAX);
    assert_eq!(text, format!("n=305-420{}", i128::MAX));
}

#[test]
fn string_slices_compare_by_their_characters() {
    assert!(str_eq("", ""));
    assert!(str_eq("Rewrite", "Rewrite"));
    assert!(!str_eq("Rewrite", "rewrite"));
    assert!(!str_eq("Rewrite", "Rewrit"));
    assert!(!str_eq("", "x"));
    assert!(str_eq("äöü✔", "äöü✔"));
    assert!(!str_eq("äöü", "äöu"));
}

#[test]
fn truncate_cuts_long_texts() {
    assert_eq!(truncate("abcdefghij", 6), "abc...");
    assert_eq!(truncate("abcdefghij", 10), "abcdefghij");
    assert_eq!(truncate("abcdefghij", 9), "abcdef...");
    assert_eq!(truncate("abcd", 3), "...");
    assert_eq!(truncate("", 0), "");
    assert_eq!(truncate("ab", 2), "ab");
    assert_eq!(truncate("äöüäöüäöü", 5), "äö...");
}

#[test]
fn gauge_shows_the_share_of_blocked_queries() {
    let gauge = make_gauge(&stats());
    assert_eq!(gauge.percent, 10);
    assert_eq!(gauge.filled, 10);
    assert_eq!(gauge.label, "Blocked 120 out of 1200 (10%)");
}

#[test]
fn gauge_without_queries_stands_at_zero() {
    let mut stats = stats();
    stats.num_dns_queries = 0;
    let gauge = make_gauge(&stats);
    assert_eq!(gauge.percent, 0);
    assert_eq!(gauge.filled, 0);
    assert_eq!(gauge.label, "Blocked 120 out of 0 (0%)");
}

#[test]
fn gauge_is_filled_to_the_brim_at_most() {
    let mut stats = stats();
    stats.num_dns_queries = 100;
    let gauge = make_gauge(&stats);
    assert_eq!(gauge.percent, 120);
    assert_eq!(gauge.filled, 100);
    assert_eq!(gauge.label, "Blocked 120 out of 100 (120%)");
    stats.num_dns_queries = 120;
    assert_eq!(make_gauge(&stats).filled, 100);
    stats.num_dns_queries = 121;
    assert_eq!(make_gauge(&stats).filled, 99);
    stats.num_dns_queries = 1;
    stats.num_blocked_filtering = u64::MAX;
    assert_eq!(make_gauge(&stats).filled, 100);
}

#[test]
fn status_panel_lines() {
    let panel = render_status_paragraph(&status(), &stats());
    let lines: Vec<(&str, &str, Accent)> = panel
        .lines
        .iter()
        .map(|line| (line.label.as_str(), line.value.as_str(), line.accent))
        .collect();
    assert_eq!(
        lines,
        vec![
            ("Running: ", "true", Accent::Green),
            ("Protection Enabled: ", "false", Accent::Red),
            ("DHCP Available: ", "true", Accent::Green),
            ("Avg Processing Time: ", "0.034ms", Accent::Blue),
            ("Version: ", "v0.107.29", Accent::Blue),
            ("Ports: ", ":53 (DNS), :3000 (HTTP)", Accent::Blue),
            ("Total Queries: ", "1200", Accent::Green),
            ("Filtered: ", "100", Accent::Yellow),
            ("Malware Blocked: ", "10", Accent::Red),
            ("Parental Controls: ", "3", Accent::Magenta),
            ("Safe Search: ", "7", Accent::Cyan),
        ]
    );
}

#[test]
fn ranked_list_cuts_names_to_the_room() {
    let stats = stats();
    let list = make_list("Top Queried Domains", &stats.top_queried_domains, Accent::Green, 120);
    assert_eq!(list.title, "Top Queried Domains");
    assert_eq!(list.accent, Accent::Green);
    assert_eq!(list.items.len(), 2);
    assert_eq!(list.items[0].name, " example.com");
    assert_eq!(list.items[0].count, " (40)");
    assert_eq!(list.items[1].name, " a-very-long-dom...");
    assert_eq!(list.items[1].count, " (7)");
    let wide = make_list("Top Queried Domains", &stats.top_queried_domains, Accent::Green, 400);
    assert_eq!(wide.items[1].name, " a-very-long-domain-name.example.org");
}

#[test]
fn ranked_list_on_a_narrow_screen_leaves_names_whole() {
    let stats = stats();
    for width in [0u16, 47, 48, 59] {
        let list = make_list("Top", &stats.top_queried_domains, Accent::Red, width);
        assert_eq!(list.items[1].name, " a-very-long-domain-name.example.org");
    }
    let list = make_list("Top", &stats.top_queried_domains, Accent::Red, 60);
    assert_eq!(list.items[1].name, " ...");
    assert_eq!(list.items[0].name, " ...");
}

#[test]
fn ranked_list_shows_negative_counts() {
    let stats = stats();
    let list = make_list("Top Blocked Domains", &stats.top_blocked_domains, Accent::Red, 200);
    assert_eq!(list.items[0].count, " (-1)");
    let extreme = vec![DomainData { name: String::new(), count: i32::MIN }];
    assert_eq!(make_list("x", &extreme, Accent::Red, 200).items[0].count, " (-2147483648)");
}

#[test]
fn filters_list_marks_each_filter() {
    let list = make_filters_list(&filters().filters, 120);
    assert_eq!(list.items.len(), 2);
    assert!(list.items[0].enabled);
    assert_eq!(list.items[0].accent, Accent::Green);
    assert_eq!(list.items[0].name, " AdGuard DNS f...");
    assert_eq!(list.items[0].rule_count, " (51234)");
    assert!(!list.items[1].enabled);
    assert_eq!(list.items[1].accent, Accent::Red);
    assert_eq!(list.items[1].name, " Off");
    assert_eq!(list.items[1].rule_count, " (0)");
}

#[test]
fn quit_keys() {
    let key = |character, control| InputEvent::Key { character, control };
    assert_eq!(classify_input(key('q', false)), InputKind::Quit);
    assert_eq!(classify_input(key('Q', false)), InputKind::Quit);
    assert_eq!(classify_input(key('q', true)), InputKind::Quit);
    assert_eq!(classify_input(key('c', true)), InputKind::Quit);
    assert_eq!(classify_input(key('c', false)), InputKind::Ignored);
    assert_eq!(classify_input(key('C', true)), InputKind::Ignored);
    assert_eq!(classify_input(key('x', false)), InputKind::Ignored);
    assert_eq!(classify_input(InputEvent::Resize), InputKind::Resize);
    assert_eq!(classify_input(InputEvent::Other), InputKind::Ignored);
}

#[test]
fn renderer_leaves_on_quit_and_on_shutdown() {
    let quit = InputEvent::Key { character: 'q', control: false };
    let other = InputEvent::Key { character: 'a', control: false };
    assert_eq!(renderer_step(false, Some(quit)), RendererAction::RaiseShutdownAndLeave);
    assert_eq!(renderer_step(false, Some(other)), RendererAction::Continue);
    assert_eq!(renderer_step(false, Some(InputEvent::Resize)), RendererAction::Continue);
    assert_eq!(renderer_step(false, None), RendererAction::Continue);
    assert_eq!(renderer_step(true, None), RendererAction::Leave);
    assert_eq!(renderer_step(true, Some(quit)), RendererAction::Leave);
    assert_eq!(renderer_step(true, Some(other)), RendererAction::Leave);
}

#[test]
fn renderer_shows_the_last_known_result_until_a_new_one_arrives() {
    let old = TickResult { queries: vec![], stats: stats(), status: status() };
    let mut new = old.clone();
    new.stats.num_dns_queries = 5;
    assert_eq!(latest_tick(None, None), None);
    assert_eq!(latest_tick(Some(old.clone()), None), Some(old.clone()));
    assert_eq!(latest_tick(None, Some(new.clone())), Some(new.clone()));
    assert_eq!(latest_tick(Some(old), Some(new.clone())), Some(new));
}

#[test]
fn tall_screens_show_the_lists() {
    let tall = ScreenLayout { top_percent: 30, bottom_percent: 20, show_lists: true };
    let short = ScreenLayout { top_percent: 30, bottom_percent: 0, show_lists: false };
    assert_eq!(screen_layout(43), tall);
    assert_eq!(screen_layout(u16::MAX), tall);
    assert_eq!(screen_layout(42), short);
    assert_eq!(screen_layout(0), short);
}

#[test]
fn frame_of_a_result() {
    let tick = TickResult { queries: vec![query("3.2"), query("0.1")], stats: stats(), status: status() };
    let now = Instant { secs: 1_685_361_600 + 5, nanos: 0 };
    let frame = build_frame(&tick, &filters(), 200, 50, now).unwrap();
    assert_eq!(frame.layout, screen_layout(50));
    assert_eq!(frame.gauge, make_gauge(&tick.stats));
    assert_eq!(frame.status, render_status_paragraph(&tick.status, &tick.stats));
    assert_eq!(frame.filters, make_filters_list(&filters().filters, 200));
    assert_eq!(frame.table.rows.len(), 2);
    assert_eq!(frame.table.rows[0].time, "5 sec ago");
    assert_eq!(frame.table.rows[1].time_taken, "0.10 ms");
    assert_eq!(frame.table.headers.len(), 6);
    assert_eq!(frame.top_queried_domains.title, "Top Queried Domains");
    assert_eq!(frame.top_queried_domains.accent, Accent::Green);
    assert_eq!(frame.top_blocked_domains.title, "Top Blocked Domains");
    assert_eq!(frame.top_blocked_domains.accent, Accent::Red);
    assert_eq!(frame.top_clients.title, "Top Clients");
    assert_eq!(frame.top_clients.accent, Accent::Cyan);
    assert_eq!(frame.series.dns_queries.raw, vec![100, 300, 800]);
    assert_eq!(frame.series.blocked.raw, vec![11, 35, 67]);
    assert_eq!(frame.chart.x_bound, 3);
    assert_eq!(frame.chart.y_bound, 800);
    assert_eq!(frame.chart.x_labels, vec!["3", "3", "3", "3", "Today"]);
    assert_eq!(frame.chart.y_labels, vec!["0", "200", "400", "600", "800"]);
}

#[test]
fn frame_fails_on_statistics_without_chart_first() {
    let mut tick = TickResult { queries: vec![query("bad")], stats: stats(), status: status() };
    let now = Instant { secs: 0, nanos: 0 };
    assert_eq!(build_frame(&tick, &filters(), 200, 50, now), Err(ValidationError::BadElapsed));
    tick.stats.replaced_parental = vec![1];
    assert_eq!(build_frame(&tick, &filters(), 200, 50, now), Err(ValidationError::WindowMismatch));
    tick.stats.dns_queries = vec![];
    assert_eq!(build_frame(&tick, &filters(), 200, 50, now), Err(ValidationError::EmptyWindow));
}
