use ai_cli::alpha_vantage::{alpha_vantage_query, find_time_series_key, limit_time_series, Member};
use ai_cli::config::Config;
use ai_cli::email::{email_report, send_email, EmailOutcome};
use ai_cli::scrape::{needs_summary, scrape_result, scrape_url, Fetched};
use ai_cli::search::{
    next_attempt, search_answer, search_failed, search_online, search_unconfigured, AnswerSource,
    Attempt, SearchHit, SearchReply,
};
use ai_cli::similarity::{
    build_term_graph, document_frequencies, graph_overlap, has_term, overlap, term_counts, terms,
    Overlap,
};

fn hit(n: usize) -> SearchHit {
    SearchHit { title: format!("t{}", n), url: format!("u{}", n), content: format!("c{}", n) }
}

fn strings(v: &[&str]) -> Vec<String> {
    v.iter().map(|s| s.to_string()).collect()
}

#[test]
fn search_needs_a_key() {
    assert_eq!(
        search_unconfigured(""),
        Some("Tavily Search API is not configured. Please set TAVILY_API_KEY in ~/.aicli.conf")
    );
    assert_eq!(search_unconfigured("k"), None);
}

#[test]
fn search_is_tried_three_times_with_doubling_waits() {
    assert_eq!(next_attempt(0), Attempt::Now);
    assert_eq!(next_attempt(1), Attempt::After(1));
    assert_eq!(next_attempt(2), Attempt::After(2));
    assert_eq!(next_attempt(3), Attempt::GiveUp);
    assert_eq!(next_attempt(u32::MAX), Attempt::GiveUp);
    assert_eq!(search_failed("timeout"), "Search failed after 3 attempts: timeout");
}

#[test]
fn long_basic_answers_are_summarized() {
    let long = "x".repeat(201);
    let reply = SearchReply { answer: Some(long.clone()), results: vec![] };
    assert!(matches!(search_answer("basic", &reply), AnswerSource::Summary(t) if t == long));
    assert!(matches!(search_answer("full", &reply), AnswerSource::Verbatim(t) if t == long));
    let short = SearchReply { answer: Some("x".repeat(200)), results: vec![] };
    assert!(matches!(search_answer("basic", &short), AnswerSource::Verbatim(_)));
    let none = SearchReply { answer: None, results: vec![hit(1), hit(2)] };
    assert!(matches!(search_answer("full", &none), AnswerSource::Summary(t) if t == "c1\n\nc2"));
    let nothing = SearchReply { answer: None, results: vec![] };
    assert!(matches!(search_answer("basic", &nothing), AnswerSource::Verbatim(t) if t == "No answer generated."));
}

#[test]
fn search_report_lists_at_most_five_findings() {
    let reply = SearchReply { answer: None, results: (1..=7).map(hit).collect() };
    let text = search_online(Some("the answer"), true, &reply);
    let mut expected = String::from("the answer\n");
    for n in 1..=5 {
        expected.push_str(&format!("- **t{}**: u{}\n  c{}\n\n", n, n, n));
    }
    assert_eq!(text, expected);
    assert_eq!(search_online(Some("the answer"), false, &reply), "the answer");
    let empty = SearchReply { answer: None, results: vec![] };
    assert_eq!(search_online(Some("a"), true, &empty), "a\nNo results found.");
    assert_eq!(search_online(None, true, &empty), "No results found.");
    assert_eq!(search_online(None, false, &empty), "");
}

#[test]
fn fetch_results_are_worded() {
    assert_eq!(scrape_result("u", Fetched::Page("text".to_string())), Ok("text".to_string()));
    assert_eq!(
        scrape_result("u", Fetched::Page(String::new())),
        Ok("No readable content found on this page.".to_string())
    );
    assert_eq!(
        scrape_result("u", Fetched::Status(404, "404 Not Found".to_string())),
        Ok("Skipped: 404 Not Found".to_string())
    );
    assert_eq!(
        scrape_result("u", Fetched::Status(403, "x".to_string())),
        Ok("Skipped: 403 Forbidden".to_string())
    );
    assert_eq!(
        scrape_result("u", Fetched::Status(500, "x".to_string())),
        Ok("Skipped: 500 Internal Server Error".to_string())
    );
    assert_eq!(
        scrape_result("u", Fetched::Status(418, "418 I'm a teapot".to_string())),
        Ok("Skipped: HTTP status 418 I'm a teapot".to_string())
    );
    assert_eq!(scrape_result("u", Fetched::TimedOut), Ok("Skipped: Request timed out".to_string()));
    assert_eq!(scrape_result("u", Fetched::Unreachable), Ok("Skipped: Connection error".to_string()));
    assert_eq!(
        scrape_result("http://x", Fetched::Failed("bad".to_string())),
        Err("Error fetching http://x: bad".to_string())
    );
    assert_eq!(
        scrape_result("u", Fetched::Unreadable("bad".to_string())),
        Err("Error reading content: bad".to_string())
    );
}

#[test]
fn long_pages_are_summarized_unless_asked_whole() {
    let long = "y".repeat(1025);
    assert!(needs_summary("summarized", &long));
    assert!(!needs_summary("full", &long));
    assert!(!needs_summary("summarized", &"y".repeat(1024)));
    assert_eq!(scrape_url("summarized", long.clone(), Some("short".to_string())), "short");
    assert_eq!(scrape_url("summarized", long.clone(), Some(String::new())), long);
    assert_eq!(scrape_url("summarized", long.clone(), None), long);
    assert_eq!(scrape_url("full", long.clone(), Some("short".to_string())), long);
    assert_eq!(scrape_url("summarized", "tiny".to_string(), Some("short".to_string())), "tiny");
}

fn config(pairs: &[(&str, &str)]) -> Config {
    Config::load(&pairs.iter().map(|(k, v)| (k.to_string(), v.to_string())).collect())
}

#[test]
fn mail_needs_a_recipient() {
    match send_email(&config(&[])) {
        Err(e) => assert_eq!(
            e,
            "DESTINATION_EMAIL not set in config. Please set it to the recipient's email address."
        ),
        Ok(_) => panic!("there is no recipient"),
    }
}

#[test]
fn mail_plan_follows_the_settings() {
    let plan = send_email(&config(&[("DESTINATION_EMAIL", "to@x")])).ok().unwrap();
    assert_eq!(plan.recipient, "to@x");
    assert_eq!(plan.sender, "to@x");
    assert_eq!(plan.server, "localhost");
    assert!(plan.credentials.is_none());

    let remote = [
        ("DESTINATION_EMAIL", "to@x"),
        ("SENDER_EMAIL", "from@x"),
        ("SMTP_SERVER_IP", "mail.x"),
        ("SMTP_USERNAME", "u"),
        ("SMTP_PASSWORD", "p"),
    ];
    let plan = send_email(&config(&remote)).ok().unwrap();
    assert_eq!(plan.sender, "from@x");
    assert_eq!(plan.server, "mail.x");
    assert_eq!(plan.credentials, Some(("u".to_string(), "p".to_string())));

    let local = [("DESTINATION_EMAIL", "to@x"), ("SMTP_USERNAME", "u"), ("SMTP_PASSWORD", "p")];
    assert!(send_email(&config(&local)).ok().unwrap().credentials.is_none());
    let no_password = [("DESTINATION_EMAIL", "to@x"), ("SMTP_SERVER_IP", "mail.x"), ("SMTP_USERNAME", "u")];
    assert!(send_email(&config(&no_password)).ok().unwrap().credentials.is_none());
}

#[test]
fn mail_outcomes_are_worded() {
    let plan = send_email(&config(&[("DESTINATION_EMAIL", "to@x"), ("SMTP_SERVER_IP", "mail.x")])).ok().unwrap();
    assert_eq!(
        email_report(&plan, EmailOutcome::Sent),
        Ok("Email sent successfully to to@x via mail.x".to_string())
    );
    assert_eq!(
        email_report(&plan, EmailOutcome::InvalidSender),
        Err("Invalid sender email 'to@x'".to_string())
    );
    assert_eq!(
        email_report(&plan, EmailOutcome::InvalidRecipient),
        Err("Invalid recipient email 'to@x'".to_string())
    );
    assert_eq!(email_report(&plan, EmailOutcome::NotBuilt), Err("Failed to build email".to_string()));
    assert_eq!(
        email_report(&plan, EmailOutcome::NoRelay("dns".to_string())),
        Err("Failed to create SMTP relay: dns".to_string())
    );
    assert_eq!(
        email_report(&plan, EmailOutcome::NotSent("refused".to_string())),
        Err("Failed to send email: refused".to_string())
    );
}

#[test]
fn stock_query_address() {
    assert_eq!(
        alpha_vantage_query("TIME_SERIES_DAILY", "IBM", "k", None),
        Ok("https://www.alphavantage.co/query?function=TIME_SERIES_DAILY&symbol=IBM&apikey=k&outputsize=compact".to_string())
    );
    assert_eq!(
        alpha_vantage_query("TIME_SERIES_DAILY", "IBM", "k", Some("full")),
        Ok("https://www.alphavantage.co/query?function=TIME_SERIES_DAILY&symbol=IBM&apikey=k&outputsize=full".to_string())
    );
    assert_eq!(
        alpha_vantage_query("GLOBAL_QUOTE", "IBM", "k", Some("full")),
        Ok("https://www.alphavantage.co/query?function=GLOBAL_QUOTE&symbol=IBM&apikey=k".to_string())
    );
    assert_eq!(
        alpha_vantage_query("GLOBAL_QUOTE", "IBM", "", None),
        Err("ALPHA_VANTAGE_API_KEY not found in ~/.aicli.conf".to_string())
    );
}

#[test]
fn time_series_is_cut_to_its_latest_dates() {
    let keys = strings(&["2024-01-03", "note", "2024-01-05 16:00:00", "2023-12-31", "2024-01-04", "24-01-09"]);
    assert_eq!(limit_time_series(&keys, 2), strings(&["2024-01-05 16:00:00", "2024-01-04"]));
    assert_eq!(
        limit_time_series(&keys, 3),
        strings(&["2024-01-03", "2024-01-05 16:00:00", "2024-01-04"])
    );
    assert_eq!(limit_time_series(&keys, 0), Vec::<String>::new());
    assert_eq!(
        limit_time_series(&keys, 10),
        strings(&["2024-01-03", "2024-01-05 16:00:00", "2023-12-31", "2024-01-04"])
    );
}

#[test]
fn time_series_is_the_first_member_with_dates() {
    let members = vec![
        Member { name: "Meta Data".to_string(), inner: Some(strings(&["1. Information"])) },
        Member { name: "Note".to_string(), inner: None },
        Member { name: "Time Series (Daily)".to_string(), inner: Some(strings(&["x", "2024-01-05"])) },
        Member { name: "Other".to_string(), inner: Some(strings(&["2024-01-05"])) },
    ];
    assert_eq!(find_time_series_key(&members), Some("Time Series (Daily)".to_string()));
    assert_eq!(find_time_series_key(&members[..2].iter().map(|m| Member { name: m.name.clone(), inner: m.inner.clone() }).collect()), None);
    assert_eq!(find_time_series_key(&vec![]), None);
}

#[test]
fn term_graph_links_neighbours_in_both_directions() {
    let graph = build_term_graph("The quick  brown\tthe QUICK fox");
    for (a, b) in [("the", "quick"), ("quick", "brown"), ("brown", "the"), ("quick", "fox")] {
        assert!(graph.has_edge(a, b));
        assert!(graph.has_edge(b, a));
    }
    assert!(!graph.has_edge("the", "fox"));
    assert!(!graph.has_edge("The", "quick"));
    assert!(!graph.has_edge("the", "the"));
    assert_eq!(graph.edges.len(), 8);
    assert!(build_term_graph("alone").edges.is_empty());
    assert!(build_term_graph("  ").edges.is_empty());
    let twice = build_term_graph("a a");
    assert_eq!(twice.edges.len(), 1);
    assert!(twice.has_edge("a", "a"));
}

#[test]
fn documents_are_counted_per_term() {
    let documents = vec!["The cat the hat".to_string(), "a CAT".to_string(), String::new(), "hat hat".to_string()];
    let vocabulary = document_frequencies(&documents);
    assert_eq!(vocabulary.terms, vec!["the", "cat", "hat", "a"]);
    assert_eq!(vocabulary.documents, vec![1, 2, 2, 1]);
    let empty = document_frequencies(&vec![]);
    assert!(empty.terms.is_empty() && empty.documents.is_empty());
}

#[test]
fn terms_of_a_text_are_counted() {
    let vocabulary = vec!["the".to_string(), "dog".to_string(), "cat".to_string()];
    let (counts, words) = term_counts("The cat and THE other cat, the", &vocabulary);
    assert_eq!(counts, vec![3, 0, 1]);
    assert_eq!(words, 7);
    assert_eq!(term_counts("", &vocabulary), (vec![0, 0, 0], 0));
    assert_eq!(terms(" A  b\tC "), vec!["a", "b", "c"]);
}

#[test]
fn graphs_are_compared_by_terms_and_neighbours() {
    let query = build_term_graph("red fox jumps");
    let doc = build_term_graph("the red fox sleeps");
    assert_eq!(query.terms(), vec!["red", "fox", "jumps"]);
    assert_eq!(doc.terms(), vec!["the", "red", "fox", "sleeps"]);
    assert_eq!(doc.neighbours("red"), vec!["the", "fox"]);
    assert_eq!(doc.neighbours("none"), Vec::<String>::new());
    let compared = graph_overlap(&query, &doc);
    assert_eq!(compared.shared, vec!["red", "fox"]);
    assert_eq!(compared.all_terms, 5);
    assert_eq!(
        compared.edges,
        vec![Overlap { shared: 1, all: 2 }, Overlap { shared: 1, all: 3 }]
    );
    let nothing = graph_overlap(&build_term_graph(""), &build_term_graph("a b"));
    assert!(nothing.shared.is_empty() && nothing.edges.is_empty());
    assert_eq!(nothing.all_terms, 2);
    assert_eq!(
        overlap(&strings(&["a", "b", "c"]), &strings(&["c", "d"])),
        Overlap { shared: 1, all: 4 }
    );
    assert_eq!(overlap(&vec![], &vec![]), Overlap { shared: 0, all: 0 });
    assert!(has_term(&strings(&["a", "b"]), "b"));
    assert!(!has_term(&strings(&["a", "b"]), "B"));
}
