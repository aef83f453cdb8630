use repos_toolbox::colors::{get_language_color, ColorTable};
use repos_toolbox::digits::u64_to_string;
use repos_toolbox::errors::AppError;
use repos_toolbox::language::{
    aggregate, get_language_size, get_repository_languages, is_success_status, Language,
};
use repos_toolbox::repo::{
    build_repo_view, classify_render, prepare_repository, summarize_repository, upstream_failure,
    RepoParts,
};

const COLORS_JSON: &str =
    "{\"Go\": \"#00ADD8\", \"Rust\": \"#dea584\", \"TypeScript\": \"#3178c6\"}";

fn demo_parts() -> RepoParts {
    RepoParts {
        name: String::from("demo"),
        owner: Some((String::from("alice"), String::from("https://example.com/alice.png"))),
        html_url: Some(String::from("https://example.com/alice/demo")),
        languages_url: Some(String::from("https://example.com/repos/alice/demo/languages")),
        open_issues_count: Some(3),
        stargazers_count: Some(42),
        watchers_count: Some(42),
        forks_count: Some(7),
    }
}

#[test]
fn decimal_of_zero() {
    assert_eq!(u64_to_string(0), "0");
}

#[test]
fn decimal_of_status() {
    assert_eq!(u64_to_string(404), "404");
}

#[test]
fn decimal_of_large() {
    assert_eq!(u64_to_string(1234567890), "1234567890");
}

#[test]
fn size_is_exact_share() {
    assert_eq!(get_language_size(&300, &1000), 3000);
    assert_eq!(get_language_size(&700, &1000), 7000);
}

#[test]
fn size_rounds_down() {
    assert_eq!(get_language_size(&1, &3), 3333);
}

#[test]
fn size_of_whole_is_hundred_percent() {
    assert_eq!(get_language_size(&1000, &1000), 10000);
}

#[test]
fn color_of_known_language() {
    let table = ColorTable::from_json(COLORS_JSON);
    assert_eq!(get_language_color(&table, "Go"), "#00ADD8");
}

#[test]
fn color_of_unknown_language_is_empty() {
    let table = ColorTable::from_json(COLORS_JSON);
    assert_eq!(get_language_color(&table, "__unknown_language__"), "");
}

#[test]
fn color_lookup_is_pure() {
    let table = ColorTable::from_json(COLORS_JSON);
    let first = get_language_color(&table, "Rust");
    let second = get_language_color(&table, "Rust");
    assert_eq!(first, "#dea584");
    assert_eq!(first, second);
}

#[test]
fn corrupt_color_document_degrades_to_empty() {
    let table = ColorTable::from_json("this is not json");
    assert_eq!(get_language_color(&table, "Go"), "");
    let table = ColorTable::from_json("{\"Go\": 17}");
    assert_eq!(get_language_color(&table, "Go"), "");
}

#[test]
fn empty_table_yields_empty_colors() {
    let table = ColorTable::empty();
    assert_eq!(get_language_color(&table, "Go"), "");
}

#[test]
fn aggregate_of_empty_mapping_is_empty() {
    let table = ColorTable::from_json(COLORS_JSON);
    let raw: Vec<(String, u64)> = Vec::new();
    let shares = aggregate(&raw, &table);
    assert!(shares.is_empty());
}

#[test]
fn aggregate_of_all_zero_mapping_is_empty() {
    let table = ColorTable::from_json(COLORS_JSON);
    let raw = vec![(String::from("Go"), 0u64), (String::from("Rust"), 0u64)];
    let shares = aggregate(&raw, &table);
    assert!(shares.is_empty());
}

#[test]
fn aggregate_round_trip() {
    let table = ColorTable::from_json(COLORS_JSON);
    let raw = vec![(String::from("Go"), 300u64), (String::from("Rust"), 700u64)];
    let shares = aggregate(&raw, &table);
    assert_eq!(shares.len(), 2);
    assert_eq!(shares[0].name, "Go");
    assert_eq!(shares[0].size, 3000);
    assert_eq!(shares[0].color, get_language_color(&table, "Go"));
    assert_eq!(shares[1].name, "Rust");
    assert_eq!(shares[1].size, 7000);
    assert_eq!(shares[1].color, get_language_color(&table, "Rust"));
    let percentages: Vec<f64> = shares.iter().map(|s| s.size as f64 / 100.0).collect();
    assert!((percentages[0] - 30.0).abs() < 1e-9);
    assert!((percentages[1] - 70.0).abs() < 1e-9);
}

#[test]
fn aggregate_sizes_sum_near_hundred_percent() {
    let table = ColorTable::empty();
    let raw = vec![
        (String::from("A"), 1u64),
        (String::from("B"), 1u64),
        (String::from("C"), 1u64),
    ];
    let shares = aggregate(&raw, &table);
    let sum: u64 = shares.iter().map(|s| s.size).sum();
    assert_eq!(sum, 9999);
    assert!(sum <= 10000 && sum + (shares.len() as u64) > 10000);
    let percent_sum = sum as f64 / 100.0;
    assert!((percent_sum - 100.0).abs() < shares.len() as f64 * 0.01);
}

#[test]
fn success_status_range() {
    assert!(is_success_status(200));
    assert!(is_success_status(299));
    assert!(!is_success_status(199));
    assert!(!is_success_status(300));
    assert!(!is_success_status(404));
    assert!(!is_success_status(500));
}

#[test]
fn languages_from_valid_response() {
    let table = ColorTable::from_json(COLORS_JSON);
    let shares = get_repository_languages(200, "{\"TypeScript\": 1000}", &table)
        .expect("a 2xx response with a valid body aggregates");
    assert_eq!(shares.len(), 1);
    assert_eq!(shares[0].name, "TypeScript");
    assert_eq!(shares[0].size, 10000);
    assert_eq!(shares[0].color, "#3178c6");
}

#[test]
fn languages_come_in_ascending_name_order() {
    let table = ColorTable::from_json(COLORS_JSON);
    let shares = get_repository_languages(200, "{\"Rust\": 700, \"Go\": 300}", &table)
        .expect("a valid languages payload aggregates");
    assert_eq!(shares.len(), 2);
    assert_eq!(shares[0].name, "Go");
    assert_eq!(shares[0].size, 3000);
    assert_eq!(shares[1].name, "Rust");
    assert_eq!(shares[1].size, 7000);
}

#[test]
fn languages_from_error_status() {
    let table = ColorTable::empty();
    let err = get_repository_languages(404, "{}", &table).unwrap_err();
    match &err {
        AppError::Upstream { message } => {
            assert_eq!(message, "Error fetching language data. Status code: 404");
        },
        other => panic!("expected an upstream error, got {:?}", other),
    }
    assert_eq!(err.status_code(), 500);
}

#[test]
fn languages_from_invalid_json() {
    let table = ColorTable::empty();
    let err = get_repository_languages(200, "not json at all", &table).unwrap_err();
    match &err {
        AppError::Upstream { message } => {
            assert!(!message.is_empty());
        },
        other => panic!("expected an upstream error, got {:?}", other),
    }
    assert_eq!(err.status_code(), 500);
}

#[test]
fn languages_with_unrepresentable_total() {
    let table = ColorTable::empty();
    let body = format!("{{\"A\": {}, \"B\": 1}}", u64::MAX);
    let err = get_repository_languages(200, &body, &table).unwrap_err();
    match &err {
        AppError::Upstream { message } => {
            assert_eq!(message, "Language byte counts exceed the supported total.");
        },
        other => panic!("expected an upstream error, got {:?}", other),
    }
}

#[test]
fn summary_keeps_present_fields() {
    let summary = summarize_repository(&demo_parts());
    assert_eq!(summary.name, "demo");
    assert_eq!(summary.owner, "alice");
    assert_eq!(summary.avatar_url, "https://example.com/alice.png");
    assert_eq!(summary.html_url, "https://example.com/alice/demo");
    assert_eq!(summary.open_issues_count, 3);
    assert_eq!(summary.stargazers_count, 42);
    assert_eq!(summary.watchers_count, 42);
    assert_eq!(summary.forks_count, 7);
}

#[test]
fn summary_defaults_for_absent_fields() {
    let parts = RepoParts {
        name: String::from("bare"),
        owner: None,
        html_url: None,
        languages_url: None,
        open_issues_count: None,
        stargazers_count: None,
        watchers_count: None,
        forks_count: None,
    };
    let summary = summarize_repository(&parts);
    assert_eq!(summary.name, "bare");
    assert_eq!(summary.owner, "unknown");
    assert_eq!(summary.avatar_url, "/");
    assert_eq!(summary.html_url, "/");
    assert_eq!(summary.open_issues_count, 0);
    assert_eq!(summary.stargazers_count, 0);
    assert_eq!(summary.watchers_count, 0);
    assert_eq!(summary.forks_count, 0);
}

#[test]
fn prepare_extracts_languages_url() {
    let (summary, url) = prepare_repository(demo_parts()).expect("languages URL is present");
    assert_eq!(summary.name, "demo");
    assert_eq!(url, "https://example.com/repos/alice/demo/languages");
}

#[test]
fn prepare_without_languages_url_is_precondition_error() {
    let mut parts = demo_parts();
    parts.languages_url = None;
    let err = prepare_repository(parts).unwrap_err();
    match &err {
        AppError::Precondition { message } => {
            assert_eq!(message, "Repository payload has no languages URL.");
        },
        other => panic!("expected a precondition error, got {:?}", other),
    }
    assert_eq!(err.status_code(), 500);
}

#[test]
fn upstream_lookup_failure_is_server_error() {
    let err = upstream_failure(String::from("GitHub: Not Found (status 404)"));
    match &err {
        AppError::Upstream { message } => {
            assert_eq!(message, "GitHub: Not Found (status 404)");
        },
        other => panic!("expected an upstream error, got {:?}", other),
    }
    assert_eq!(err.status_code(), 500);
    assert_eq!(err.message().as_str(), "GitHub: Not Found (status 404)");
}

#[test]
fn mocked_upstream_renders_demo_page() {
    let table = ColorTable::from_json(COLORS_JSON);
    let (summary, _url) = prepare_repository(demo_parts()).expect("languages URL is present");
    let shares = get_repository_languages(200, "{\"TypeScript\": 1000}", &table)
        .expect("valid languages payload");
    let view = build_repo_view(summary, shares);
    assert_eq!(view.name, "demo");
    assert_eq!(view.owner, "alice");
    assert_eq!(view.languages.len(), 1);
    assert_eq!(view.languages[0].name, "TypeScript");
    assert_eq!(view.languages[0].size, 10000);
}

#[test]
fn view_assembly_keeps_fields() {
    let summary = summarize_repository(&demo_parts());
    let languages = vec![Language {
        name: String::from("Go"),
        size: 10000,
        color: String::from("#00ADD8"),
    }];
    let view = build_repo_view(summary, languages);
    assert_eq!(view.owner, "alice");
    assert_eq!(view.forks_count, 7);
    assert_eq!(view.languages[0].color, "#00ADD8");
}

#[test]
fn render_success_passes_through() {
    let r = classify_render(Ok(String::from("<html></html>")));
    assert_eq!(r.unwrap(), "<html></html>");
}

#[test]
fn render_failure_is_render_error() {
    let err = classify_render(Err(String::from("missing template"))).unwrap_err();
    match &err {
        AppError::Render { message } => {
            assert_eq!(message, "Failed to render template. Error: missing template");
        },
        other => panic!("expected a render error, got {:?}", other),
    }
    assert_eq!(err.status_code(), 500);
}
