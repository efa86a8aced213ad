use ldc_companion::ingest::{
    clean_optional, is_sensitive_path, normalize_event, normalize_files, normalize_languages,
    normalize_metadata, normalize_strings, IngestError,
};
use ldc_companion::model::{ActivityPayload, CodingEvent, JsonValue, ProjectContext, UtcInstant};

fn s(x: &str) -> String {
    x.to_string()
}

fn sample_event() -> CodingEvent {
    CodingEvent {
        timestamp: None,
        session_id: " session ".to_string(),
        event_type: "DOCUMENT_EDIT".to_string(),
        project: ProjectContext {
            name: Some(" demo ".to_string()),
            path: None,
            git_branch: None,
            git_remote: None,
        },
        activity: ActivityPayload {
            files_modified: vec!["src\\main.rs".to_string(), ".env".to_string()],
            languages: vec![("Rust".to_string(), 5)],
            lines_added: -1,
            lines_removed: 2,
            functions_touched: vec![],
            time_spent_minutes: 10,
            errors_encountered: 0,
            libraries_used: vec![],
        },
        metadata: JsonValue::Object(vec![
            (s("token"), JsonValue::Str(s("hidden"))),
            (s("source"), JsonValue::Str(s("test"))),
        ]),
    }
}

#[test]
fn normalizes_and_redacts_sensitive_fields() {
    let event = sample_event();
    let normalized = normalize_event(event).unwrap();
    assert_eq!(normalized.event_type, "document_edit");
    assert_eq!(normalized.session_id, "session");
    assert_eq!(normalized.activity.files_modified, vec!["src/main.rs"]);
    assert_eq!(normalized.activity.lines_added, 0);
    assert!(normalized.metadata.get("token").is_none());
}

#[test]
fn normalization_keeps_the_rest_of_the_event() {
    let normalized = normalize_event(sample_event()).unwrap();
    assert_eq!(normalized.project.name, Some(s("demo")));
    assert_eq!(normalized.activity.lines_removed, 2);
    assert_eq!(normalized.activity.time_spent_minutes, 10);
    assert_eq!(normalized.activity.languages, vec![(s("rust"), 5)]);
    assert_eq!(
        normalized.metadata,
        JsonValue::Object(vec![(s("source"), JsonValue::Str(s("test")))])
    );
    assert_eq!(normalized.timestamp, None);
}

#[test]
fn timestamp_passes_through() {
    let mut event = sample_event();
    event.timestamp = Some(UtcInstant { unix_seconds: 1_700_000_000, nanos: 5 });
    let normalized = normalize_event(event).unwrap();
    assert_eq!(normalized.timestamp, Some(UtcInstant { unix_seconds: 1_700_000_000, nanos: 5 }));
}

#[test]
fn unsupported_event_type_is_refused() {
    let mut event = sample_event();
    event.event_type = " Deploy ".to_string();
    let err = normalize_event(event).unwrap_err();
    assert_eq!(err, IngestError::UnsupportedEventType(s("deploy")));
    assert_eq!(err.message(), "event_type nao suportado: deploy");
}

#[test]
fn blank_session_is_refused_after_the_type_check() {
    let mut event = sample_event();
    event.session_id = "   ".to_string();
    let err = normalize_event(event).unwrap_err();
    assert_eq!(err, IngestError::MissingSessionId);
    assert_eq!(err.message(), "session_id e obrigatorio");

    let mut event = sample_event();
    event.session_id = "".to_string();
    event.event_type = "nope".to_string();
    assert_eq!(normalize_event(event).unwrap_err(), IngestError::UnsupportedEventType(s("nope")));
}

#[test]
fn every_known_event_type_is_accepted() {
    for t in [
        "document_open",
        "document_edit",
        "active_editor",
        "git_commit",
        " Git_Snapshot ",
        "session_heartbeat",
        "MANUAL_NOTE",
    ] {
        let mut event = sample_event();
        event.event_type = t.to_string();
        let n = normalize_event(event).unwrap();
        assert_eq!(n.event_type, t.trim().to_ascii_lowercase());
    }
}

#[test]
fn counts_are_clamped() {
    let mut event = sample_event();
    event.activity.time_spent_minutes = 5000;
    event.activity.errors_encountered = -3;
    event.activity.lines_removed = -7;
    let n = normalize_event(event).unwrap();
    assert_eq!(n.activity.time_spent_minutes, 1440);
    assert_eq!(n.activity.errors_encountered, 0);
    assert_eq!(n.activity.lines_removed, 0);

    let mut event = sample_event();
    event.activity.time_spent_minutes = -5;
    assert_eq!(normalize_event(event).unwrap().activity.time_spent_minutes, 0);
}

#[test]
fn files_are_cleaned_deduplicated_and_sorted() {
    let files = vec![
        s("  src\\b.rs "),
        s("src/b.rs"),
        s("config/secret-token.txt"),
        s("keys/id.PEM"),
        s(""),
        s("   "),
        s("Z.rs"),
        s("a.rs"),
        s("docs/API_KEY.md"),
        s("src\\a\\c.rs"),
    ];
    let r = normalize_files(files);
    assert_eq!(r, vec![s("Z.rs"), s("a.rs"), s("src/a/c.rs"), s("src/b.rs")]);
}

#[test]
fn names_are_trimmed_deduplicated_and_sorted() {
    let r = normalize_strings(vec![s(" tokio "), s("serde"), s("tokio"), s(""), s("  "), s("Axum")]);
    assert_eq!(r, vec![s("Axum"), s("serde"), s("tokio")]);
    let mut expected = vec![s("é"), s("z"), s("ab"), s("a")];
    expected.sort();
    assert_eq!(normalize_strings(vec![s("é"), s("z"), s("ab"), s("a")]), expected);
}

#[test]
fn languages_are_merged_and_capped() {
    let r = normalize_languages(vec![
        (s("Rust"), 1000),
        (s(" rust "), 2000),
        (s("TypeScript"), 30),
        (s(""), 50),
        (s("Go"), 0),
        (s("python"), 7),
    ]);
    assert_eq!(r, vec![(s("python"), 7), (s("rust"), 2440), (s("typescript"), 30)]);
}

#[test]
fn metadata_is_redacted() {
    let m = JsonValue::Object(vec![
        (s("secret"), JsonValue::Bool(true)),
        (s("apiKey"), JsonValue::Null),
        (s("api_key"), JsonValue::Null),
        (s("password"), JsonValue::Number(s("1"))),
        (s("token"), JsonValue::Str(s("x"))),
        (s("Token"), JsonValue::Str(s("kept: the match is exact"))),
        (s("source"), JsonValue::Str(s("test"))),
    ]);
    assert_eq!(
        normalize_metadata(m),
        JsonValue::Object(vec![
            (s("Token"), JsonValue::Str(s("kept: the match is exact"))),
            (s("source"), JsonValue::Str(s("test"))),
        ])
    );
    assert_eq!(normalize_metadata(JsonValue::Null), JsonValue::Object(vec![]));
    assert_eq!(normalize_metadata(JsonValue::Number(s("3"))), JsonValue::Number(s("3")));
    assert_eq!(
        normalize_metadata(JsonValue::Array(vec![JsonValue::Bool(false)])),
        JsonValue::Array(vec![JsonValue::Bool(false)])
    );
}

#[test]
fn optional_texts_are_cleaned() {
    assert_eq!(clean_optional(Some(s("  main "))), Some(s("main")));
    assert_eq!(clean_optional(Some(s(" \t\n"))), None);
    assert_eq!(clean_optional(None), None);
}

#[test]
fn sensitive_paths_are_recognised() {
    for p in [".env", "a/.ENV.local", "my-Secret.txt", "PASSWORD", "gh_token", "apikey.json", "api_key", "cert.pem", "x.key"] {
        assert!(is_sensitive_path(p), "{p}");
    }
    for p in ["src/main.rs", "keyboard.rs", "README.md", "tok.en"] {
        assert!(!is_sensitive_path(p), "{p}");
    }
}

#[test]
fn normalizing_twice_changes_nothing() {
    let once = normalize_event(sample_event()).unwrap();
    let twice = normalize_event(normalize_event(sample_event()).unwrap()).unwrap();
    assert_eq!(once, twice);
}

#[test]
fn a_second_pass_caps_merged_minutes() {
    let mut event = sample_event();
    event.activity.languages = vec![(s("Rust"), 1000), (s("rust"), 1000)];
    let once = normalize_event(event).unwrap();
    assert_eq!(once.activity.languages, vec![(s("rust"), 2000)]);
    let twice = normalize_event(once).unwrap();
    assert_eq!(twice.activity.languages, vec![(s("rust"), 1440)]);
}
