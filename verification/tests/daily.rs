use ldc_companion::api::{
    check_event_request, check_publishable, check_voice_example, date_or_bad_request,
    draft_or_not_found, parse_session_date, refused_event, ApiError,
};
use ldc_companion::daily::{
    aggregate_day, decode_day_row, git_changes, minutes_fit_exec, DayRow, DayRowText, GitRowText,
};
use ldc_companion::ingest::IngestError;
use ldc_companion::model::{
    ActivityPayload, CalendarDate, CodingEvent, HealthResponse, JsonValue, ProjectContext,
    VoiceExampleRequest,
};

fn s(x: &str) -> String {
    x.to_string()
}

fn row(project: Option<&str>, files: &str, languages: &str) -> DayRow {
    decode_day_row(DayRowText {
        project_name: project.map(s),
        files_json: s(files),
        languages_json: s(languages),
    })
}

#[test]
fn rows_are_decoded_with_empty_defaults() {
    let r = row(Some("demo"), "[\"a.rs\",\"b.rs\"]", "{\"rust\":10,\"go\":-2}");
    assert_eq!(r.files, vec![s("a.rs"), s("b.rs")]);
    assert_eq!(r.languages, vec![(s("go"), -2), (s("rust"), 10)]);
    let r = row(None, "not json", "[1]");
    assert!(r.files.is_empty());
    assert!(r.languages.is_empty());
}

#[test]
fn a_day_is_aggregated() {
    let rows = vec![
        row(Some("zeta"), "[\"src/main.rs\",\"b\"]", "{\"rust\":10}"),
        row(Some(""), "[\"b\"]", "{\"rust\":5,\"typescript\":3}"),
        row(None, "[\"a\"]", "{}"),
        row(Some("alpha"), "[]", "{\"typescript\":-1}"),
        row(Some("zeta"), "[]", "{}"),
    ];
    assert!(minutes_fit_exec(&rows));
    let agg = aggregate_day(&rows);
    assert_eq!(agg.projects, vec![s("alpha"), s("zeta")]);
    assert_eq!(agg.files_modified, vec![s("a"), s("b"), s("src/main.rs")]);
    assert_eq!(agg.languages, vec![(s("rust"), 15), (s("typescript"), 2)]);
}

#[test]
fn oversized_minutes_are_detected() {
    let rows = vec![
        DayRow { project_name: None, files: vec![], languages: vec![(s("a"), i64::MAX)] },
        DayRow { project_name: None, files: vec![], languages: vec![(s("a"), 1)] },
    ];
    assert!(!minutes_fit_exec(&rows));
    assert!(minutes_fit_exec(&rows[..1].to_vec()));
}

#[test]
fn large_minutes_of_different_languages_fit() {
    let rows = vec![
        DayRow { project_name: None, files: vec![], languages: vec![(s("a"), i64::MAX), (s("b"), i64::MAX)] },
        DayRow { project_name: None, files: vec![], languages: vec![(s("b"), i64::MIN), (s("c"), i64::MIN)] },
    ];
    assert!(minutes_fit_exec(&rows));
    let agg = aggregate_day(&rows);
    assert_eq!(agg.languages, vec![(s("a"), i64::MAX), (s("b"), -1), (s("c"), i64::MIN)]);
    let below = vec![
        DayRow { project_name: None, files: vec![], languages: vec![(s("a"), i64::MIN)] },
        DayRow { project_name: None, files: vec![], languages: vec![(s("a"), -1)] },
    ];
    assert!(!minutes_fit_exec(&below));
}

fn event(session: &str, event_type: &str) -> CodingEvent {
    CodingEvent {
        timestamp: None,
        session_id: s(session),
        event_type: s(event_type),
        project: ProjectContext { name: None, path: None, git_branch: None, git_remote: None },
        activity: ActivityPayload {
            files_modified: vec![],
            languages: vec![],
            lines_added: 0,
            lines_removed: 0,
            functions_touched: vec![],
            time_spent_minutes: 0,
            errors_encountered: 0,
            libraries_used: vec![],
        },
        metadata: JsonValue::Null,
    }
}

#[test]
fn requests_are_checked() {
    assert_eq!(check_event_request(&event("s", "x")), Ok(()));
    assert_eq!(check_event_request(&event(" ", "x")), Err(ApiError::BadRequest(s("session_id e obrigatorio"))));
    assert_eq!(check_event_request(&event("s", "\t")), Err(ApiError::BadRequest(s("event_type e obrigatorio"))));
    let short = VoiceExampleRequest { text: s("   curto   "), context: None };
    let err = check_voice_example(&short).unwrap_err();
    assert_eq!(err.status_code(), 400);
    assert_eq!(err.message(), "exemplo de voz deve ter pelo menos 20 caracteres");
    let long = VoiceExampleRequest { text: s("Hoje eu prefiro explicar o trade-off"), context: Some(s("manual")) };
    assert_eq!(check_voice_example(&long), Ok(()));
    // 10 two-byte characters are 20 bytes
    let bytes = VoiceExampleRequest { text: "é".repeat(10), context: None };
    assert_eq!(check_voice_example(&bytes), Ok(()));
    let r = refused_event(IngestError::UnsupportedEventType(s("x")));
    assert_eq!(r, ApiError::BadRequest(s("event_type nao suportado: x")));
}

#[test]
fn dates_and_lookups() {
    assert_eq!(parse_session_date("2026-05-05"), Ok(CalendarDate { year: 2026, month: 5, day: 5 }));
    assert_eq!(
        parse_session_date("05/05/2026"),
        Err(ApiError::BadRequest(s("data deve estar no formato YYYY-MM-DD")))
    );
    assert!(parse_session_date("2026-02-30").is_err());
    assert_eq!(parse_session_date("2024-02-29"), Ok(CalendarDate { year: 2024, month: 2, day: 29 }));
    let d = CalendarDate { year: 2025, month: 12, day: 31 };
    assert_eq!(date_or_bad_request(Some(d)), Ok(d));
    assert_eq!(
        date_or_bad_request(None),
        Err(ApiError::BadRequest(s("data deve estar no formato YYYY-MM-DD")))
    );
    assert_eq!(draft_or_not_found(Some(3)), Ok(3));
    let nf = draft_or_not_found::<i32>(None).unwrap_err();
    assert_eq!(nf.status_code(), 404);
    assert_eq!(nf.message(), "rascunho nao encontrado");
    assert_eq!(ApiError::Internal(s("x")).status_code(), 500);
    let h = HealthResponse::healthy();
    assert_eq!((h.status.as_str(), h.service.as_str(), h.database.as_str()), ("ok", "linkedin-dev-companion", "ok"));
}

#[test]
fn only_approved_drafts_are_published() {
    assert_eq!(check_publishable("approved"), Ok(()));
    for status in ["pending_approval", "rejected", "Approved", " approved", ""] {
        let e = check_publishable(status).unwrap_err();
        assert_eq!(e.status_code(), 400);
        assert_eq!(e.message(), "apenas rascunhos aprovados podem ser publicados");
    }
}

fn git_row(event_type: &str, metadata: &str, files: &str, added: i64, removed: i64) -> GitRowText {
    GitRowText {
        event_type: s(event_type),
        metadata_json: s(metadata),
        files_json: s(files),
        lines_added: added,
        lines_removed: removed,
    }
}

#[test]
fn git_signals_come_from_snapshots_and_commits() {
    let rows = vec![
        git_row(
            "git_snapshot",
            "{\"diff_summary\":\"2 files changed\",\"status_summary\":\"M src/lib.rs\",\"subject\":3}",
            "[\"src/lib.rs\",\"README.md\"]",
            12,
            3,
        ),
        git_row("document_edit", "null", "[\"a.rs\"]", 1, 1),
        git_row("git_commit", " {\"subject\": \"fix parser\"} ", "not json", 4, 0),
        git_row("git_commit", "{broken", "[]", 0, 0),
    ];
    let changes = git_changes(&rows);
    assert_eq!(changes.len(), 3);
    assert_eq!(changes[0].diff_summary.as_deref(), Some("2 files changed"));
    assert_eq!(changes[0].status_summary.as_deref(), Some("M src/lib.rs"));
    assert_eq!(changes[0].subject, None);
    assert_eq!(changes[0].files_modified, vec![s("src/lib.rs"), s("README.md")]);
    assert_eq!((changes[0].lines_added, changes[0].lines_removed), (12, 3));
    assert_eq!(changes[1].subject.as_deref(), Some("fix parser"));
    assert_eq!(changes[1].diff_summary, None);
    assert!(changes[1].files_modified.is_empty());
    assert_eq!((changes[1].lines_added, changes[1].lines_removed), (4, 0));
    assert_eq!(
        (changes[2].subject.as_deref(), changes[2].diff_summary.as_deref(), changes[2].status_summary.as_deref()),
        (None, None, None)
    );
    assert!(git_changes(&vec![]).is_empty());
}
