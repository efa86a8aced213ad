use ldc_companion::analysis::{
    build_prompt, complexity_fits_exec, estimate_complexity, finish_analysis, local_analysis,
    parse_copilot_analysis, read_copilot_answer, CopilotOutcome,
};
use ldc_companion::json::json_or;
use ldc_companion::model::{CalendarDate, DailySummary, GitChange, JsonValue};

fn s(x: &str) -> String {
    x.to_string()
}

fn summary() -> DailySummary {
    DailySummary {
        date: CalendarDate { year: 2026, month: 5, day: 5 },
        event_count: 3,
        total_time_minutes: 40,
        lines_added: 12,
        lines_removed: 3,
        git_commits: 1,
        projects: vec![s("demo"), s("outro")],
        languages: vec![(s("rust"), 10), (s("typescript"), 5)],
        files_modified: vec![s("src/main.rs")],
        voice_examples: 0,
        git_changes: vec![],
    }
}

#[test]
fn complexity_counts_files_commits_changes_and_lines() {
    let mut sm = summary();
    assert_eq!(estimate_complexity(&sm), 2);
    sm.files_modified = (0..20).map(|i| format!("f{i}")).collect();
    sm.git_commits = 9;
    sm.git_changes = vec![
        GitChange { subject: None, diff_summary: None, status_summary: None, files_modified: vec![], lines_added: 0, lines_removed: 0 };
        3
    ];
    sm.lines_added = 1000;
    assert_eq!(estimate_complexity(&sm), 10);
    sm.git_commits = -50;
    assert_eq!(estimate_complexity(&sm), 1);
    let mut neg = summary();
    neg.lines_added = -150;
    neg.lines_removed = 0;
    // 1 + 0 + 1 + 0 + (-1) = 1
    assert_eq!(estimate_complexity(&neg), 1);
    assert!(complexity_fits_exec(&neg));
    neg.lines_added = i64::MAX;
    neg.lines_removed = 1;
    assert!(!complexity_fits_exec(&neg));
}

#[test]
fn local_analysis_reads_the_day() {
    let a = local_analysis(&summary(), "local_fallback", None);
    assert_eq!(a.source, "local_fallback");
    assert_eq!(a.status, "ok");
    assert_eq!(
        a.insights,
        vec![s("O dia em demo teve 3 eventos, 1 commit(s) e foco inicial em src/main.rs. Nenhum diff ou commit recente foi capturado ainda.")]
    );
    assert_eq!(a.tech_stack, vec![s("rust"), s("typescript")]);
    assert_eq!(a.complexity, Some(2));
    assert_eq!(a.learnings, vec![s("Resumo tecnico gerado localmente a partir dos sinais capturados.")]);
    assert_eq!(a.raw, None);
    assert_eq!(a.error, None);
}

#[test]
fn local_analysis_mentions_the_last_git_signal() {
    let mut sm = summary();
    sm.projects = vec![];
    sm.files_modified = vec![];
    sm.git_changes = vec![GitChange {
        subject: Some(s("feat: x")),
        diff_summary: None,
        status_summary: Some(s("M a.rs")),
        files_modified: vec![s("a"), s("b"), s("c"), s("d"), s("e")],
        lines_added: 7,
        lines_removed: -2,
    }];
    let a = local_analysis(&sm, "copilot_error_fallback", Some(s("boom")));
    assert_eq!(a.status, "fallback");
    assert_eq!(a.error, Some(s("boom")));
    assert_eq!(
        a.insights[0],
        "O dia em projeto local teve 3 eventos, 1 commit(s) e foco inicial em nenhum arquivo especifico. Ultimo sinal Git: M a.rs em a, b, c, d (+7 / --2)."
    );
    sm.git_changes[0].files_modified = vec![];
    sm.git_changes[0].status_summary = None;
    sm.git_changes[0].subject = None;
    let a = local_analysis(&sm, "x", None);
    assert!(a.insights[0].ends_with("Ultimo sinal Git: sem resumo textual em sem arquivos listados (+7 / --2)."));
}

#[test]
fn copilot_answer_is_read_field_by_field() {
    let value = JsonValue::Object(vec![
        (s("insights"), JsonValue::Array(vec![JsonValue::Str(s("a")), JsonValue::Number(s("1")), JsonValue::Str(s("b"))])),
        (s("tech_stack"), JsonValue::Str(s("not an array"))),
        (s("complexity"), JsonValue::Number(s("7"))),
        (s("learnings"), JsonValue::Array(vec![])),
    ]);
    let a = parse_copilot_analysis(s("{raw}"), &value);
    assert_eq!(a.source, "copilot_cli");
    assert_eq!(a.status, "ok");
    assert_eq!(a.insights, vec![s("a"), s("b")]);
    assert!(a.tech_stack.is_empty());
    assert_eq!(a.complexity, Some(7));
    assert!(a.learnings.is_empty());
    assert_eq!(a.raw, Some(s("{raw}")));
    let fractional = JsonValue::Object(vec![(s("complexity"), JsonValue::Number(s("7.5")))]);
    assert_eq!(parse_copilot_analysis(s(""), &fractional).complexity, None);
}

#[test]
fn analysis_falls_back_when_copilot_does_not_help() {
    let sm = summary();
    let a = finish_analysis(&sm, s("P"), CopilotOutcome::Unavailable);
    assert_eq!(a.source, "local_fallback");
    assert_eq!(a.status, "ok");
    let a = finish_analysis(&sm, s("P"), CopilotOutcome::Failed(s("timeout")));
    assert_eq!(a.source, "copilot_error_fallback");
    assert_eq!(a.status, "fallback");
    assert_eq!(a.error, Some(s("timeout")));
    assert_eq!(a.raw, None);
    let a = finish_analysis(&sm, s("P"), CopilotOutcome::Unparsable(s("expected value")));
    assert_eq!(a.source, "copilot_parse_fallback");
    assert_eq!(a.raw, Some(s("P")));
    assert_eq!(a.error, Some(s("expected value")));
    let a = finish_analysis(&sm, s("P"), CopilotOutcome::Parsed { raw: s("{}"), value: JsonValue::Object(vec![]) });
    assert_eq!(a.source, "copilot_cli");
    assert_eq!(a.raw, Some(s("{}")));
}

#[test]
fn prompt_ends_with_the_summary() {
    let p = build_prompt("{\"a\":1}");
    assert!(p.starts_with("Voce e um tech lead"));
    assert!(p.ends_with("Resumo do dia: {\"a\":1}"));
}

#[test]
fn copilot_answer_is_used_even_when_the_counts_overflow() {
    let mut sm = summary();
    sm.lines_added = i64::MAX;
    sm.lines_removed = i64::MAX;
    assert!(!complexity_fits_exec(&sm));
    let value = JsonValue::Object(vec![(s("complexity"), JsonValue::Number(s("7")))]);
    let a = finish_analysis(&sm, s("P"), CopilotOutcome::Parsed { raw: s("{\"complexity\":7}"), value });
    assert_eq!(a.source, "copilot_cli");
    assert_eq!(a.complexity, Some(7));
}

#[test]
fn copilot_answer_text_is_parsed_after_trimming() {
    let raw = s("  {\"insights\": [\"x\"], \"complexity\": 4}\n");
    match read_copilot_answer(raw.clone()) {
        CopilotOutcome::Parsed { raw: r, value } => {
            assert_eq!(r, raw);
            assert_eq!(
                value,
                JsonValue::Object(vec![
                    (s("complexity"), JsonValue::Number(s("4"))),
                    (s("insights"), JsonValue::Array(vec![JsonValue::Str(s("x"))])),
                ])
            );
            let a = finish_analysis(&summary(), s("P"), CopilotOutcome::Parsed { raw: r, value });
            assert_eq!(a.insights, vec![s("x")]);
            assert_eq!(a.complexity, Some(4));
        }
        other => panic!("unexpected {other:?}"),
    }
    match read_copilot_answer(s("Sure! Here is the analysis")) {
        CopilotOutcome::Unparsable(error) => assert!(error.contains("line 1")),
        other => panic!("unexpected {other:?}"),
    }
}

#[test]
fn stored_documents_fall_back_when_not_json() {
    assert_eq!(json_or("[true, null]", JsonValue::Null), JsonValue::Array(vec![JsonValue::Bool(true), JsonValue::Null]));
    assert_eq!(json_or("{", JsonValue::Object(vec![])), JsonValue::Object(vec![]));
    assert_eq!(json_or("-12.5", JsonValue::Null), JsonValue::Number(s("-12.5")));
}
