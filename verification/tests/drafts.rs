use ldc_companion::draft::build_daily_draft;
use ldc_companion::llm::{DraftInput, OpenAiProvider, TemplateProvider};
use ldc_companion::model::{CalendarDate, DailySummary, JsonValue, TechnicalAnalysis};

fn s(x: &str) -> String {
    x.to_string()
}

fn summary() -> DailySummary {
    DailySummary {
        date: CalendarDate { year: 2026, month: 5, day: 5 },
        event_count: 3,
        total_time_minutes: 40,
        lines_added: 12,
        lines_removed: 3,
        git_commits: 1,
        projects: vec![s("demo")],
        languages: vec![(s("rust"), 10), (s("typescript"), 5)],
        files_modified: (1..=7).map(|i| format!("f{i}.rs")).collect(),
        voice_examples: 0,
        git_changes: vec![],
    }
}

#[test]
fn daily_draft_follows_the_template() {
    let (content, audit) = build_daily_draft(&summary(), &vec![], JsonValue::Null);
    let expected = "Hoje avancei em demo e o sinal mais interessante foi o conjunto de pequenas decisoes tecnicas ao redor de rust, typescript.\n\nForam 3 eventos registrados, 12 linhas adicionadas e 3 removidas. O recorte passou por: f1.rs, f2.rs, f3.rs, f4.rs, f5.rs.\n\nO aprendizado do dia: transformar trabalho real em conteudo fica mais facil quando o sistema registra contexto suficiente para lembrar o que mudou, mas ainda deixa a decisao final na mao de quem escreveu o codigo.\n\nAinda sem exemplos de voz aprovados, entao este rascunho esta mais neutro.\n\nRascunho pendente de revisao manual antes de qualquer publicacao.";
    assert_eq!(content, expected);
    assert_eq!(
        audit,
        JsonValue::Object(vec![
            (s("source"), JsonValue::Str(s("daily_summary"))),
            (s("summary"), JsonValue::Null),
            (s("voice_examples_used"), JsonValue::Number(s("0"))),
            (s("human_approval_required"), JsonValue::Bool(true)),
            (s("publication"), JsonValue::Str(s("disabled_in_phase_1"))),
        ])
    );
}

#[test]
fn daily_draft_of_an_empty_day() {
    let mut sm = summary();
    sm.projects.clear();
    sm.languages.clear();
    sm.files_modified.clear();
    let (content, _) = build_daily_draft(&sm, &vec![s("exemplo")], JsonValue::Null);
    assert!(content.starts_with("Hoje avancei em um projeto local e o sinal mais interessante foi o conjunto de pequenas decisoes tecnicas ao redor de a stack principal ainda nao ficou clara."));
    assert!(content.contains("O recorte passou por: sem arquivos relevantes registrados ainda."));
    assert!(content.contains("Usei os exemplos de voz aprovados como referencia de tom"));
}

fn analysis(insights: Vec<String>) -> TechnicalAnalysis {
    TechnicalAnalysis {
        source: s("local_fallback"),
        status: s("ok"),
        insights,
        tech_stack: vec![],
        complexity: Some(2),
        learnings: vec![],
        raw: None,
        error: None,
    }
}

#[test]
fn template_draft_includes_the_analysis() {
    let input = DraftInput {
        summary: summary(),
        voice_examples: vec![s("um exemplo")],
        technical_analysis: Some(analysis(vec![s("insight um"), s("insight dois")])),
    };
    let t = TemplateProvider;
    let content = t.draft_content(&input);
    assert!(content.starts_with("Hoje avancei em demo e o sinal mais interessante foi o conjunto de decisoes tecnicas ao redor de rust, typescript."));
    assert!(content.contains("f5.rs.\n\nAnalise tecnica do dia: insight um\n\nO aprendizado do dia"));
    assert!(content.contains("Usei exemplos de voz aprovados como referencia de tom"));
    assert_eq!(t.model_name(), "local-template-v2");
    let input = DraftInput { summary: summary(), voice_examples: vec![], technical_analysis: Some(analysis(vec![])) };
    assert!(t.draft_content(&input).contains("f5.rs.\n\nO aprendizado do dia"));
    let audit = t.audit(JsonValue::Null, JsonValue::Null, 2);
    assert_eq!(
        audit,
        JsonValue::Object(vec![
            (s("provider"), JsonValue::Str(s("template"))),
            (s("summary"), JsonValue::Null),
            (s("technical_analysis"), JsonValue::Null),
            (s("voice_examples_used"), JsonValue::Number(s("2"))),
            (s("human_approval_required"), JsonValue::Bool(true)),
            (s("publication"), JsonValue::Str(s("disabled"))),
        ])
    );
}

#[test]
fn openai_request_and_reply() {
    let p = OpenAiProvider::new(s("sk"), s("gpt-5.4"), s("medium"));
    assert_eq!(p.api_key(), "sk");
    assert_eq!(p.model(), "gpt-5.4");
    assert_eq!(
        p.request_prompt("{}"),
        "Gere um rascunho de LinkedIn em portugues com base neste resumo real do dia: {}"
    );
    assert_eq!(
        p.request_instructions("null", &vec![s("a"), s("b")]),
        "Use somente o contexto fornecido. Aprovacao humana e obrigatoria. Analise tecnica opcional: null\n\nExemplos de voz aprovados: a\n---\nb"
    );
    let body = p.request_body(s("I"), s("P"));
    assert_eq!(
        body,
        JsonValue::Object(vec![
            (s("model"), JsonValue::Str(s("gpt-5.4"))),
            (s("reasoning"), JsonValue::Object(vec![(s("effort"), JsonValue::Str(s("medium")))])),
            (s("instructions"), JsonValue::Str(s("I"))),
            (s("input"), JsonValue::Str(s("P"))),
            (s("max_output_tokens"), JsonValue::Number(s("800"))),
        ])
    );
    let payload = JsonValue::Object(vec![(
        s("output"),
        JsonValue::Array(vec![JsonValue::Object(vec![(
            s("content"),
            JsonValue::Array(vec![JsonValue::Object(vec![(s("text"), JsonValue::Str(s("rascunho")))])]),
        )])]),
    )]);
    assert_eq!(p.output_text(&payload), Some(s("rascunho")));
    assert_eq!(p.output_text(&JsonValue::Object(vec![])), None);
    assert_eq!(p.output_text(&JsonValue::Array(vec![])), None);
    let audit = p.audit(JsonValue::Null, JsonValue::Null, 1);
    assert!(matches!(&audit, JsonValue::Object(e) if e.len() == 8));
    assert_eq!(audit.get("model"), Some(&JsonValue::Str(s("gpt-5.4"))));
    assert_eq!(audit.get("provider"), Some(&JsonValue::Str(s("openai_responses"))));
}
