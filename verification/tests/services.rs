use ldc_companion::copilot::{CopilotAdapter, CopilotError};
use ldc_companion::linkedin::{
    dry_run_result, post_body, publish_outcome, LinkedInPublisher, PublishError, PublishPlan,
};
use ldc_companion::model::JsonValue;

fn s(x: &str) -> String {
    x.to_string()
}

#[test]
fn copilot_adapter_keeps_its_settings() {
    let a = CopilotAdapter::new(s("copilot"), s("copilot-latest"), Some(s("GH")));
    assert_eq!(a.cli_path(), "copilot");
    assert_eq!(a.model(), "copilot-latest");
    assert_eq!(a.github_token_env(), Some("GH"));
    assert_eq!(a.timeout_seconds(), 45);
    assert_eq!(
        a.command_args("oi"),
        vec!["-p", "oi", "-s", "--no-ask-user", "--model", "copilot-latest", "--allow-tool", "shell(git:*)"]
    );
}

#[test]
fn copilot_output_is_read() {
    let a = CopilotAdapter::new(s("copilot"), s("m"), None);
    assert_eq!(a.read_output(true, "olá".as_bytes().to_vec(), vec![]), Ok(s("olá")));
    assert_eq!(a.read_output(true, vec![0xff, 0xfe], vec![]), Err(CopilotError::NotUtf8));
    let err = a.read_output(false, vec![], b"bad \xff".to_vec()).unwrap_err();
    assert_eq!(err, CopilotError::Failed { stderr: s("bad \u{fffd}") });
    assert_eq!(err.message(), "Copilot CLI retornou erro: bad \u{fffd}");
    assert_eq!(CopilotError::NotUtf8.message(), "saida do Copilot CLI nao e UTF-8 valida");
    assert_eq!(CopilotError::Timeout { cli_path: s("c") }.message(), "timeout ao executar Copilot CLI em c");
    assert_eq!(CopilotError::Launch { cli_path: s("c") }.message(), "falha ao executar Copilot CLI em c");
}

#[test]
fn publishing_is_planned() {
    let off = LinkedInPublisher::new(false, true, None, Some(s("urn")), s("202506"));
    assert!(!off.is_enabled());
    assert!(off.is_dry_run());
    assert_eq!(off.api_version(), "202506");
    assert!(matches!(off.plan(), Err(PublishError::Disabled)));
    let no_author = LinkedInPublisher::new(true, true, None, Some(s("  ")), s("v"));
    assert!(matches!(no_author.plan(), Err(PublishError::MissingAuthor)));
    let dry = LinkedInPublisher::new(true, true, None, Some(s("urn:li:person:test")), s("v"));
    assert!(matches!(dry.plan(), Ok(PublishPlan::DryRun)));
    let no_token = LinkedInPublisher::new(true, false, Some(s(" ")), Some(s("urn")), s("v"));
    assert!(matches!(no_token.plan(), Err(PublishError::MissingAccessToken)));
    let live = LinkedInPublisher::new(true, false, Some(s("tok")), Some(s(" urn ")), s("v"));
    match live.plan() {
        Ok(PublishPlan::Live { author_urn, access_token }) => {
            assert_eq!(author_urn, " urn ");
            assert_eq!(access_token, "tok");
        }
        other => panic!("{other:?}"),
    }
    assert_eq!(PublishError::Disabled.message(), "LinkedIn publisher desabilitado. Use LDC_LINKEDIN_ENABLED=true.");
    assert_eq!(PublishError::MissingAuthor.message(), "LDC_LINKEDIN_AUTHOR_URN nao configurado");
    assert_eq!(PublishError::MissingAccessToken.message(), "LDC_LINKEDIN_ACCESS_TOKEN nao configurado");
}

#[test]
fn publication_results() {
    let r = dry_run_result(1746400000123);
    assert_eq!(r.provider, "linkedin_dry_run");
    assert_eq!(r.external_id, "dryrun-1746400000123");
    let payload = JsonValue::Object(vec![(s("id"), JsonValue::Str(s("urn:li:share:9")))]);
    let ok = publish_outcome(201, s("201 Created"), Some(s("urn:li:share:1")), &payload, s("{}"), 5).unwrap();
    assert_eq!(ok.provider, "linkedin_posts_api");
    assert_eq!(ok.external_id, "urn:li:share:1");
    let ok = publish_outcome(201, s("201 Created"), None, &payload, s("{}"), 5).unwrap();
    assert_eq!(ok.external_id, "urn:li:share:9");
    let ok = publish_outcome(200, s("200 OK"), None, &JsonValue::Object(vec![]), s("{}"), 5).unwrap();
    assert_eq!(ok.external_id, "linkedin-5");
    let err = publish_outcome(403, s("403 Forbidden"), None, &payload, s("{\"x\":1}"), 5).unwrap_err();
    assert_eq!(err.message(), "LinkedIn Posts API retornou 403 Forbidden: {\"x\":1}");
    assert!(publish_outcome(300, s("300"), None, &payload, s(""), 5).is_err());
}

#[test]
fn post_body_is_a_public_main_feed_post() {
    let b = post_body("urn:a", "texto");
    let expected = JsonValue::Object(vec![
        (s("author"), JsonValue::Str(s("urn:a"))),
        (s("commentary"), JsonValue::Str(s("texto"))),
        (s("visibility"), JsonValue::Str(s("PUBLIC"))),
        (
            s("distribution"),
            JsonValue::Object(vec![
                (s("feedDistribution"), JsonValue::Str(s("MAIN_FEED"))),
                (s("targetEntities"), JsonValue::Array(vec![])),
                (s("thirdPartyDistributionChannels"), JsonValue::Array(vec![])),
            ]),
        ),
        (s("lifecycleState"), JsonValue::Str(s("PUBLISHED"))),
        (s("isReshareDisabledByAuthor"), JsonValue::Bool(false)),
    ]);
    assert_eq!(b, expected);
}
