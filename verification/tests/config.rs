use ldc_companion::config::{bool_env, build_provider, AppConfig, ProviderChoice};

fn env(pairs: &[(&str, &str)]) -> Vec<(String, String)> {
    pairs.iter().map(|(k, v)| (k.to_string(), v.to_string())).collect()
}

#[test]
fn defaults_apply_to_an_empty_environment() {
    let c = AppConfig::from_env(&vec![]);
    assert_eq!(c.host, "127.0.0.1");
    assert_eq!(c.port, 8787);
    assert_eq!(c.database_path, ".ldc/linkedin-dev-companion.db");
    assert_eq!(c.draft_model, "local-template-v1");
    assert_eq!(c.provider, "template");
    assert_eq!(c.openai_api_key, None);
    assert_eq!(c.reasoning_effort, "medium");
    assert!(!c.copilot_enabled);
    assert_eq!(c.copilot_cli_path, "copilot");
    assert_eq!(c.copilot_model, "copilot-latest");
    assert_eq!(c.copilot_github_token_env, Some("COPILOT_GITHUB_TOKEN".to_string()));
    assert!(!c.linkedin_enabled);
    assert!(!c.linkedin_dry_run);
    assert_eq!(c.linkedin_access_token, None);
    assert_eq!(c.linkedin_author_urn, None);
    assert_eq!(c.linkedin_api_version, "202506");
    assert!(matches!(build_provider(&c), ProviderChoice::Template(_)));
}

#[test]
fn variables_override_the_defaults() {
    let c = AppConfig::from_env(&env(&[
        ("LDC_HOST", "0.0.0.0"),
        ("LDC_PORT", "9000"),
        ("LDC_LLM_PROVIDER", "OpenAI"),
        ("OPENAI_API_KEY", "sk-1"),
        ("LDC_DRAFT_MODEL", "gpt-5.4"),
        ("LDC_COPILOT_ENABLED", "YES"),
        ("LDC_COPILOT_GITHUB_TOKEN_ENV", ""),
        ("LDC_LINKEDIN_ENABLED", "on"),
        ("LDC_LINKEDIN_DRY_RUN", "nope"),
        ("LDC_LINKEDIN_AUTHOR_URN", ""),
        ("LDC_PORT", "1"),
    ]));
    assert_eq!(c.host, "0.0.0.0");
    assert_eq!(c.port, 9000);
    assert!(c.copilot_enabled);
    assert_eq!(c.copilot_github_token_env, Some("COPILOT_GITHUB_TOKEN".to_string()));
    assert!(c.linkedin_enabled);
    assert!(!c.linkedin_dry_run);
    assert_eq!(c.linkedin_author_urn, None);
    match build_provider(&c) {
        ProviderChoice::OpenAi(p) => {
            assert_eq!(p.api_key(), "sk-1");
            assert_eq!(p.model(), "gpt-5.4");
        }
        other => panic!("{other:?}"),
    }
    let c = AppConfig::from_env(&env(&[("LDC_PORT", "99999"), ("LDC_LLM_PROVIDER", "openai")]));
    assert_eq!(c.port, 8787);
    assert!(matches!(build_provider(&c), ProviderChoice::Template(_)));
}

#[test]
fn switches_read_common_truthy_words() {
    for (v, expected) in [("1", true), ("TRUE", true), ("Yes", true), ("on", true), ("0", false), ("", false), (" true", false)] {
        assert_eq!(bool_env(&env(&[("X", v)]), "X", false), expected, "{v:?}");
    }
    assert!(bool_env(&vec![], "X", true));
    assert!(!bool_env(&env(&[("X", "off")]), "X", true));
}

#[test]
fn outside_services_stay_off_unless_asked_for() {
    let c = AppConfig::from_env(&env(&[
        ("OPENAI_API_KEY", "sk-test"),
        ("LDC_COPILOT_CLI_PATH", "/usr/bin/copilot"),
        ("LDC_LINKEDIN_AUTHOR_URN", "urn:li:person:x"),
        ("LDC_LINKEDIN_DRY_RUN", "true"),
    ]));
    assert!(matches!(build_provider(&c), ProviderChoice::Template(_)));
    assert!(!c.copilot_enabled);
    assert!(!c.linkedin_enabled);
}
