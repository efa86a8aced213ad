//! The daemon's settings, read from environment variables with defaults, and
//! the choice of draft provider they lead to.

use vstd::prelude::*;
use crate::fmt::{parse_u16, u16_text_value};
use crate::ingest::opt_view;
use crate::llm::{OpenAiProvider, OpenAiProviderView, TemplateProvider};
use crate::text::{lower, lower_str, str_eq};

verus! {

/// The daemon's settings.
#[derive(Debug, Clone)]
pub struct AppConfig {
    pub host: String,
    pub port: u16,
    pub database_path: String,
    pub draft_model: String,
    pub provider: String,
    pub openai_api_key: Option<String>,
    pub reasoning_effort: String,
    pub copilot_enabled: bool,
    pub copilot_cli_path: String,
    pub copilot_model: String,
    pub copilot_github_token_env: Option<String>,
    pub linkedin_enabled: bool,
    pub linkedin_dry_run: bool,
    pub linkedin_access_token: Option<String>,
    pub linkedin_author_urn: Option<String>,
    pub linkedin_api_version: String,
}

/// The views of (name, value) pairs.
pub open spec fn env_views(env: Seq<(String, String)>) -> Seq<(Seq<char>, Seq<char>)> {
    env.map_values(|p: (String, String)| (p.0@, p.1@))
}

/// The value of the first variable called `name`.
pub open spec fn env_get(env: Seq<(Seq<char>, Seq<char>)>, name: Seq<char>) -> Option<Seq<char>>
    decreases env.len(),
{
    if env.len() == 0 {
        None
    } else if env[0].0 == name {
        Some(env[0].1)
    } else {
        env_get(env.drop_first(), name)
    }
}

/// The value of `name`, if set.
pub fn env_var(env: &Vec<(String, String)>, name: &str) -> (r: Option<String>)
    ensures
        opt_view(r) == env_get(env_views(env@), name@),
{
    let ghost ev = env_views(env@);
    let mut i: usize = 0;
    assert(ev.skip(0) =~= ev);
    while i < env.len()
        invariant
            i <= env.len(),
            ev == env_views(env@),
            env_get(ev, name@) == env_get(ev.skip(i as int), name@),
        decreases env.len() - i,
    {
        assert(ev.skip(i as int)[0] == ev[i as int]);
        if str_eq(env[i].0.as_str(), name) {
            return Some(env[i].1.clone());
        }
        assert(ev.skip(i as int).drop_first() =~= ev.skip(i + 1));
        i = i + 1;
    }
    None
}

/// A value, or `default` when unset.
pub open spec fn or_default(o: Option<Seq<char>>, default: Seq<char>) -> Seq<char> {
    match o {
        Some(v) => v,
        None => default,
    }
}

/// A value, unless it is empty.
pub open spec fn non_empty(o: Option<Seq<char>>) -> Option<Seq<char>> {
    match o {
        Some(v) => if v.len() > 0 {
            Some(v)
        } else {
            None
        },
        None => None,
    }
}

/// A switch that is on: `1`, `true`, `yes` or `on`, in any ASCII case.
pub open spec fn is_truthy(v: Seq<char>) -> bool {
    let l = lower(v);
    l == "1"@ || l == "true"@ || l == "yes"@ || l == "on"@
}

/// A switch: on or off as its value says, `default` when unset.
pub open spec fn switch_value(o: Option<Seq<char>>, default: bool) -> bool {
    match o {
        Some(v) => is_truthy(v),
        None => default,
    }
}

fn is_truthy_exec(v: &str) -> (b: bool)
    ensures
        b == is_truthy(v@),
{
    let l = lower_str(v);
    str_eq(l.as_str(), "1") || str_eq(l.as_str(), "true") || str_eq(l.as_str(), "yes") || str_eq(
        l.as_str(),
        "on",
    )
}

/// Reads the switch `name`: on or off as its value says, `default` when it
/// is not set.
pub fn bool_env(env: &Vec<(String, String)>, name: &str, default: bool) -> (b: bool)
    ensures
        b == switch_value(env_get(env_views(env@), name@), default),
{
    match env_var(env, name) {
        Some(v) => is_truthy_exec(v.as_str()),
        None => default,
    }
}

fn or_default_exec(o: Option<String>, default: &str) -> (r: String)
    ensures
        r@ == or_default(opt_view(o), default@),
{
    match o {
        Some(v) => v,
        None => String::from_str(default),
    }
}

fn non_empty_exec(o: Option<String>) -> (r: Option<String>)
    ensures
        opt_view(r) == non_empty(opt_view(o)),
{
    match o {
        Some(v) => if v.as_str().is_empty() {
            None
        } else {
            Some(v)
        },
        None => None,
    }
}

/// `c` holds the settings the variables `env` give, with the defaults for
/// those unset.
pub open spec fn config_from(env: Seq<(Seq<char>, Seq<char>)>, c: AppConfig) -> bool {
    &&& c.host@ == or_default(env_get(env, "LDC_HOST"@), "127.0.0.1"@)
    &&& c.port == match env_get(env, "LDC_PORT"@) {
        Some(v) => match u16_text_value(v) {
            Some(p) => p,
            None => 8787u16,
        },
        None => 8787u16,
    }
    &&& c.draft_model@ == or_default(env_get(env, "LDC_DRAFT_MODEL"@), "local-template-v1"@)
    &&& c.database_path@ == or_default(
        env_get(env, "LDC_DB_PATH"@),
        ".ldc/linkedin-dev-companion.db"@,
    )
    &&& c.provider@ == or_default(env_get(env, "LDC_LLM_PROVIDER"@), "template"@)
    &&& opt_view(c.openai_api_key) == non_empty(env_get(env, "OPENAI_API_KEY"@))
    &&& c.reasoning_effort@ == or_default(env_get(env, "LDC_REASONING_EFFORT"@), "medium"@)
    &&& c.copilot_enabled == switch_value(env_get(env, "LDC_COPILOT_ENABLED"@), false)
    &&& c.copilot_cli_path@ == or_default(env_get(env, "LDC_COPILOT_CLI_PATH"@), "copilot"@)
    &&& c.copilot_model@ == or_default(env_get(env, "LDC_COPILOT_MODEL"@), "copilot-latest"@)
    &&& opt_view(c.copilot_github_token_env) == match non_empty(
        env_get(env, "LDC_COPILOT_GITHUB_TOKEN_ENV"@),
    ) {
        Some(v) => Some(v),
        None => Some("COPILOT_GITHUB_TOKEN"@),
    }
    &&& c.linkedin_enabled == switch_value(env_get(env, "LDC_LINKEDIN_ENABLED"@), false)
    &&& c.linkedin_dry_run == switch_value(env_get(env, "LDC_LINKEDIN_DRY_RUN"@), false)
    &&& opt_view(c.linkedin_access_token) == non_empty(env_get(env, "LDC_LINKEDIN_ACCESS_TOKEN"@))
    &&& opt_view(c.linkedin_author_urn) == non_empty(env_get(env, "LDC_LINKEDIN_AUTHOR_URN"@))
    &&& c.linkedin_api_version@ == or_default(
        env_get(env, "LDC_LINKEDIN_API_VERSION"@),
        "202506"@,
    )
}

impl AppConfig {
    /// The settings given by the environment variables `env` (name, value),
    /// with defaults for those unset: local host, port 8787 (also when the
    /// value is not a port number), the template provider, Copilot and
    /// LinkedIn off.
    pub fn from_env(env: &Vec<(String, String)>) -> (r: AppConfig)
        ensures
            config_from(env_views(env@), r),
    {
        let port = match env_var(env, "LDC_PORT") {
            Some(v) => match parse_u16(v.as_str()) {
                Some(p) => p,
                None => 8787,
            },
            None => 8787,
        };
        let token_env = match non_empty_exec(env_var(env, "LDC_COPILOT_GITHUB_TOKEN_ENV")) {
            Some(v) => Some(v),
            None => Some(String::from_str("COPILOT_GITHUB_TOKEN")),
        };
        AppConfig {
            host: or_default_exec(env_var(env, "LDC_HOST"), "127.0.0.1"),
            port,
            database_path: or_default_exec(
                env_var(env, "LDC_DB_PATH"),
                ".ldc/linkedin-dev-companion.db",
            ),
            draft_model: or_default_exec(env_var(env, "LDC_DRAFT_MODEL"), "local-template-v1"),
            provider: or_default_exec(env_var(env, "LDC_LLM_PROVIDER"), "template"),
            openai_api_key: non_empty_exec(env_var(env, "OPENAI_API_KEY")),
            reasoning_effort: or_default_exec(env_var(env, "LDC_REASONING_EFFORT"), "medium"),
            copilot_enabled: bool_env(env, "LDC_COPILOT_ENABLED", false),
            copilot_cli_path: or_default_exec(env_var(env, "LDC_COPILOT_CLI_PATH"), "copilot"),
            copilot_model: or_default_exec(env_var(env, "LDC_COPILOT_MODEL"), "copilot-latest"),
            copilot_github_token_env: token_env,
            linkedin_enabled: bool_env(env, "LDC_LINKEDIN_ENABLED", false),
            linkedin_dry_run: bool_env(env, "LDC_LINKEDIN_DRY_RUN", false),
            linkedin_access_token: non_empty_exec(env_var(env, "LDC_LINKEDIN_ACCESS_TOKEN")),
            linkedin_author_urn: non_empty_exec(env_var(env, "LDC_LINKEDIN_AUTHOR_URN")),
            linkedin_api_version: or_default_exec(
                env_var(env, "LDC_LINKEDIN_API_VERSION"),
                "202506",
            ),
        }
    }
}

/// The draft provider the daemon runs with.
#[derive(Debug, Clone)]
pub enum ProviderChoice {
    OpenAi(OpenAiProvider),
    Template(TemplateProvider),
}

/// The OpenAI provider is chosen: the provider setting is `openai` in any
/// ASCII case and an API key is set.
pub open spec fn chooses_openai(c: AppConfig) -> bool {
    lower(c.provider@) == "openai"@ && c.openai_api_key is Some
}

/// Picks the draft provider: OpenAI with the configured model and reasoning
/// effort when asked for and a key is set, the local template otherwise.
pub fn build_provider(config: &AppConfig) -> (r: ProviderChoice)
    ensures
        chooses_openai(*config) ==> (r matches ProviderChoice::OpenAi(p) && p@ == (OpenAiProviderView {
            api_key: config.openai_api_key->0@,
            model: config.draft_model@,
            reasoning_effort: config.reasoning_effort@,
        })),
        !chooses_openai(*config) ==> r is Template,
{
    if str_eq(lower_str(config.provider.as_str()).as_str(), "openai") {
        if let Some(api_key) = &config.openai_api_key {
            return ProviderChoice::OpenAi(
                OpenAiProvider::new(
                    api_key.clone(),
                    config.draft_model.clone(),
                    config.reasoning_effort.clone(),
                ),
            );
        }
    }
    ProviderChoice::Template(TemplateProvider)
}

} // verus!
