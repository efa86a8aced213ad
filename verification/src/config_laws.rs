//! Laws of the settings: the outside services stay off unless asked for.

use vstd::prelude::*;
use crate::config::{chooses_openai, config_from, env_get, AppConfig};
use crate::fmt::u16_text_value;
use crate::ingest::opt_view;
use crate::text::lower;

verus! {

/// Unless the environment asks for them, the outside services stay off:
/// with no provider set, drafts come from the local template; with no switch
/// set, the Copilot analysis and LinkedIn publication are disabled.
pub proof fn law_outside_services_off_by_default(
    env: Seq<(Seq<char>, Seq<char>)>,
    c: AppConfig,
)
    requires
        config_from(env, c),
    ensures
        env_get(env, "LDC_LLM_PROVIDER"@) is None ==> !chooses_openai(c),
        env_get(env, "LDC_COPILOT_ENABLED"@) is None ==> !c.copilot_enabled,
        env_get(env, "LDC_LINKEDIN_ENABLED"@) is None ==> !c.linkedin_enabled,
{
    if env_get(env, "LDC_LLM_PROVIDER"@) is None {
        reveal_strlit("template");
        reveal_strlit("openai");
        assert(lower(c.provider@).len() == c.provider@.len());
    }
}

/// Every setting that the environment gives is taken as given: each text
/// setting is its variable's value, the port is its variable when that is a
/// port number, a secret or author is its variable when not empty, and a
/// switch is on exactly for `1`, `true`, `yes` or `on` in any ASCII case.
pub proof fn law_set_variables_are_used(env: Seq<(Seq<char>, Seq<char>)>, c: AppConfig)
    requires
        config_from(env, c),
    ensures
        env_get(env, "LDC_HOST"@) is Some ==> c.host@ == env_get(env, "LDC_HOST"@)->0,
        env_get(env, "LDC_PORT"@) is Some && u16_text_value(env_get(env, "LDC_PORT"@)->0) is Some
            ==> c.port == u16_text_value(env_get(env, "LDC_PORT"@)->0)->0,
        env_get(env, "LDC_DRAFT_MODEL"@) is Some ==> c.draft_model@ == env_get(
            env,
            "LDC_DRAFT_MODEL"@,
        )->0,
        env_get(env, "LDC_DB_PATH"@) is Some ==> c.database_path@ == env_get(env, "LDC_DB_PATH"@)->0,
        env_get(env, "LDC_LLM_PROVIDER"@) is Some ==> c.provider@ == env_get(
            env,
            "LDC_LLM_PROVIDER"@,
        )->0,
        env_get(env, "OPENAI_API_KEY"@) is Some && env_get(env, "OPENAI_API_KEY"@)->0.len() > 0
            ==> opt_view(c.openai_api_key) == env_get(env, "OPENAI_API_KEY"@),
        env_get(env, "LDC_REASONING_EFFORT"@) is Some ==> c.reasoning_effort@ == env_get(
            env,
            "LDC_REASONING_EFFORT"@,
        )->0,
        env_get(env, "LDC_COPILOT_ENABLED"@) is Some ==> (c.copilot_enabled <==> is_on_word(
            env_get(env, "LDC_COPILOT_ENABLED"@)->0,
        )),
        env_get(env, "LDC_COPILOT_CLI_PATH"@) is Some ==> c.copilot_cli_path@ == env_get(
            env,
            "LDC_COPILOT_CLI_PATH"@,
        )->0,
        env_get(env, "LDC_COPILOT_MODEL"@) is Some ==> c.copilot_model@ == env_get(
            env,
            "LDC_COPILOT_MODEL"@,
        )->0,
        env_get(env, "LDC_COPILOT_GITHUB_TOKEN_ENV"@) is Some && env_get(
            env,
            "LDC_COPILOT_GITHUB_TOKEN_ENV"@,
        )->0.len() > 0 ==> opt_view(c.copilot_github_token_env) == env_get(
            env,
            "LDC_COPILOT_GITHUB_TOKEN_ENV"@,
        ),
        env_get(env, "LDC_LINKEDIN_ENABLED"@) is Some ==> (c.linkedin_enabled <==> is_on_word(
            env_get(env, "LDC_LINKEDIN_ENABLED"@)->0,
        )),
        env_get(env, "LDC_LINKEDIN_DRY_RUN"@) is Some ==> (c.linkedin_dry_run <==> is_on_word(
            env_get(env, "LDC_LINKEDIN_DRY_RUN"@)->0,
        )),
        env_get(env, "LDC_LINKEDIN_ACCESS_TOKEN"@) is Some && env_get(
            env,
            "LDC_LINKEDIN_ACCESS_TOKEN"@,
        )->0.len() > 0 ==> opt_view(c.linkedin_access_token) == env_get(
            env,
            "LDC_LINKEDIN_ACCESS_TOKEN"@,
        ),
        env_get(env, "LDC_LINKEDIN_AUTHOR_URN"@) is Some && env_get(
            env,
            "LDC_LINKEDIN_AUTHOR_URN"@,
        )->0.len() > 0 ==> opt_view(c.linkedin_author_urn) == env_get(
            env,
            "LDC_LINKEDIN_AUTHOR_URN"@,
        ),
        env_get(env, "LDC_LINKEDIN_API_VERSION"@) is Some ==> c.linkedin_api_version@ == env_get(
            env,
            "LDC_LINKEDIN_API_VERSION"@,
        )->0,
{
}

/// A switch word that turns a setting on: `1`, `true`, `yes` or `on`, its
/// ASCII letters in either case.
pub open spec fn is_on_word(v: Seq<char>) -> bool {
    let l = lower(v);
    l == "1"@ || l == "true"@ || l == "yes"@ || l == "on"@
}

/// Every setting whose variable is not set takes its default: host
/// 127.0.0.1, port 8787, the draft model local-template-v1, the database
/// under .ldc, the template provider, no OpenAI key, medium reasoning, the
/// Copilot CLI `copilot` with model copilot-latest reading its token from
/// COPILOT_GITHUB_TOKEN, LinkedIn off and not simulated, no token or author,
/// and API version 202506.
pub proof fn law_unset_variables_take_defaults(env: Seq<(Seq<char>, Seq<char>)>, c: AppConfig)
    requires
        config_from(env, c),
    ensures
        env_get(env, "LDC_HOST"@) is None ==> c.host@ == "127.0.0.1"@,
        env_get(env, "LDC_PORT"@) is None ==> c.port == 8787,
        env_get(env, "LDC_DRAFT_MODEL"@) is None ==> c.draft_model@ == "local-template-v1"@,
        env_get(env, "LDC_DB_PATH"@) is None ==> c.database_path@
            == ".ldc/linkedin-dev-companion.db"@,
        env_get(env, "LDC_LLM_PROVIDER"@) is None ==> c.provider@ == "template"@,
        env_get(env, "OPENAI_API_KEY"@) is None ==> c.openai_api_key is None,
        env_get(env, "LDC_REASONING_EFFORT"@) is None ==> c.reasoning_effort@ == "medium"@,
        env_get(env, "LDC_COPILOT_ENABLED"@) is None ==> !c.copilot_enabled,
        env_get(env, "LDC_COPILOT_CLI_PATH"@) is None ==> c.copilot_cli_path@ == "copilot"@,
        env_get(env, "LDC_COPILOT_MODEL"@) is None ==> c.copilot_model@ == "copilot-latest"@,
        env_get(env, "LDC_COPILOT_GITHUB_TOKEN_ENV"@) is None ==> opt_view(
            c.copilot_github_token_env,
        ) == Some("COPILOT_GITHUB_TOKEN"@),
        env_get(env, "LDC_LINKEDIN_ENABLED"@) is None ==> !c.linkedin_enabled,
        env_get(env, "LDC_LINKEDIN_DRY_RUN"@) is None ==> !c.linkedin_dry_run,
        env_get(env, "LDC_LINKEDIN_ACCESS_TOKEN"@) is None ==> c.linkedin_access_token is None,
        env_get(env, "LDC_LINKEDIN_AUTHOR_URN"@) is None ==> c.linkedin_author_urn is None,
        env_get(env, "LDC_LINKEDIN_API_VERSION"@) is None ==> c.linkedin_api_version@
            == "202506"@,
{
}

} // verus!
