//! Publishing an approved draft on LinkedIn: whether and how a post may be
//! published, the request body, and the reading of the reply.

use vstd::prelude::*;
use crate::draft::{has_keys, is_json_text, json_text, member};
use crate::fmt::{decimal_int, fmt_i64};
use crate::ingest::opt_view;
use crate::json::{json_index, json_str};
use crate::model::JsonValue;
use crate::text::{trim, trim_str};

verus! {

/// Publishes approved drafts through the LinkedIn Posts API.
#[derive(Debug, Clone)]
pub struct LinkedInPublisher {
    enabled: bool,
    dry_run: bool,
    access_token: Option<String>,
    author_urn: Option<String>,
    api_version: String,
}

/// The settings of a publisher.
pub struct LinkedInPublisherView {
    pub enabled: bool,
    pub dry_run: bool,
    pub access_token: Option<Seq<char>>,
    pub author_urn: Option<Seq<char>>,
    pub api_version: Seq<char>,
}

impl View for LinkedInPublisher {
    type V = LinkedInPublisherView;

    closed spec fn view(&self) -> LinkedInPublisherView {
        LinkedInPublisherView {
            enabled: self.enabled,
            dry_run: self.dry_run,
            access_token: opt_view(self.access_token),
            author_urn: opt_view(self.author_urn),
            api_version: self.api_version@,
        }
    }
}

/// Where a post went and under which id.
#[derive(Debug, Clone, PartialEq)]
pub struct LinkedInPublishResult {
    pub provider: String,
    pub external_id: String,
}

/// How a publication goes ahead.
#[derive(Debug, Clone)]
pub enum PublishPlan {
    /// Nothing is sent; an id is made up from the time.
    DryRun,
    /// The post is sent as `author_urn` with `access_token`.
    Live { author_urn: String, access_token: String },
}

/// Why a publication did not happen.
#[derive(Debug, Clone, PartialEq)]
pub enum PublishError {
    Disabled,
    MissingAuthor,
    MissingAccessToken,
    /// The API refused the post: its status line and its answer.
    Rejected { status: String, payload: String },
}

/// A setting that is present and not blank.
pub open spec fn is_set(o: Option<Seq<char>>) -> bool {
    o matches Some(v) && trim(v).len() > 0
}

fn is_set_exec(o: &Option<String>) -> (b: bool)
    ensures
        b == is_set(opt_view(*o)),
{
    match o {
        Some(v) => !trim_str(v.as_str()).as_str().is_empty(),
        None => false,
    }
}

/// The body of a public post of `content` by `author` on the main feed.
pub open spec fn is_post_body(r: JsonValue, author: Seq<char>, content: Seq<char>) -> bool {
    &&& has_keys(
        r,
        seq![
            "author"@,
            "commentary"@,
            "visibility"@,
            "distribution"@,
            "lifecycleState"@,
            "isReshareDisabledByAuthor"@,
        ],
    )
    &&& is_json_text(member(r, 0), author)
    &&& is_json_text(member(r, 1), content)
    &&& is_json_text(member(r, 2), "PUBLIC"@)
    &&& has_keys(
        member(r, 3),
        seq!["feedDistribution"@, "targetEntities"@, "thirdPartyDistributionChannels"@],
    )
    &&& is_json_text(member(member(r, 3), 0), "MAIN_FEED"@)
    &&& member(member(r, 3), 1) matches JsonValue::Array(a) && a@.len() == 0
    &&& member(member(r, 3), 2) matches JsonValue::Array(b) && b@.len() == 0
    &&& is_json_text(member(r, 4), "PUBLISHED"@)
    &&& member(r, 5) == JsonValue::Bool(false)
}

impl LinkedInPublisher {
    /// A publisher with the given settings.
    pub fn new(
        enabled: bool,
        dry_run: bool,
        access_token: Option<String>,
        author_urn: Option<String>,
        api_version: String,
    ) -> (r: Self)
        ensures
            r@ == (LinkedInPublisherView {
                enabled,
                dry_run,
                access_token: opt_view(access_token),
                author_urn: opt_view(author_urn),
                api_version: api_version@,
            }),
    {
        LinkedInPublisher { enabled, dry_run, access_token, author_urn, api_version }
    }

    /// Whether publishing is switched on.
    pub fn is_enabled(&self) -> (r: bool)
        ensures
            r == self@.enabled,
    {
        self.enabled
    }

    /// Whether publications are only simulated.
    pub fn is_dry_run(&self) -> (r: bool)
        ensures
            r == self@.dry_run,
    {
        self.dry_run
    }

    /// The `Linkedin-Version` the API is called with.
    pub fn api_version(&self) -> (r: &str)
        ensures
            r@ == self@.api_version,
    {
        self.api_version.as_str()
    }

    /// Decides how a publication goes ahead: refused when publishing is off
    /// or no author is set; simulated in dry-run mode; otherwise sent, which
    /// also needs an access token.
    pub fn plan(&self) -> (r: Result<PublishPlan, PublishError>)
        ensures
            !self@.enabled ==> r matches Err(PublishError::Disabled),
            self@.enabled && !is_set(self@.author_urn) ==> r matches Err(
                PublishError::MissingAuthor,
            ),
            self@.enabled && is_set(self@.author_urn) && self@.dry_run ==> r matches Ok(
                PublishPlan::DryRun,
            ),
            self@.enabled && is_set(self@.author_urn) && !self@.dry_run && !is_set(
                self@.access_token,
            ) ==> r matches Err(PublishError::MissingAccessToken),
            self@.enabled && is_set(self@.author_urn) && !self@.dry_run && is_set(self@.access_token)
                ==> (r matches Ok(PublishPlan::Live { author_urn, access_token }) && Some(
                author_urn@,
            ) == self@.author_urn && Some(access_token@) == self@.access_token),
    {
        if !self.enabled {
            return Err(PublishError::Disabled);
        }
        if !is_set_exec(&self.author_urn) {
            return Err(PublishError::MissingAuthor);
        }
        if self.dry_run {
            return Ok(PublishPlan::DryRun);
        }
        if !is_set_exec(&self.access_token) {
            return Err(PublishError::MissingAccessToken);
        }
        match (&self.author_urn, &self.access_token) {
            (Some(author), Some(token)) => Ok(
                PublishPlan::Live { author_urn: author.clone(), access_token: token.clone() },
            ),
            _ => Err(PublishError::MissingAuthor),
        }
    }
}

/// The result of a simulated publication at `now_millis`.
pub fn dry_run_result(now_millis: i64) -> (r: LinkedInPublishResult)
    ensures
        r.provider@ == "linkedin_dry_run"@,
        r.external_id@ == "dryrun-"@ + decimal_int(now_millis as int),
{
    let mut id = String::from_str("dryrun-");
    id.append(fmt_i64(now_millis).as_str());
    LinkedInPublishResult { provider: String::from_str("linkedin_dry_run"), external_id: id }
}

/// The body of the Posts API request that publishes `content` as `author`.
pub fn post_body(author: &str, content: &str) -> (r: JsonValue)
    ensures
        is_post_body(r, author@, content@),
{
    let distribution = JsonValue::Object(
        vec![
            (String::from_str("feedDistribution"), json_text("MAIN_FEED")),
            (String::from_str("targetEntities"), JsonValue::Array(Vec::new())),
            (String::from_str("thirdPartyDistributionChannels"), JsonValue::Array(Vec::new())),
        ],
    );
    JsonValue::Object(
        vec![
            (String::from_str("author"), json_text(author)),
            (String::from_str("commentary"), json_text(content)),
            (String::from_str("visibility"), json_text("PUBLIC")),
            (String::from_str("distribution"), distribution),
            (String::from_str("lifecycleState"), json_text("PUBLISHED")),
            (String::from_str("isReshareDisabledByAuthor"), JsonValue::Bool(false)),
        ],
    )
}

/// The id of a published post: the `x-restli-id` header, else the `id` of
/// the answer, else one made up from the time.
pub open spec fn published_id(
    restli_id: Option<Seq<char>>,
    payload: JsonValue,
    now_millis: i64,
) -> Seq<char> {
    match restli_id {
        Some(id) => id,
        None => match json_str(json_index(payload, "id"@)) {
            Some(id) => id,
            None => "linkedin-"@ + decimal_int(now_millis as int),
        },
    }
}

/// Reads the Posts API's answer: refused unless the status is a success
/// (200 to 299), reported with the status line and the answer; otherwise the
/// post's id.
pub fn publish_outcome(
    status: u16,
    status_text: String,
    restli_id: Option<String>,
    payload: &JsonValue,
    payload_text: String,
    now_millis: i64,
) -> (r: Result<LinkedInPublishResult, PublishError>)
    ensures
        !(200 <= status <= 299) ==> (r matches Err(PublishError::Rejected { status: s, payload: p })
            && s@ == status_text@ && p@ == payload_text@),
        200 <= status <= 299 ==> (r matches Ok(res) && res.provider@ == "linkedin_posts_api"@
            && res.external_id@ == published_id(opt_view(restli_id), *payload, now_millis)),
{
    if !(200 <= status && status <= 299) {
        return Err(PublishError::Rejected { status: status_text, payload: payload_text });
    }
    let external_id = match restli_id {
        Some(id) => id,
        None => match payload.get("id") {
            Some(v) => match v.as_str() {
                Some(s) => String::from_str(s),
                None => {
                    let mut id = String::from_str("linkedin-");
                    id.append(fmt_i64(now_millis).as_str());
                    id
                },
            },
            None => {
                let mut id = String::from_str("linkedin-");
                id.append(fmt_i64(now_millis).as_str());
                id
            },
        },
    };
    Ok(LinkedInPublishResult { provider: String::from_str("linkedin_posts_api"), external_id })
}

impl PublishError {
    /// The message the daemon reports for this error.
    pub fn message(&self) -> (r: String)
        ensures
            r@ == match *self {
                PublishError::Disabled => "LinkedIn publisher desabilitado. Use LDC_LINKEDIN_ENABLED=true."@,
                PublishError::MissingAuthor => "LDC_LINKEDIN_AUTHOR_URN nao configurado"@,
                PublishError::MissingAccessToken => "LDC_LINKEDIN_ACCESS_TOKEN nao configurado"@,
                PublishError::Rejected { status, payload } => "LinkedIn Posts API retornou "@
                    + status@ + ": "@ + payload@,
            },
    {
        match self {
            PublishError::Disabled => String::from_str(
                "LinkedIn publisher desabilitado. Use LDC_LINKEDIN_ENABLED=true.",
            ),
            PublishError::MissingAuthor => String::from_str("LDC_LINKEDIN_AUTHOR_URN nao configurado"),
            PublishError::MissingAccessToken => String::from_str(
                "LDC_LINKEDIN_ACCESS_TOKEN nao configurado",
            ),
            PublishError::Rejected { status, payload } => {
                let mut r = String::from_str("LinkedIn Posts API retornou ");
                r.append(status.as_str());
                r.append(": ");
                r.append(payload.as_str());
                r
            },
        }
    }
}

/// A published post is known by the `x-restli-id` header whenever the answer
/// has one, whatever its body says; else by the body's `id` text; and only
/// when neither is there by a made-up `linkedin-` id from the time.
pub proof fn law_published_id_prefers_the_header(
    restli_id: Option<Seq<char>>,
    payload: JsonValue,
    now_millis: i64,
)
    ensures
        restli_id matches Some(id) ==> published_id(restli_id, payload, now_millis) == id,
        restli_id is None && payload is Object && payload->Object_0@.len() > 0
            && payload->Object_0@[0].0@ == "id"@ && payload->Object_0@[0].1 is Str ==> published_id(
            restli_id,
            payload,
            now_millis,
        ) == payload->Object_0@[0].1->Str_0@,
        restli_id is None && !(payload is Object) ==> published_id(restli_id, payload, now_millis)
            == "linkedin-"@ + decimal_int(now_millis as int),
{
}

} // verus!
