//! The adapter for the GitHub Copilot CLI: the command line it is run with,
//! and how its exit status and output are read.

use vstd::prelude::*;
use vstd::utf8::{decode_utf8, valid_utf8};
use crate::ingest::opt_view;
use crate::order::views;

verus! {

/// Runs the Copilot CLI as a subprocess to analyse the day.
#[derive(Debug, Clone)]
pub struct CopilotAdapter {
    cli_path: String,
    model: String,
    github_token_env: Option<String>,
    timeout_seconds: u64,
}

/// The settings of a Copilot CLI adapter.
pub struct CopilotAdapterView {
    pub cli_path: Seq<char>,
    pub model: Seq<char>,
    pub github_token_env: Option<Seq<char>>,
    pub timeout_seconds: u64,
}

impl View for CopilotAdapter {
    type V = CopilotAdapterView;

    closed spec fn view(&self) -> CopilotAdapterView {
        CopilotAdapterView {
            cli_path: self.cli_path@,
            model: self.model@,
            github_token_env: opt_view(self.github_token_env),
            timeout_seconds: self.timeout_seconds,
        }
    }
}

/// Why asking the Copilot CLI failed.
#[derive(Debug, Clone, PartialEq)]
pub enum CopilotError {
    /// The CLI did not answer within the time limit.
    Timeout { cli_path: String },
    /// The CLI could not be run.
    Launch { cli_path: String },
    /// The CLI exited with an error; what it wrote to stderr.
    Failed { stderr: String },
    /// The CLI's output is not valid UTF-8.
    NotUtf8,
}

/// `String::from_utf8`: the text the bytes encode, or nothing when they are
/// not valid UTF-8. The contract restates the standard library's
/// documentation over vstd's UTF-8 specification.
#[verifier::external_body]
fn string_from_utf8(bytes: Vec<u8>) -> (r: Option<String>)
    ensures
        r is Some <==> valid_utf8(bytes@),
        r matches Some(s) ==> s@ == decode_utf8(bytes@),
{
    String::from_utf8(bytes).ok()
}

/// The text `String::from_utf8_lossy` makes of some bytes.
pub uninterp spec fn utf8_lossy(bytes: Seq<u8>) -> Seq<char>;

/// `String::from_utf8_lossy`: the text the bytes encode, with each invalid
/// sequence replaced by U+FFFD. The contract names the result and states
/// only that valid UTF-8 is decoded unchanged; how invalid sequences are
/// replaced is left unsaid.
#[verifier::external_body]
fn string_from_utf8_lossy(bytes: &Vec<u8>) -> (r: String)
    ensures
        r@ == utf8_lossy(bytes@),
        valid_utf8(bytes@) ==> r@ == decode_utf8(bytes@),
{
    String::from_utf8_lossy(bytes).into_owned()
}

/// The arguments the CLI is run with for `prompt` with `model`.
pub open spec fn copilot_args(prompt: Seq<char>, model: Seq<char>) -> Seq<Seq<char>> {
    seq![
        "-p"@,
        prompt,
        "-s"@,
        "--no-ask-user"@,
        "--model"@,
        model,
        "--allow-tool"@,
        "shell(git:*)"@,
    ]
}

impl CopilotAdapter {
    /// An adapter for the CLI at `cli_path`, using `model`, that passes on the
    /// token held in the environment variable `github_token_env`, with a
    /// time limit of 45 seconds.
    pub fn new(cli_path: String, model: String, github_token_env: Option<String>) -> (r: Self)
        ensures
            r@ == (CopilotAdapterView {
                cli_path: cli_path@,
                model: model@,
                github_token_env: opt_view(github_token_env),
                timeout_seconds: 45,
            }),
    {
        CopilotAdapter { cli_path, model, github_token_env, timeout_seconds: 45 }
    }

    /// The path of the CLI.
    pub fn cli_path(&self) -> (r: &str)
        ensures
            r@ == self@.cli_path,
    {
        self.cli_path.as_str()
    }

    /// The model the CLI is asked to use.
    pub fn model(&self) -> (r: &str)
        ensures
            r@ == self@.model,
    {
        self.model.as_str()
    }

    /// The environment variable that holds the GitHub token, if any.
    pub fn github_token_env(&self) -> (r: Option<&str>)
        ensures
            match r {
                Some(s) => self@.github_token_env == Some(s@),
                None => self@.github_token_env is None,
            },
    {
        match &self.github_token_env {
            Some(s) => Some(s.as_str()),
            None => None,
        }
    }

    /// How long the CLI may take, in seconds.
    pub fn timeout_seconds(&self) -> (r: u64)
        ensures
            r == self@.timeout_seconds,
    {
        self.timeout_seconds
    }

    /// The arguments the CLI is run with to analyse `prompt`: the prompt, the
    /// silent and non-interactive flags, the model, and permission to run
    /// `git` through the shell tool.
    pub fn command_args(&self, prompt: &str) -> (r: Vec<String>)
        ensures
            views(r@) == copilot_args(prompt@, self@.model),
    {
        let mut r: Vec<String> = Vec::new();
        r.push(String::from_str("-p"));
        r.push(String::from_str(prompt));
        r.push(String::from_str("-s"));
        r.push(String::from_str("--no-ask-user"));
        r.push(String::from_str("--model"));
        r.push(self.model.clone());
        r.push(String::from_str("--allow-tool"));
        r.push(String::from_str("shell(git:*)"));
        assert(views(r@) =~= copilot_args(prompt@, self@.model));
        r
    }

    /// Reads the CLI's answer: an error with its stderr when it exited with an
    /// error, otherwise its stdout, which must be UTF-8.
    pub fn read_output(&self, success: bool, stdout: Vec<u8>, stderr: Vec<u8>) -> (r: Result<
        String,
        CopilotError,
    >)
        ensures
            !success ==> (r matches Err(CopilotError::Failed { stderr: text }) && text@ == utf8_lossy(
                stderr@,
            )),
            success && valid_utf8(stdout@) ==> (r matches Ok(text) && text@ == decode_utf8(stdout@)),
            success && !valid_utf8(stdout@) ==> r matches Err(CopilotError::NotUtf8),
    {
        if !success {
            return Err(CopilotError::Failed { stderr: string_from_utf8_lossy(&stderr) });
        }
        match string_from_utf8(stdout) {
            Some(text) => Ok(text),
            None => Err(CopilotError::NotUtf8),
        }
    }
}

impl CopilotError {
    /// The message the daemon reports for this error.
    pub fn message(&self) -> (r: String)
        ensures
            r@ == match *self {
                CopilotError::Timeout { cli_path } => "timeout ao executar Copilot CLI em "@
                    + cli_path@,
                CopilotError::Launch { cli_path } => "falha ao executar Copilot CLI em "@
                    + cli_path@,
                CopilotError::Failed { stderr } => "Copilot CLI retornou erro: "@ + stderr@,
                CopilotError::NotUtf8 => "saida do Copilot CLI nao e UTF-8 valida"@,
            },
    {
        match self {
            CopilotError::Timeout { cli_path } => {
                let mut r = String::from_str("timeout ao executar Copilot CLI em ");
                r.append(cli_path.as_str());
                r
            },
            CopilotError::Launch { cli_path } => {
                let mut r = String::from_str("falha ao executar Copilot CLI em ");
                r.append(cli_path.as_str());
                r
            },
            CopilotError::Failed { stderr } => {
                let mut r = String::from_str("Copilot CLI retornou erro: ");
                r.append(stderr.as_str());
                r
            },
            CopilotError::NotUtf8 => String::from_str("saida do Copilot CLI nao e UTF-8 valida"),
        }
    }
}

} // verus!
