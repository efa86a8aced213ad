//! The technical analysis of a day: a local reading of the day's signals, and
//! the use of the Copilot CLI's answer when there is one.

use vstd::prelude::*;
use crate::fmt::{decimal_int, fmt_i64, join, join_first};
use crate::ingest::opt_view;
use crate::json::{json_document, json_i64, json_index, parse_json_document, string_array, string_array_of};
use crate::text::{trim, trim_str};
use crate::model::{DailySummary, GitChange, JsonValue, TechnicalAnalysis};
use crate::order::views;

verus! {

/// The first item, or `default` when there is none.
pub open spec fn first_or(items: Seq<Seq<char>>, default: Seq<char>) -> Seq<char> {
    if items.len() > 0 {
        items[0]
    } else {
        default
    }
}

fn first_or_exec(items: &Vec<String>, default: &str) -> (r: String)
    ensures
        r@ == first_or(views(items@), default@),
{
    if items.len() > 0 {
        items[0].clone()
    } else {
        String::from_str(default)
    }
}

/// The smaller of two integers.
pub open spec fn min_int(a: int, b: int) -> int {
    if a < b {
        a
    } else {
        b
    }
}

/// Integer division rounding toward zero, as Rust's `/` does.
pub open spec fn trunc_div(a: int, b: int) -> int
    recommends
        b > 0,
{
    if a >= 0 {
        a / b
    } else {
        -((-a) / b)
    }
}

/// The score before it is clamped to `1..=10`.
pub open spec fn complexity_raw(s: DailySummary) -> int {
    1 + min_int((s.files_modified@.len() / 3) as int, 3) + min_int(s.git_commits as int, 2) + min_int(
        s.git_changes@.len() as int,
        2,
    ) + min_int(trunc_div(s.lines_added + s.lines_removed, 100), 4)
}

/// The day's complexity: one point to start, up to three for files touched
/// (one per three files), up to two for commits, up to two for Git signals
/// and up to four for changed lines (one per hundred), kept within `1..=10`.
pub open spec fn complexity_score(s: DailySummary) -> int {
    let raw = complexity_raw(s);
    if raw < 1 {
        1
    } else if raw > 10 {
        10
    } else {
        raw
    }
}

/// The running sums of the score stay within `i64`, as Rust's checked
/// arithmetic requires.
pub open spec fn complexity_fits(s: DailySummary) -> bool {
    let lines = s.lines_added + s.lines_removed;
    let partial = 1 + min_int((s.files_modified@.len() / 3) as int, 3) + min_int(s.git_commits as int, 2);
    &&& i64::MIN <= lines <= i64::MAX
    &&& partial >= i64::MIN
    &&& partial + min_int(s.git_changes@.len() as int, 2) + min_int(trunc_div(lines, 100), 4)
        >= i64::MIN
}

/// Whether the score of `s` can be computed without overflow.
pub fn complexity_fits_exec(s: &DailySummary) -> (b: bool)
    ensures
        b == complexity_fits(*s),
{
    let lines: i128 = s.lines_added as i128 + s.lines_removed as i128;
    let files = (s.files_modified.len() / 3) as i128;
    let commits = s.git_commits as i128;
    let changes = s.git_changes.len() as i128;
    let partial: i128 = 1 + (if files < 3 { files } else { 3 }) + (if commits < 2 { commits } else { 2 });
    let q: i128 = if lines >= 0 { lines / 100 } else { -((-lines) / 100) };
    let lines_ok = -9223372036854775808i128 <= lines && lines <= 9223372036854775807i128;
    lines_ok && partial >= -9223372036854775808i128 && partial + (if changes < 2 { changes } else { 2 }) + (if q < 4 { q } else { 4 }) >= -9223372036854775808i128
}

/// Estimates how technically dense the day was, on a scale of 1 to 10.
pub fn estimate_complexity(summary: &DailySummary) -> (r: i64)
    requires
        complexity_fits(*summary),
    ensures
        r == complexity_score(*summary),
        1 <= r <= 10,
{
    let lines: i128 = summary.lines_added as i128 + summary.lines_removed as i128;
    let files = (summary.files_modified.len() / 3) as i128;
    let commits = summary.git_commits as i128;
    let changes = summary.git_changes.len() as i128;
    let q: i128 = if lines >= 0 { lines / 100 } else { -((-lines) / 100) };
    let score: i128 = 1 + (if files < 3 { files } else { 3 }) + (if commits < 2 { commits } else { 2 })
        + (if changes < 2 { changes } else { 2 }) + (if q < 4 { q } else { 4 });
    if score < 1 {
        1
    } else if score > 10 {
        10
    } else {
        score as i64
    }
}

/// How a Git signal sums itself up: its diff summary, else its status
/// summary, else its commit subject.
pub open spec fn change_summary_text(c: GitChange) -> Seq<char> {
    match (opt_view(c.diff_summary), opt_view(c.status_summary), opt_view(c.subject)) {
        (Some(d), _, _) => d,
        (None, Some(st), _) => st,
        (None, None, Some(sub)) => sub,
        (None, None, None) => "sem resumo textual"@,
    }
}

/// The first four files of a Git signal, joined.
pub open spec fn change_files_text(c: GitChange) -> Seq<char> {
    let files = views(c.files_modified@);
    if files.len() == 0 {
        "sem arquivos listados"@
    } else {
        join(files.take(if files.len() < 4 { files.len() as int } else { 4 }), ", "@)
    }
}

/// The sentence about the most recent Git signal of the day.
pub open spec fn git_line(s: DailySummary) -> Seq<char> {
    if s.git_changes@.len() > 0 {
        let c = s.git_changes@[0];
        "Ultimo sinal Git: "@ + change_summary_text(c) + " em "@ + change_files_text(c) + " (+"@
            + decimal_int(c.lines_added as int) + " / -"@ + decimal_int(c.lines_removed as int)
            + ")."@
    } else {
        "Nenhum diff ou commit recente foi capturado ainda."@
    }
}

/// The one insight of the local analysis.
pub open spec fn local_insight(s: DailySummary) -> Seq<char> {
    "O dia em "@ + first_or(views(s.projects@), "projeto local"@) + " teve "@ + decimal_int(
        s.event_count as int,
    ) + " eventos, "@ + decimal_int(s.git_commits as int) + " commit(s) e foco inicial em "@
        + first_or(views(s.files_modified@), "nenhum arquivo especifico"@) + ". "@ + git_line(s)
}

fn git_line_exec(s: &DailySummary) -> (r: String)
    ensures
        r@ == git_line(*s),
{
    if s.git_changes.len() > 0 {
        let c = &s.git_changes[0];
        let files = if c.files_modified.len() == 0 {
            String::from_str("sem arquivos listados")
        } else {
            join_first(&c.files_modified, 4, ", ")
        };
        let summary = match (&c.diff_summary, &c.status_summary, &c.subject) {
            (Some(d), _, _) => d.clone(),
            (None, Some(st), _) => st.clone(),
            (None, None, Some(sub)) => sub.clone(),
            (None, None, None) => String::from_str("sem resumo textual"),
        };
        let mut r = String::from_str("Ultimo sinal Git: ");
        r.append(summary.as_str());
        r.append(" em ");
        r.append(files.as_str());
        r.append(" (+");
        r.append(fmt_i64(c.lines_added).as_str());
        r.append(" / -");
        r.append(fmt_i64(c.lines_removed).as_str());
        r.append(").");
        r
    } else {
        String::from_str("Nenhum diff ou commit recente foi capturado ainda.")
    }
}

/// The language names of the day, in order.
pub open spec fn language_names(langs: Seq<(String, i64)>) -> Seq<Seq<char>> {
    langs.map_values(|p: (String, i64)| p.0@)
}

pub(crate) fn language_names_exec(langs: &Vec<(String, i64)>) -> (r: Vec<String>)
    ensures
        views(r@) == language_names(langs@),
{
    let mut r: Vec<String> = Vec::new();
    let mut i: usize = 0;
    while i < langs.len()
        invariant
            i <= langs.len(),
            views(r@) == language_names(langs@).take(i as int),
        decreases langs.len() - i,
    {
        r.push(langs[i].0.clone());
        assert(language_names(langs@).take(i + 1) =~= language_names(langs@).take(i as int).push(
            langs@[i as int].0@,
        ));
        assert(views(r@) =~= language_names(langs@).take(i + 1));
        i = i + 1;
    }
    assert(language_names(langs@).take(langs.len() as int) =~= language_names(langs@));
    r
}

/// `a` is the local analysis of `s`, from `source`, with the error `error`
/// that made it necessary, if any.
pub open spec fn is_local_analysis(
    s: DailySummary,
    source: Seq<char>,
    error: Option<Seq<char>>,
    a: TechnicalAnalysis,
) -> bool {
    &&& a.source@ == source
    &&& a.status@ == (if error is Some {
        "fallback"@
    } else {
        "ok"@
    })
    &&& views(a.insights@) == seq![local_insight(s)]
    &&& views(a.tech_stack@) == language_names(s.languages@)
    &&& a.complexity == Some(complexity_score(s) as i64)
    &&& views(a.learnings@) == seq![
        "Resumo tecnico gerado localmente a partir dos sinais capturados."@,
    ]
    &&& a.raw is None
    &&& opt_view(a.error) == error
}

/// The analysis made from the day's own signals, without any outside tool.
pub fn local_analysis(summary: &DailySummary, source: &str, error: Option<String>) -> (r:
    TechnicalAnalysis)
    requires
        complexity_fits(*summary),
    ensures
        is_local_analysis(*summary, source@, opt_view(error), r),
{
    let project = first_or_exec(&summary.projects, "projeto local");
    let first_file = first_or_exec(&summary.files_modified, "nenhum arquivo especifico");
    let git = git_line_exec(summary);
    let mut insight = String::from_str("O dia em ");
    insight.append(project.as_str());
    insight.append(" teve ");
    insight.append(fmt_i64(summary.event_count).as_str());
    insight.append(" eventos, ");
    insight.append(fmt_i64(summary.git_commits).as_str());
    insight.append(" commit(s) e foco inicial em ");
    insight.append(first_file.as_str());
    insight.append(". ");
    insight.append(git.as_str());
    let status = if error.is_some() {
        String::from_str("fallback")
    } else {
        String::from_str("ok")
    };
    let mut insights: Vec<String> = Vec::new();
    insights.push(insight);
    let mut learnings: Vec<String> = Vec::new();
    learnings.push(String::from_str("Resumo tecnico gerado localmente a partir dos sinais capturados."));
    let r = TechnicalAnalysis {
        source: String::from_str(source),
        status,
        insights,
        tech_stack: language_names_exec(&summary.languages),
        complexity: Some(estimate_complexity(summary)),
        learnings,
        raw: None,
        error,
    };
    assert(views(r.insights@) =~= seq![local_insight(*summary)]);
    assert(views(r.learnings@) =~= seq![
        "Resumo tecnico gerado localmente a partir dos sinais capturados."@,
    ]);
    r
}

} // verus!

verus! {

/// The instruction given to the Copilot CLI, followed by the day's summary
/// as JSON.
pub open spec fn copilot_prompt(summary_json: Seq<char>) -> Seq<char> {
    "Voce e um tech lead analisando o dia de desenvolvimento para gerar contexto real de um post LinkedIn. Use os campos git_changes como evidencias principais de diff, status e commits quando existirem. Retorne SOMENTE JSON valido com os campos insights (array de strings), tech_stack (array de strings), complexity (0-10), learnings (array de strings). Resumo do dia: "@
        + summary_json
}

/// Builds the prompt for the Copilot CLI from the day's summary as JSON.
pub fn build_prompt(summary_json: &str) -> (r: String)
    ensures
        r@ == copilot_prompt(summary_json@),
{
    let mut r = String::from_str(
        "Voce e um tech lead analisando o dia de desenvolvimento para gerar contexto real de um post LinkedIn. Use os campos git_changes como evidencias principais de diff, status e commits quando existirem. Retorne SOMENTE JSON valido com os campos insights (array de strings), tech_stack (array de strings), complexity (0-10), learnings (array de strings). Resumo do dia: ",
    );
    r.append(summary_json);
    r
}

/// `a` is what the Copilot CLI's answer `raw`, parsed as `value`, says.
pub open spec fn is_copilot_analysis(raw: Seq<char>, value: JsonValue, a: TechnicalAnalysis) -> bool {
    &&& a.source@ == "copilot_cli"@
    &&& a.status@ == "ok"@
    &&& views(a.insights@) == string_array_of(json_index(value, "insights"@))
    &&& views(a.tech_stack@) == string_array_of(json_index(value, "tech_stack"@))
    &&& a.complexity == json_i64(json_index(value, "complexity"@))
    &&& views(a.learnings@) == string_array_of(json_index(value, "learnings"@))
    &&& opt_view(a.raw) == Some(raw)
    &&& a.error is None
}

/// Reads the fields of the Copilot CLI's JSON answer: texts of the
/// `insights`, `tech_stack` and `learnings` arrays, and `complexity` when it
/// is an integer.
pub fn parse_copilot_analysis(raw: String, value: &JsonValue) -> (r: TechnicalAnalysis)
    ensures
        is_copilot_analysis(raw@, *value, r),
{
    let complexity = match value.get("complexity") {
        Some(c) => c.as_i64(),
        None => None,
    };
    TechnicalAnalysis {
        source: String::from_str("copilot_cli"),
        status: String::from_str("ok"),
        insights: string_array(value, "insights"),
        tech_stack: string_array(value, "tech_stack"),
        complexity,
        learnings: string_array(value, "learnings"),
        raw: Some(raw),
        error: None,
    }
}

/// What came of asking the Copilot CLI about the day.
#[derive(Debug)]
pub enum CopilotOutcome {
    /// The CLI is not enabled.
    Unavailable,
    /// Running the CLI failed; the error's text.
    Failed(String),
    /// The CLI answered something that is not JSON; the parser's error text.
    Unparsable(String),
    /// The CLI answered `raw`, which parses as `value`.
    Parsed { raw: String, value: JsonValue },
}

/// What the Copilot CLI's answer `raw` amounts to: the JSON document its
/// trimmed text holds, or the parser's error text.
pub fn read_copilot_answer(raw: String) -> (r: CopilotOutcome)
    ensures
        match json_document(trim(raw@)) {
            Ok(v) => r == (CopilotOutcome::Parsed { raw, value: v }),
            Err(e) => r matches CopilotOutcome::Unparsable(m) && m@ == e,
        },
{
    let text = trim_str(raw.as_str());
    match parse_json_document(text.as_str()) {
        Ok(value) => CopilotOutcome::Parsed { raw, value },
        Err(error) => CopilotOutcome::Unparsable(error),
    }
}

/// The analysis of the day given what the Copilot CLI did with `prompt`: its
/// answer when it gave JSON, the local analysis otherwise, marked with the
/// reason and the error text. The day's counts need to fit the complexity
/// score only when the local analysis is made.
pub fn finish_analysis(summary: &DailySummary, prompt: String, outcome: CopilotOutcome) -> (r:
    TechnicalAnalysis)
    requires
        !(outcome is Parsed) ==> complexity_fits(*summary),
    ensures
        match outcome {
            CopilotOutcome::Unavailable => is_local_analysis(*summary, "local_fallback"@, None, r),
            CopilotOutcome::Failed(e) => is_local_analysis(
                *summary,
                "copilot_error_fallback"@,
                Some(e@),
                r,
            ),
            CopilotOutcome::Unparsable(error) => {
                &&& is_local_analysis(
                    *summary,
                    "copilot_parse_fallback"@,
                    Some(error@),
                    TechnicalAnalysis { raw: None, ..r },
                )
                &&& opt_view(r.raw) == Some(prompt@)
            },
            CopilotOutcome::Parsed { raw, value } => is_copilot_analysis(raw@, value, r),
        },
{
    match outcome {
        CopilotOutcome::Unavailable => local_analysis(summary, "local_fallback", None),
        CopilotOutcome::Failed(e) => local_analysis(summary, "copilot_error_fallback", Some(e)),
        CopilotOutcome::Unparsable(error) => {
            let mut a = local_analysis(summary, "copilot_parse_fallback", Some(error));
            a.raw = Some(prompt);
            a
        },
        CopilotOutcome::Parsed { raw, value } => parse_copilot_analysis(raw, &value),
    }
}

} // verus!
