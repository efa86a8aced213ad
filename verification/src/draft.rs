//! The daily post draft written from the day's summary by the local
//! template, and the audit record kept with it.

use vstd::prelude::*;
use crate::analysis::{first_or, language_names};
use crate::fmt::{decimal_int, fmt_i64, fmt_usize, join, join_first};
use crate::model::{DailySummary, JsonValue};
use crate::order::views;

verus! {

/// The project the draft talks about: the day's first, or a generic one.
pub open spec fn draft_project(s: DailySummary) -> Seq<char> {
    first_or(views(s.projects@), "um projeto local"@)
}

/// The day's languages, joined, or a note that the stack is not clear yet.
pub open spec fn draft_language_list(s: DailySummary) -> Seq<char> {
    if s.languages@.len() == 0 {
        "a stack principal ainda nao ficou clara"@
    } else {
        join(language_names(s.languages@), ", "@)
    }
}

/// The day's first five files, joined, or a note that there are none.
pub open spec fn draft_file_line(s: DailySummary) -> Seq<char> {
    let files = views(s.files_modified@);
    if files.len() == 0 {
        "sem arquivos relevantes registrados ainda"@
    } else {
        join(files.take(if files.len() < 5 { files.len() as int } else { 5 }), ", "@)
    }
}

/// The post the daily draft endpoint writes for `s`; `has_examples` tells
/// whether voice examples were used.
pub open spec fn daily_draft_text(s: DailySummary, has_examples: bool) -> Seq<char> {
    "Hoje avancei em "@ + draft_project(s)
        + " e o sinal mais interessante foi o conjunto de pequenas decisoes tecnicas ao redor de "@
        + draft_language_list(s) + ".\n\nForam "@ + decimal_int(s.event_count as int)
        + " eventos registrados, "@ + decimal_int(s.lines_added as int) + " linhas adicionadas e "@
        + decimal_int(s.lines_removed as int) + " removidas. O recorte passou por: "@
        + draft_file_line(s)
        + ".\n\nO aprendizado do dia: transformar trabalho real em conteudo fica mais facil quando o sistema registra contexto suficiente para lembrar o que mudou, mas ainda deixa a decisao final na mao de quem escreveu o codigo.\n\n"@
        + (if has_examples {
        "Usei os exemplos de voz aprovados como referencia de tom, mantendo o conteudo tecnico preso ao contexto do dia."@
    } else {
        "Ainda sem exemplos de voz aprovados, entao este rascunho esta mais neutro."@
    }) + "\n\nRascunho pendente de revisao manual antes de qualquer publicacao."@
}

pub(crate) fn draft_project_exec(s: &DailySummary) -> (r: String)
    ensures
        r@ == draft_project(*s),
{
    if s.projects.len() > 0 {
        s.projects[0].clone()
    } else {
        String::from_str("um projeto local")
    }
}

pub(crate) fn draft_language_list_exec(s: &DailySummary) -> (r: String)
    ensures
        r@ == draft_language_list(*s),
{
    if s.languages.len() == 0 {
        String::from_str("a stack principal ainda nao ficou clara")
    } else {
        let names = crate::analysis::language_names_exec(&s.languages);
        let r = join_first(&names, names.len(), ", ");
        assert(views(names@).take(names.len() as int) =~= views(names@));
        r
    }
}

pub(crate) fn draft_file_line_exec(s: &DailySummary) -> (r: String)
    ensures
        r@ == draft_file_line(*s),
{
    if s.files_modified.len() == 0 {
        String::from_str("sem arquivos relevantes registrados ainda")
    } else {
        join_first(&s.files_modified, 5, ", ")
    }
}

/// The text of the daily draft: the day's project, languages, counts and
/// first files, and whether voice examples were available, in a fixed
/// template that asks for manual review.
pub fn build_daily_draft_text(summary: &DailySummary, voice_examples: &Vec<String>) -> (r: String)
    ensures
        r@ == daily_draft_text(*summary, voice_examples.len() > 0),
{
    let mut r = String::from_str("Hoje avancei em ");
    r.append(draft_project_exec(summary).as_str());
    r.append(
        " e o sinal mais interessante foi o conjunto de pequenas decisoes tecnicas ao redor de ",
    );
    r.append(draft_language_list_exec(summary).as_str());
    r.append(".\n\nForam ");
    r.append(fmt_i64(summary.event_count).as_str());
    r.append(" eventos registrados, ");
    r.append(fmt_i64(summary.lines_added).as_str());
    r.append(" linhas adicionadas e ");
    r.append(fmt_i64(summary.lines_removed).as_str());
    r.append(" removidas. O recorte passou por: ");
    r.append(draft_file_line_exec(summary).as_str());
    r.append(
        ".\n\nO aprendizado do dia: transformar trabalho real em conteudo fica mais facil quando o sistema registra contexto suficiente para lembrar o que mudou, mas ainda deixa a decisao final na mao de quem escreveu o codigo.\n\n",
    );
    if voice_examples.len() > 0 {
        r.append(
            "Usei os exemplos de voz aprovados como referencia de tom, mantendo o conteudo tecnico preso ao contexto do dia.",
        );
    } else {
        r.append("Ainda sem exemplos de voz aprovados, entao este rascunho esta mais neutro.");
    }
    r.append("\n\nRascunho pendente de revisao manual antes de qualquer publicacao.");
    r
}

/// `v` is the JSON text `s`.
pub open spec fn is_json_text(v: JsonValue, s: Seq<char>) -> bool {
    v matches JsonValue::Str(t) && t@ == s
}

/// `v` is the JSON number `n`.
pub open spec fn is_json_count(v: JsonValue, n: int) -> bool {
    v matches JsonValue::Number(t) && t@ == decimal_int(n)
}

/// The object `v` has exactly the keys `keys`, in this order.
pub open spec fn has_keys(v: JsonValue, keys: Seq<Seq<char>>) -> bool {
    v matches JsonValue::Object(entries) && entries@.len() == keys.len() && forall|i: int|
        0 <= i < keys.len() ==> (#[trigger] entries@[i]).0@ == keys[i]
}

/// The value under the `i`-th key of an object.
pub open spec fn member(v: JsonValue, i: int) -> JsonValue {
    match v {
        JsonValue::Object(entries) => entries@[i].1,
        _ => JsonValue::Null,
    }
}

/// A JSON text.
pub fn json_text(s: &str) -> (r: JsonValue)
    ensures
        is_json_text(r, s@),
{
    JsonValue::Str(String::from_str(s))
}

/// A JSON number counting `n`.
pub fn json_count(n: usize) -> (r: JsonValue)
    ensures
        is_json_count(r, n as int),
{
    JsonValue::Number(fmt_usize(n))
}

/// The audit kept with a daily draft: its source, the summary used (given as
/// JSON), how many voice examples were used, that human approval is
/// required, and that publication is off.
pub fn daily_draft_audit(summary_json: JsonValue, voice_examples_used: usize) -> (r: JsonValue)
    ensures
        has_keys(
            r,
            seq![
                "source"@,
                "summary"@,
                "voice_examples_used"@,
                "human_approval_required"@,
                "publication"@,
            ],
        ),
        is_json_text(member(r, 0), "daily_summary"@),
        member(r, 1) == summary_json,
        is_json_count(member(r, 2), voice_examples_used as int),
        member(r, 3) == JsonValue::Bool(true),
        is_json_text(member(r, 4), "disabled_in_phase_1"@),
{
    let r = JsonValue::Object(
        vec![
            (String::from_str("source"), json_text("daily_summary")),
            (String::from_str("summary"), summary_json),
            (String::from_str("voice_examples_used"), json_count(voice_examples_used)),
            (String::from_str("human_approval_required"), JsonValue::Bool(true)),
            (String::from_str("publication"), json_text("disabled_in_phase_1")),
        ],
    );
    r
}

} // verus!

verus! {

/// The daily draft and its audit record, for `summary` (also given as JSON
/// for the audit) and the voice examples available.
pub fn build_daily_draft(
    summary: &DailySummary,
    voice_examples: &Vec<String>,
    summary_json: JsonValue,
) -> (r: (String, JsonValue))
    ensures
        r.0@ == daily_draft_text(*summary, voice_examples.len() > 0),
        has_keys(
            r.1,
            seq![
                "source"@,
                "summary"@,
                "voice_examples_used"@,
                "human_approval_required"@,
                "publication"@,
            ],
        ),
        is_json_text(member(r.1, 0), "daily_summary"@),
        member(r.1, 1) == summary_json,
        is_json_count(member(r.1, 2), voice_examples.len() as int),
        member(r.1, 3) == JsonValue::Bool(true),
        is_json_text(member(r.1, 4), "disabled_in_phase_1"@),
{
    let content = build_daily_draft_text(summary, voice_examples);
    let audit = daily_draft_audit(summary_json, voice_examples.len());
    (content, audit)
}

} // verus!
