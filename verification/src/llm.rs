//! The draft providers: the local template and the OpenAI Responses API
//! request and reply.

use vstd::prelude::*;
use crate::draft::{
    draft_file_line, draft_file_line_exec, draft_language_list, draft_language_list_exec,
    draft_project, draft_project_exec, has_keys, is_json_count, is_json_text, json_count,
    json_text, member,
};
use crate::fmt::{decimal_int, fmt_i64, join, join_first};
use crate::ingest::opt_view;
use crate::json::{json_at, json_index, json_str};
use crate::model::{DailySummary, JsonValue, TechnicalAnalysis};
use crate::order::views;

verus! {

/// What a provider writes a draft from.
#[derive(Debug, Clone)]
pub struct DraftInput {
    pub summary: DailySummary,
    pub voice_examples: Vec<String>,
    pub technical_analysis: Option<TechnicalAnalysis>,
}

/// Writes drafts from a fixed template, without any outside service.
#[derive(Debug, Clone)]
pub struct TemplateProvider;

/// The paragraph about the technical analysis: its first insight, when there
/// is one.
pub open spec fn analysis_line(a: Option<TechnicalAnalysis>) -> Seq<char> {
    match a {
        Some(t) => if t.insights@.len() > 0 {
            "\n\nAnalise tecnica do dia: "@ + t.insights@[0]@
        } else {
            seq![]
        },
        None => seq![],
    }
}

/// The post the template provider writes.
pub open spec fn template_draft_text(
    s: DailySummary,
    has_examples: bool,
    a: Option<TechnicalAnalysis>,
) -> Seq<char> {
    "Hoje avancei em "@ + draft_project(s)
        + " e o sinal mais interessante foi o conjunto de decisoes tecnicas ao redor de "@
        + draft_language_list(s) + ".\n\nForam "@ + decimal_int(s.event_count as int)
        + " eventos registrados, "@ + decimal_int(s.lines_added as int) + " linhas adicionadas e "@
        + decimal_int(s.lines_removed as int) + " removidas. O recorte passou por: "@
        + draft_file_line(s) + "."@ + analysis_line(a)
        + "\n\nO aprendizado do dia: transformar trabalho real em conteudo fica mais facil quando o sistema registra contexto suficiente para lembrar o que mudou, mas ainda deixa a decisao final na mao de quem escreveu o codigo.\n\n"@
        + (if has_examples {
        "Usei exemplos de voz aprovados como referencia de tom, mantendo o conteudo tecnico preso ao contexto do dia."@
    } else {
        "Ainda sem exemplos de voz aprovados, entao este rascunho esta mais neutro."@
    }) + "\n\nRascunho pendente de revisao manual antes de qualquer publicacao."@
}

impl TemplateProvider {
    /// The draft text: the day's project, languages, counts and first files,
    /// the first insight of the technical analysis, and whether voice
    /// examples were available.
    pub fn draft_content(&self, input: &DraftInput) -> (r: String)
        ensures
            r@ == template_draft_text(
                input.summary,
                input.voice_examples.len() > 0,
                input.technical_analysis,
            ),
    {
        let summary = &input.summary;
        let mut r = String::from_str("Hoje avancei em ");
        r.append(draft_project_exec(summary).as_str());
        r.append(" e o sinal mais interessante foi o conjunto de decisoes tecnicas ao redor de ");
        r.append(draft_language_list_exec(summary).as_str());
        r.append(".\n\nForam ");
        r.append(fmt_i64(summary.event_count).as_str());
        r.append(" eventos registrados, ");
        r.append(fmt_i64(summary.lines_added).as_str());
        r.append(" linhas adicionadas e ");
        r.append(fmt_i64(summary.lines_removed).as_str());
        r.append(" removidas. O recorte passou por: ");
        r.append(draft_file_line_exec(summary).as_str());
        r.append(".");
        match &input.technical_analysis {
            Some(t) => if t.insights.len() > 0 {
                r.append("\n\nAnalise tecnica do dia: ");
                r.append(t.insights[0].as_str());
            },
            None => {},
        }
        r.append(
            "\n\nO aprendizado do dia: transformar trabalho real em conteudo fica mais facil quando o sistema registra contexto suficiente para lembrar o que mudou, mas ainda deixa a decisao final na mao de quem escreveu o codigo.\n\n",
        );
        if input.voice_examples.len() > 0 {
            r.append(
                "Usei exemplos de voz aprovados como referencia de tom, mantendo o conteudo tecnico preso ao contexto do dia.",
            );
        } else {
            r.append("Ainda sem exemplos de voz aprovados, entao este rascunho esta mais neutro.");
        }
        r.append("\n\nRascunho pendente de revisao manual antes de qualquer publicacao.");
        r
    }

    /// The model name recorded with template drafts.
    pub fn model_name(&self) -> (r: String)
        ensures
            r@ == "local-template-v2"@,
    {
        String::from_str("local-template-v2")
    }

    /// The audit kept with a template draft: the provider, the summary and
    /// the analysis used (given as JSON), how many voice examples were used,
    /// that human approval is required, and that publication is off.
    pub fn audit(&self, summary_json: JsonValue, analysis_json: JsonValue, voice_examples_used: usize) -> (r: JsonValue)
        ensures
            has_keys(
                r,
                seq![
                    "provider"@,
                    "summary"@,
                    "technical_analysis"@,
                    "voice_examples_used"@,
                    "human_approval_required"@,
                    "publication"@,
                ],
            ),
            is_json_text(member(r, 0), "template"@),
            member(r, 1) == summary_json,
            member(r, 2) == analysis_json,
            is_json_count(member(r, 3), voice_examples_used as int),
            member(r, 4) == JsonValue::Bool(true),
            is_json_text(member(r, 5), "disabled"@),
    {
        JsonValue::Object(
            vec![
                (String::from_str("provider"), json_text("template")),
                (String::from_str("summary"), summary_json),
                (String::from_str("technical_analysis"), analysis_json),
                (String::from_str("voice_examples_used"), json_count(voice_examples_used)),
                (String::from_str("human_approval_required"), JsonValue::Bool(true)),
                (String::from_str("publication"), json_text("disabled")),
            ],
        )
    }
}

/// Writes drafts through the OpenAI Responses API.
#[derive(Debug, Clone)]
pub struct OpenAiProvider {
    api_key: String,
    model: String,
    reasoning_effort: String,
}

/// The settings of an OpenAI provider.
pub struct OpenAiProviderView {
    pub api_key: Seq<char>,
    pub model: Seq<char>,
    pub reasoning_effort: Seq<char>,
}

impl View for OpenAiProvider {
    type V = OpenAiProviderView;

    closed spec fn view(&self) -> OpenAiProviderView {
        OpenAiProviderView {
            api_key: self.api_key@,
            model: self.model@,
            reasoning_effort: self.reasoning_effort@,
        }
    }
}

/// The input sent to the model: the request and the day's summary as JSON.
pub open spec fn openai_prompt(summary_json: Seq<char>) -> Seq<char> {
    "Gere um rascunho de LinkedIn em portugues com base neste resumo real do dia: "@
        + summary_json
}

/// The instructions sent to the model: the rules, the optional technical
/// analysis as JSON, and the voice examples separated by `---` lines.
pub open spec fn openai_instructions(analysis_json: Seq<char>, examples: Seq<Seq<char>>) -> Seq<
    char,
> {
    "Use somente o contexto fornecido. Aprovacao humana e obrigatoria. Analise tecnica opcional: "@
        + analysis_json + "\n\nExemplos de voz aprovados: "@ + join(examples, "\n---\n"@)
}

/// Where the Responses API puts the text of its answer:
/// `output[0].content[0].text`.
pub open spec fn responses_output_text(payload: JsonValue) -> Option<Seq<char>> {
    json_str(json_index(json_at(json_index(json_at(json_index(payload, "output"@), 0), "content"@), 0), "text"@))
}

impl OpenAiProvider {
    /// A provider using `model` with the given reasoning effort.
    pub fn new(api_key: String, model: String, reasoning_effort: String) -> (r: Self)
        ensures
            r@ == (OpenAiProviderView {
                api_key: api_key@,
                model: model@,
                reasoning_effort: reasoning_effort@,
            }),
    {
        OpenAiProvider { api_key, model, reasoning_effort }
    }

    /// The API key sent as bearer token.
    pub fn api_key(&self) -> (r: &str)
        ensures
            r@ == self@.api_key,
    {
        self.api_key.as_str()
    }

    /// The model drafts are asked of.
    pub fn model(&self) -> (r: &str)
        ensures
            r@ == self@.model,
    {
        self.model.as_str()
    }

    /// The input of the request, from the day's summary as JSON.
    pub fn request_prompt(&self, summary_json: &str) -> (r: String)
        ensures
            r@ == openai_prompt(summary_json@),
    {
        let mut r = String::from_str(
            "Gere um rascunho de LinkedIn em portugues com base neste resumo real do dia: ",
        );
        r.append(summary_json);
        r
    }

    /// The instructions of the request, from the technical analysis as JSON
    /// and the voice examples.
    pub fn request_instructions(&self, analysis_json: &str, voice_examples: &Vec<String>) -> (r:
        String)
        ensures
            r@ == openai_instructions(analysis_json@, views(voice_examples@)),
    {
        let mut r = String::from_str(
            "Use somente o contexto fornecido. Aprovacao humana e obrigatoria. Analise tecnica opcional: ",
        );
        r.append(analysis_json);
        r.append("\n\nExemplos de voz aprovados: ");
        let examples = join_first(voice_examples, voice_examples.len(), "\n---\n");
        assert(views(voice_examples@).take(voice_examples.len() as int) =~= views(voice_examples@));
        r.append(examples.as_str());
        r
    }

    /// The body of the Responses API request: model, reasoning effort,
    /// instructions, input and a limit of 800 output tokens.
    pub fn request_body(&self, instructions: String, prompt: String) -> (r: JsonValue)
        ensures
            has_keys(
                r,
                seq!["model"@, "reasoning"@, "instructions"@, "input"@, "max_output_tokens"@],
            ),
            is_json_text(member(r, 0), self@.model),
            has_keys(member(r, 1), seq!["effort"@]),
            is_json_text(member(member(r, 1), 0), self@.reasoning_effort),
            is_json_text(member(r, 2), instructions@),
            is_json_text(member(r, 3), prompt@),
            is_json_count(member(r, 4), 800),
    {
        let reasoning = JsonValue::Object(
            vec![(String::from_str("effort"), JsonValue::Str(self.reasoning_effort.clone()))],
        );
        JsonValue::Object(
            vec![
                (String::from_str("model"), JsonValue::Str(self.model.clone())),
                (String::from_str("reasoning"), reasoning),
                (String::from_str("instructions"), JsonValue::Str(instructions)),
                (String::from_str("input"), JsonValue::Str(prompt)),
                (String::from_str("max_output_tokens"), json_count(800)),
            ],
        )
    }

    /// The text of the answer, `output[0].content[0].text`, if the reply has
    /// that shape.
    pub fn output_text(&self, payload: &JsonValue) -> (r: Option<String>)
        ensures
            opt_view(r) == responses_output_text(*payload),
    {
        let output = match payload.get("output") {
            Some(v) => v,
            None => return None,
        };
        let first = match output.at(0) {
            Some(v) => v,
            None => return None,
        };
        let content = match first.get("content") {
            Some(v) => v,
            None => return None,
        };
        let part = match content.at(0) {
            Some(v) => v,
            None => return None,
        };
        let text = match part.get("text") {
            Some(v) => v,
            None => return None,
        };
        match text.as_str() {
            Some(s) => Some(String::from_str(s)),
            None => None,
        }
    }

    /// The audit kept with an OpenAI draft: the provider, model and reasoning
    /// effort, the summary and analysis used (given as JSON), how many voice
    /// examples were used, that human approval is required, and that
    /// publication is off.
    pub fn audit(&self, summary_json: JsonValue, analysis_json: JsonValue, voice_examples_used: usize) -> (r: JsonValue)
        ensures
            has_keys(
                r,
                seq![
                    "provider"@,
                    "model"@,
                    "reasoning_effort"@,
                    "summary"@,
                    "technical_analysis"@,
                    "voice_examples_used"@,
                    "human_approval_required"@,
                    "publication"@,
                ],
            ),
            is_json_text(member(r, 0), "openai_responses"@),
            is_json_text(member(r, 1), self@.model),
            is_json_text(member(r, 2), self@.reasoning_effort),
            member(r, 3) == summary_json,
            member(r, 4) == analysis_json,
            is_json_count(member(r, 5), voice_examples_used as int),
            member(r, 6) == JsonValue::Bool(true),
            is_json_text(member(r, 7), "disabled"@),
    {
        JsonValue::Object(
            vec![
                (String::from_str("provider"), json_text("openai_responses")),
                (String::from_str("model"), JsonValue::Str(self.model.clone())),
                (String::from_str("reasoning_effort"), JsonValue::Str(self.reasoning_effort.clone())),
                (String::from_str("summary"), summary_json),
                (String::from_str("technical_analysis"), analysis_json),
                (String::from_str("voice_examples_used"), json_count(voice_examples_used)),
                (String::from_str("human_approval_required"), JsonValue::Bool(true)),
                (String::from_str("publication"), json_text("disabled")),
            ],
        )
    }
}

} // verus!
