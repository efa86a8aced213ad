//! Laws of the texts the library writes: what the local analysis, the
//! drafts and the joined lists say about the day, stated over the summary's
//! own fields.

use vstd::prelude::*;
use crate::analysis::{
    change_files_text, change_summary_text, complexity_score, first_or, git_line,
    is_local_analysis, language_names, local_insight,
};
use crate::fmt::{decimal_int, join};
use crate::draft::{daily_draft_text, draft_file_line, draft_language_list, draft_project};
use crate::llm::template_draft_text;
use crate::model::{DailySummary, TechnicalAnalysis};
use crate::order::views;
use crate::text::{contains_sub, occurs_at};
use crate::text_laws::{lemma_occurs_between, lemma_occurs_within};

verus! {

/// Joining a list keeps every item: each one occurs in the joined text.
pub proof fn law_join_keeps_every_item(items: Seq<Seq<char>>, sep: Seq<char>, j: int)
    requires
        0 <= j < items.len(),
    ensures
        contains_sub(join(items, sep), items[j]),
    decreases items.len(),
{
    if items.len() == 1 {
        lemma_occurs_between(seq![], items[0], seq![]);
        assert(Seq::<char>::empty() + items[0] + Seq::<char>::empty() =~= items[0]);
    } else {
        let rest = join(items.drop_last(), sep);
        if j == items.len() - 1 {
            lemma_occurs_between(rest + sep, items.last(), seq![]);
            assert(rest + sep + items.last() + Seq::<char>::empty() =~= join(items, sep));
        } else {
            law_join_keeps_every_item(items.drop_last(), sep, j);
            assert(items.drop_last()[j] == items[j]);
            lemma_occurs_within(seq![], rest, sep + items.last(), items[j]);
            assert(Seq::<char>::empty() + rest + (sep + items.last()) =~= join(items, sep));
        }
    }
}

/// The language names of a day are its languages' names, one for one and in
/// order.
pub proof fn law_language_names_are_the_languages(s: DailySummary)
    ensures
        language_names(s.languages@).len() == s.languages@.len(),
        forall|j: int|
            0 <= j < s.languages@.len() ==> #[trigger] language_names(s.languages@)[j]
                == s.languages@[j].0@,
{
}

/// The local analysis has one insight, which tells the day's event and
/// commit counts and names its latest Git signal: by its diff summary when
/// it has one, else by its status summary, else by its commit subject, with
/// its line counts; when there is no signal, it says so.
pub proof fn law_local_insight_tells_the_git_signal(
    s: DailySummary,
    source: Seq<char>,
    error: Option<Seq<char>>,
    a: TechnicalAnalysis,
)
    requires
        is_local_analysis(s, source, error, a),
    ensures
        a.insights@.len() == 1,
        s.projects@.len() > 0 ==> occurs_at(a.insights@[0]@, "O dia em "@ + s.projects@[0]@, 0),
        s.files_modified@.len() > 0 ==> contains_sub(
            a.insights@[0]@,
            " commit(s) e foco inicial em "@ + s.files_modified@[0]@ + ". "@,
        ),
        s.git_changes@.len() > 0 ==> forall|j: int|
            0 <= j < s.git_changes@[0].files_modified@.len() && j < 4 ==> #[trigger] contains_sub(
                a.insights@[0]@,
                s.git_changes@[0].files_modified@[j]@,
            ),
        contains_sub(
            a.insights@[0]@,
            " teve "@ + decimal_int(s.event_count as int) + " eventos, "@ + decimal_int(
                s.git_commits as int,
            ) + " commit(s)"@,
        ),
        s.git_changes@.len() == 0 ==> contains_sub(
            a.insights@[0]@,
            "Nenhum diff ou commit recente foi capturado ainda."@,
        ),
        s.git_changes@.len() > 0 && s.git_changes@[0].diff_summary is Some ==> contains_sub(
            a.insights@[0]@,
            "Ultimo sinal Git: "@ + s.git_changes@[0].diff_summary->0@ + " em "@,
        ),
        s.git_changes@.len() > 0 && s.git_changes@[0].diff_summary is None
            && s.git_changes@[0].status_summary is Some ==> contains_sub(
            a.insights@[0]@,
            "Ultimo sinal Git: "@ + s.git_changes@[0].status_summary->0@ + " em "@,
        ),
        s.git_changes@.len() > 0 && s.git_changes@[0].diff_summary is None
            && s.git_changes@[0].status_summary is None && s.git_changes@[0].subject is Some
            ==> contains_sub(
            a.insights@[0]@,
            "Ultimo sinal Git: "@ + s.git_changes@[0].subject->0@ + " em "@,
        ),
        s.git_changes@.len() > 0 ==> contains_sub(
            a.insights@[0]@,
            " (+"@ + decimal_int(s.git_changes@[0].lines_added as int) + " / -"@ + decimal_int(
                s.git_changes@[0].lines_removed as int,
            ) + ")."@,
        ),
{
    assert(views(a.insights@).len() == 1);
    assert(views(a.insights@)[0] == a.insights@[0]@);
    let l = local_insight(s);
    assert(a.insights@[0]@ == l);
    let proj = first_or(views(s.projects@), "projeto local"@);
    let ev = decimal_int(s.event_count as int);
    let cm = decimal_int(s.git_commits as int);
    let f = first_or(views(s.files_modified@), "nenhum arquivo especifico"@);
    let g = git_line(s);
    reveal_strlit(" commit(s) e foco inicial em ");
    reveal_strlit(" commit(s)");
    reveal_strlit(" e foco inicial em ");
    let counts = " teve "@ + ev + " eventos, "@ + cm + " commit(s)"@;
    let pre = "O dia em "@ + proj;
    let post = " e foco inicial em "@ + f + ". "@ + g;
    assert(l =~= pre + counts + post);
    lemma_occurs_between(pre, counts, post);
    lemma_occurs_between(seq![], pre, counts + post);
    assert(Seq::<char>::empty() + pre + (counts + post) =~= l);
    let focus = " commit(s) e foco inicial em "@ + f + ". "@;
    let before = "O dia em "@ + proj + " teve "@ + ev + " eventos, "@ + cm;
    assert(l =~= before + focus + git_line(s));
    lemma_occurs_between(before, focus, git_line(s));
    let head = "O dia em "@ + proj + " teve "@ + ev + " eventos, "@ + cm
        + " commit(s) e foco inicial em "@ + f + ". "@;
    assert(l =~= head + g);
    if s.git_changes@.len() == 0 {
        lemma_occurs_between(head, g, seq![]);
        assert(head + g + Seq::<char>::empty() =~= l);
    } else {
        let c = s.git_changes@[0];
        let cs = change_summary_text(c);
        let files = change_files_text(c);
        let lines = " (+"@ + decimal_int(c.lines_added as int) + " / -"@ + decimal_int(
            c.lines_removed as int,
        ) + ")."@;
        let named = "Ultimo sinal Git: "@ + cs + " em "@;
        assert(g =~= named + files + lines);
        lemma_occurs_between(head, named, files + lines);
        assert(head + named + (files + lines) =~= l);
        lemma_occurs_between(head + named + files, lines, seq![]);
        assert(head + named + files + lines + Seq::<char>::empty() =~= l);
        assert forall|j: int|
            0 <= j < c.files_modified@.len() && j < 4 implies #[trigger] contains_sub(
            l,
            c.files_modified@[j]@,
        ) by {
            let fv = views(c.files_modified@);
            let shown = fv.take(if fv.len() < 4 { fv.len() as int } else { 4 });
            assert(shown[j] == c.files_modified@[j]@);
            law_join_keeps_every_item(shown, ", "@, j);
            lemma_occurs_within(head + named, files, lines, c.files_modified@[j]@);
        }
    }
}

/// How many of the day's files a draft names: the first five.
pub open spec fn named_file_count(s: DailySummary) -> int {
    if s.files_modified@.len() < 5 {
        s.files_modified@.len() as int
    } else {
        5
    }
}

/// `t` is a draft that tells the day `s`: it opens on the day's first
/// project, names every language of the day and its first five files, and
/// gives its event count and its added and removed line counts in that
/// order; with no languages or no files it says so.
pub open spec fn draft_tells_the_day(t: Seq<char>, s: DailySummary) -> bool {
    &&& s.projects@.len() > 0 ==> occurs_at(t, "Hoje avancei em "@ + s.projects@[0]@, 0)
    &&& contains_sub(
        t,
        ".\n\nForam "@ + decimal_int(s.event_count as int) + " eventos registrados, "@
            + decimal_int(s.lines_added as int) + " linhas adicionadas e "@ + decimal_int(
            s.lines_removed as int,
        ) + " removidas. O recorte passou por: "@,
    )
    &&& forall|j: int|
        0 <= j < s.languages@.len() ==> #[trigger] contains_sub(t, s.languages@[j].0@)
    &&& s.languages@.len() == 0 ==> contains_sub(t, "a stack principal ainda nao ficou clara"@)
    &&& forall|j: int|
        0 <= j < named_file_count(s) ==> #[trigger] contains_sub(t, s.files_modified@[j]@)
    &&& s.files_modified@.len() == 0 ==> contains_sub(
        t,
        "sem arquivos relevantes registrados ainda"@,
    )
}

/// The lists a draft names: all the day's languages joined with commas, and
/// its first five files joined the same way.
pub proof fn law_draft_lists(s: DailySummary)
    ensures
        s.languages@.len() > 0 ==> draft_language_list(s) == join(
            language_names(s.languages@),
            ", "@,
        ),
        s.files_modified@.len() > 0 ==> draft_file_line(s) == join(
            views(s.files_modified@).take(named_file_count(s)),
            ", "@,
        ),
{
}

proof fn lemma_draft_tells_the_day(s: DailySummary, b: Seq<char>, g: Seq<char>)
    ensures
        draft_tells_the_day(
            "Hoje avancei em "@ + draft_project(s) + b + draft_language_list(s) + ".\n\nForam "@
                + decimal_int(s.event_count as int) + " eventos registrados, "@ + decimal_int(
                s.lines_added as int,
            ) + " linhas adicionadas e "@ + decimal_int(s.lines_removed as int)
                + " removidas. O recorte passou por: "@ + draft_file_line(s) + g,
            s,
        ),
{
    let lead = "Hoje avancei em "@ + draft_project(s);
    let list = draft_language_list(s);
    let counts = ".\n\nForam "@ + decimal_int(s.event_count as int) + " eventos registrados, "@
        + decimal_int(s.lines_added as int) + " linhas adicionadas e "@ + decimal_int(
        s.lines_removed as int,
    ) + " removidas. O recorte passou por: "@;
    let fl = draft_file_line(s);
    let t = lead + b + list + counts + fl + g;
    assert(t =~= "Hoje avancei em "@ + draft_project(s) + b + draft_language_list(s) + ".\n\nForam "@
        + decimal_int(s.event_count as int) + " eventos registrados, "@ + decimal_int(
        s.lines_added as int,
    ) + " linhas adicionadas e "@ + decimal_int(s.lines_removed as int)
        + " removidas. O recorte passou por: "@ + draft_file_line(s) + g);
    lemma_occurs_between(seq![], lead, b + list + counts + fl + g);
    assert(Seq::<char>::empty() + lead + (b + list + counts + fl + g) =~= t);
    lemma_occurs_between(lead + b + list, counts, fl + g);
    assert(lead + b + list + counts + (fl + g) =~= t);
    lemma_occurs_between(lead + b, list, counts + fl + g);
    assert(lead + b + list + (counts + fl + g) =~= t);
    lemma_occurs_between(lead + b + list + counts, fl, g);
    assert forall|j: int| 0 <= j < s.languages@.len() implies #[trigger] contains_sub(
        t,
        s.languages@[j].0@,
    ) by {
        law_join_keeps_every_item(language_names(s.languages@), ", "@, j);
        lemma_occurs_within(lead + b, list, counts + fl + g, s.languages@[j].0@);
    }
    assert forall|j: int| 0 <= j < named_file_count(s) implies #[trigger] contains_sub(
        t,
        s.files_modified@[j]@,
    ) by {
        let shown = views(s.files_modified@).take(named_file_count(s));
        assert(shown[j] == s.files_modified@[j]@);
        law_join_keeps_every_item(shown, ", "@, j);
        lemma_occurs_within(lead + b + list + counts, fl, g, s.files_modified@[j]@);
    }
}

/// The daily draft tells the day: its first project, every language, its
/// first five files, and its event and line counts in their places.
pub proof fn law_daily_draft_tells_the_day(s: DailySummary, has_examples: bool)
    ensures
        draft_tells_the_day(daily_draft_text(s, has_examples), s),
{
    let b = " e o sinal mais interessante foi o conjunto de pequenas decisoes tecnicas ao redor de "@;
    let voice = if has_examples {
        "Usei os exemplos de voz aprovados como referencia de tom, mantendo o conteudo tecnico preso ao contexto do dia."@
    } else {
        "Ainda sem exemplos de voz aprovados, entao este rascunho esta mais neutro."@
    };
    let g = ".\n\nO aprendizado do dia: transformar trabalho real em conteudo fica mais facil quando o sistema registra contexto suficiente para lembrar o que mudou, mas ainda deixa a decisao final na mao de quem escreveu o codigo.\n\n"@
        + voice + "\n\nRascunho pendente de revisao manual antes de qualquer publicacao."@;
    lemma_draft_tells_the_day(s, b, g);
    assert(daily_draft_text(s, has_examples) =~= "Hoje avancei em "@ + draft_project(s) + b
        + draft_language_list(s) + ".\n\nForam "@ + decimal_int(s.event_count as int)
        + " eventos registrados, "@ + decimal_int(s.lines_added as int)
        + " linhas adicionadas e "@ + decimal_int(s.lines_removed as int)
        + " removidas. O recorte passou por: "@ + draft_file_line(s) + g);
}

/// The template provider's draft tells the day in the same way, whatever
/// technical analysis and voice examples it is given.
pub proof fn law_template_draft_tells_the_day(
    s: DailySummary,
    has_examples: bool,
    a: Option<TechnicalAnalysis>,
)
    ensures
        draft_tells_the_day(template_draft_text(s, has_examples, a), s),
{
    let b = " e o sinal mais interessante foi o conjunto de decisoes tecnicas ao redor de "@;
    let voice = if has_examples {
        "Usei exemplos de voz aprovados como referencia de tom, mantendo o conteudo tecnico preso ao contexto do dia."@
    } else {
        "Ainda sem exemplos de voz aprovados, entao este rascunho esta mais neutro."@
    };
    let g = "."@ + crate::llm::analysis_line(a)
        + "\n\nO aprendizado do dia: transformar trabalho real em conteudo fica mais facil quando o sistema registra contexto suficiente para lembrar o que mudou, mas ainda deixa a decisao final na mao de quem escreveu o codigo.\n\n"@
        + voice + "\n\nRascunho pendente de revisao manual antes de qualquer publicacao."@;
    lemma_draft_tells_the_day(s, b, g);
    assert(template_draft_text(s, has_examples, a) =~= "Hoje avancei em "@ + draft_project(s) + b
        + draft_language_list(s) + ".\n\nForam "@ + decimal_int(s.event_count as int)
        + " eventos registrados, "@ + decimal_int(s.lines_added as int)
        + " linhas adicionadas e "@ + decimal_int(s.lines_removed as int)
        + " removidas. O recorte passou por: "@ + draft_file_line(s) + g);
}

/// The complexity score grows with the day: a day with no fewer files,
/// commits, Git signals and changed lines than another scores no lower.
pub proof fn law_complexity_grows_with_the_day(a: DailySummary, b: DailySummary)
    requires
        a.files_modified@.len() <= b.files_modified@.len(),
        a.git_commits <= b.git_commits,
        a.git_changes@.len() <= b.git_changes@.len(),
        a.lines_added + a.lines_removed <= b.lines_added + b.lines_removed,
    ensures
        complexity_score(a) <= complexity_score(b),
{
    let la = a.lines_added + a.lines_removed;
    let lb = b.lines_added + b.lines_removed;
    assert(a.files_modified@.len() / 3 <= b.files_modified@.len() / 3) by (nonlinear_arith)
        requires
            a.files_modified@.len() <= b.files_modified@.len(),
    ;
    if la >= 0 {
        assert(la / 100 <= lb / 100) by (nonlinear_arith)
            requires
                0 <= la <= lb,
        ;
    } else if lb >= 0 {
        assert(lb / 100 >= 0) by (nonlinear_arith)
            requires
                lb >= 0,
        ;
        assert((-la) / 100 >= 0) by (nonlinear_arith)
            requires
                la < 0,
        ;
    } else {
        assert((-lb) / 100 <= (-la) / 100) by (nonlinear_arith)
            requires
                0 < -lb <= -la,
        ;
    }
}

/// A quiet day scores one: no files, commits or Git signals, and fewer than
/// a hundred changed lines.
pub proof fn law_quiet_day_scores_one(s: DailySummary)
    requires
        s.files_modified@.len() == 0,
        s.git_commits <= 0,
        s.git_changes@.len() == 0,
        -100 < s.lines_added + s.lines_removed < 100,
    ensures
        complexity_score(s) == 1,
{
    let l = s.lines_added + s.lines_removed;
    if l >= 0 {
        assert(l / 100 == 0) by (nonlinear_arith)
            requires
                0 <= l < 100,
        ;
    } else {
        assert((-l) / 100 == 0) by (nonlinear_arith)
            requires
                0 < -l < 100,
        ;
    }
}

/// A busy day reaches the top of the scale: with nine files, two commits,
/// two Git signals and four hundred changed lines it scores ten.
pub proof fn law_busy_day_scores_ten(s: DailySummary)
    requires
        s.files_modified@.len() >= 9,
        s.git_commits >= 2,
        s.git_changes@.len() >= 2,
        s.lines_added + s.lines_removed >= 400,
    ensures
        complexity_score(s) == 10,
{
    let l = s.lines_added + s.lines_removed;
    assert(l / 100 >= 4) by (nonlinear_arith)
        requires
            l >= 400,
    ;
    assert(s.files_modified@.len() / 3 >= 3) by (nonlinear_arith)
        requires
            s.files_modified@.len() >= 9,
    ;
}

} // verus!
