use ldc_companion::similarity::{best_style_fraction, rank_by_score, text_similarity_fraction, tokens};

fn reference_tokens(text: &str) -> Vec<String> {
    text.split(|character: char| !character.is_alphanumeric())
        .map(|token| token.trim().to_ascii_lowercase())
        .filter(|token| token.len() > 3)
        .collect()
}

#[test]
fn tokens_are_long_alphanumeric_runs() {
    for t in ["Hoje eu prefiro explicar o trade-off tecnico", "ação, Ação!! açã", "", "abcd", "a-b-c", "ÉTÉ été 1234 12345"] {
        assert_eq!(tokens(t), reference_tokens(t), "{t:?}");
    }
}

#[test]
fn similarity_counts_shared_tokens() {
    let query = "trade-off tecnico com contexto real";
    let text = "Hoje eu prefiro explicar o trade-off tecnico sem vender solucao magica.";
    // query tokens: trade tecnico contexto real -> [trade, tecnico, contexto, real]
    // text tokens: hoje prefiro explicar trade tecnico vender solucao magica
    assert_eq!(text_similarity_fraction(query, text), Some((2, 8)));
    let score = (2.0f64 / 8.0 * 100.0).round() / 100.0;
    assert_eq!(score, 0.25);
    assert_eq!(text_similarity_fraction("a b c", text), None);
    assert_eq!(text_similarity_fraction(query, ""), None);
}

#[test]
fn style_score_takes_the_best_example() {
    let content = "rust tokio axum sqlite";
    let examples = vec![
        "nada".to_string(),
        "rust axum".to_string(),
        "rust tokio axum sqlite extra".to_string(),
    ];
    assert_eq!(best_style_fraction(content, &examples), Some((4, 5)));
    assert_eq!(best_style_fraction(content, &vec![]), None);
    assert_eq!(best_style_fraction("a b", &examples), None);
    assert_eq!(best_style_fraction(content, &vec!["a".to_string()]), None);
    assert_eq!(best_style_fraction(content, &vec!["outro texto".to_string()]), Some((0, 4)));
}

#[test]
fn ranking_is_a_stable_descending_top_k() {
    let scores = vec![10, 50, 50, 0, 30];
    assert_eq!(rank_by_score(&scores, 3), vec![1, 2, 4]);
    assert_eq!(rank_by_score(&scores, 100), vec![1, 2, 4, 0, 3]);
    assert_eq!(rank_by_score(&scores, 0), vec![1]);
    assert_eq!(rank_by_score(&scores, -5), vec![1]);
    assert_eq!(rank_by_score(&vec![], 5), Vec::<usize>::new());
    let many: Vec<u64> = (0..30).map(|i| (i % 3) as u64).collect();
    let r = rank_by_score(&many, 25);
    assert_eq!(r.len(), 20);
    let mut idx: Vec<usize> = (0..30).collect();
    idx.sort_by(|a, b| many[*b].cmp(&many[*a]));
    idx.truncate(20);
    assert_eq!(r, idx);
}
