use agent_memory::embedding::first_embedding;
use agent_memory::error::MemoryError;
use agent_memory::search::{
    curate_results, merge_results, MemorySearchResult, SearchConfig, SCORE_SCALE,
};
use agent_memory::table::{check_dimension, collect_matches, delete_predicate, EMBEDDING_DIM, TABLE_NAME};

fn rows(items: &[(&str, u64)]) -> Vec<(String, u64)> {
    items.iter().map(|(i, v)| (i.to_string(), *v)).collect()
}

fn cand(id: &str, score: u64, importance: Option<u64>) -> MemorySearchResult {
    MemorySearchResult { id: id.to_string(), score, importance }
}

fn ids(r: &[MemorySearchResult]) -> Vec<String> {
    r.iter().map(|c| c.id.clone()).collect()
}

#[test]
fn dimension_accepted_at_configured_length() {
    let e = vec![0.0f32; 384];
    assert_eq!(EMBEDDING_DIM, 384);
    assert_eq!(check_dimension(&e), Ok(()));
}

#[test]
fn dimension_mismatch_reports_both_lengths() {
    let short = vec![0.5f32; 383];
    assert_eq!(
        check_dimension(&short),
        Err(MemoryError::DimensionMismatch { expected: 384, actual: 383 })
    );
    let long = vec![0.5f32; 385];
    assert_eq!(
        check_dimension(&long),
        Err(MemoryError::DimensionMismatch { expected: 384, actual: 385 })
    );
    let empty: Vec<f32> = Vec::new();
    assert_eq!(
        check_dimension(&empty),
        Err(MemoryError::DimensionMismatch { expected: 384, actual: 0 })
    );
}

#[test]
fn delete_predicate_selects_by_id() {
    assert_eq!(delete_predicate("mem-1"), "id = 'mem-1'");
    assert_eq!(delete_predicate(""), "id = ''");
    assert_eq!(TABLE_NAME, "memory_embeddings");
}

#[test]
fn collect_matches_skips_null_rows_and_keeps_order() {
    let ids = vec![Some("a".to_string()), None, Some("c".to_string()), Some("d".to_string())];
    let vals = vec![Some(1u64), Some(2), None, Some(4)];
    assert_eq!(collect_matches(&ids, &vals), rows(&[("a", 1), ("d", 4)]));
    assert_eq!(collect_matches(&Vec::new(), &Vec::new()), Vec::<(String, u64)>::new());
}

#[test]
fn collected_distances_stay_ascending() {
    let ids = vec![Some("a".to_string()), Some("b".to_string()), None, Some("c".to_string())];
    let vals = vec![Some(0u64), Some(10), Some(20), Some(30)];
    let r = collect_matches(&ids, &vals);
    assert!(r.windows(2).all(|w| w[0].1 <= w[1].1));
}

#[test]
fn first_embedding_takes_first_or_empty() {
    let batch = vec![vec![1.0f32, 2.0], vec![3.0f32]];
    assert_eq!(first_embedding(batch), vec![1.0f32, 2.0]);
    let none: Vec<Vec<f32>> = Vec::new();
    assert!(first_embedding(none).is_empty());
}

#[test]
fn search_config_defaults_and_recall_form() {
    let d = SearchConfig::default();
    assert_eq!(d.max_results_per_source, 50);
    assert_eq!((d.vector_weight, d.text_weight), (50, 50));
    let r = SearchConfig::for_recall(5);
    assert_eq!(r.max_results_per_source, 10);
    assert_eq!(SearchConfig::for_recall(usize::MAX).max_results_per_source, usize::MAX);
}

#[test]
fn merge_normalizes_and_weights_both_sources() {
    let vs = rows(&[("a", 0), ("b", 1_000_000), ("c", 2_000_000)]);
    let ts = rows(&[("b", 10), ("d", 5)]);
    let r = merge_results(&vs, &ts, &SearchConfig::default());
    let got: Vec<(String, u64)> = r.iter().map(|c| (c.id.clone(), c.score)).collect();
    assert_eq!(got, rows(&[("a", 1_000_000), ("b", 750_000), ("c", 0), ("d", 500_000)]));
    assert!(r.iter().all(|c| c.importance.is_none()));
}

#[test]
fn merge_single_vector_row_uses_distance_cap() {
    let vs = rows(&[("x", 500_000)]);
    let r = merge_results(&vs, &Vec::new(), &SearchConfig::default());
    assert_eq!(r.len(), 1);
    assert_eq!(r[0].score, 750_000);
}

#[test]
fn merge_zero_distance_is_full_relevance() {
    let vs = rows(&[("self", 0), ("other", 900_000)]);
    let r = merge_results(&vs, &Vec::new(), &SearchConfig::default());
    assert_eq!(r[0].id, "self");
    assert_eq!(r[0].score, SCORE_SCALE);
    assert_eq!(r[1].score, 0);
}

#[test]
fn merge_keeps_first_row_of_repeated_id_and_custom_weights() {
    let vs = rows(&[("a", 0), ("a", 400_000), ("b", 800_000)]);
    let ts = rows(&[("a", 4), ("a", 8)]);
    let cfg = SearchConfig { max_results_per_source: 10, vector_weight: 80, text_weight: 20 };
    let r = merge_results(&vs, &ts, &cfg);
    assert_eq!(ids(&r), vec!["a".to_string(), "b".to_string()]);
    // a: vector 1.0, text 4/8 = 0.5 -> 0.8 + 0.1
    assert_eq!(r[0].score, 900_000);
    // b: 1 - 0.8 / 0.8 = 0
    assert_eq!(r[1].score, 0);
}

#[test]
fn merge_of_empty_sources_is_empty() {
    let r = merge_results(&Vec::new(), &Vec::new(), &SearchConfig::default());
    assert!(r.is_empty());
}

#[test]
fn text_only_scores_scale_by_maximum() {
    let ts = rows(&[("p", 3), ("q", 12), ("r", 0)]);
    let r = merge_results(&Vec::new(), &ts, &SearchConfig::default());
    let got: Vec<(String, u64)> = r.iter().map(|c| (c.id.clone(), c.score)).collect();
    assert_eq!(got, rows(&[("p", 250_000), ("q", 1_000_000), ("r", 0)]));
}

#[test]
fn curate_truncates_and_ranks() {
    let cs = vec![
        cand("a", 10, None),
        cand("b", 50, None),
        cand("c", 30, None),
        cand("d", 40, None),
        cand("e", 20, None),
    ];
    let r = curate_results(&cs, 2);
    assert_eq!(ids(&r), vec!["b".to_string(), "d".to_string()]);
    let all = curate_results(&cs, 10);
    assert_eq!(all.len(), 5);
    assert!(all.windows(2).all(|w| w[0].score >= w[1].score));
}

#[test]
fn curate_empty_and_zero_cap() {
    assert!(curate_results(&Vec::new(), 5).is_empty());
    let cs = vec![cand("a", 1, None)];
    assert!(curate_results(&cs, 0).is_empty());
}

#[test]
fn curate_drops_repeated_ids() {
    let cs = vec![cand("a", 10, None), cand("a", 90, None), cand("b", 50, None)];
    let r = curate_results(&cs, 3);
    assert_eq!(ids(&r), vec!["a".to_string(), "b".to_string()]);
    assert_eq!(r[0].score, 90);
}

#[test]
fn curate_breaks_ties_by_importance() {
    let cs = vec![cand("low", 500_000, Some(10)), cand("high", 500_000, Some(90)), cand("none", 500_000, None)];
    let r = curate_results(&cs, 3);
    assert_eq!(ids(&r), vec!["high".to_string(), "low".to_string(), "none".to_string()]);
    // a clearly better match is not outranked by importance
    let cs2 = vec![cand("strong", 900_000, None), cand("important", 800_000, Some(100))];
    assert_eq!(curate_results(&cs2, 1)[0].id, "strong");
}

#[test]
fn self_match_is_recalled_for_any_cap() {
    let vs = rows(&[("other1", 700_000), ("self", 0), ("other2", 900_000)]);
    let ts = rows(&[("self", 7), ("other2", 3)]);
    let merged = merge_results(&vs, &ts, &SearchConfig::default());
    for k in 1..=3 {
        let r = curate_results(&merged, k);
        assert!(r.iter().any(|c| c.id == "self"));
        assert_eq!(r[0].id, "self");
    }
}
