use ghost_time::classifier::{best_match, matched_keyword_lengths};

struct Rule {
    matter_id: i64,
    keywords: Vec<String>,
    weight: f32,
}

fn classify(title: &str, rules: &[Rule]) -> Option<i64> {
    let ranked: Vec<(i64, u32)> = rules
        .iter()
        .map(|rule| {
            let score: f32 = matched_keyword_lengths(title, &rule.keywords)
                .iter()
                .map(|len| rule.weight * *len as f32)
                .sum();
            (rule.matter_id, if score > 0.0 { score.to_bits() } else { 0 })
        })
        .collect();
    best_match(&ranked)
}

#[test]
fn test_classify_single_keyword_match() {
    let rules = vec![Rule { matter_id: 1, keywords: vec!["Smith".to_string()], weight: 1.0 }];
    let result = classify("Smith v Doe - Document Draft.docx", &rules);
    assert_eq!(result, Some(1));
}

#[test]
fn test_classify_no_match() {
    let rules = vec![Rule { matter_id: 1, keywords: vec!["Smith".to_string()], weight: 1.0 }];
    let result = classify("Budget Spreadsheet Q4.xlsx", &rules);
    assert_eq!(result, None);
}

#[test]
fn test_classify_best_match_wins() {
    let rules = vec![
        Rule { matter_id: 1, keywords: vec!["Smith".to_string()], weight: 1.0 },
        Rule {
            matter_id: 2,
            keywords: vec!["Smith v Doe".to_string(), "Case 990".to_string()],
            weight: 1.0,
        },
    ];
    let result = classify("Smith v Doe - Motion to Dismiss.pdf", &rules);
    assert_eq!(result, Some(2));
}

#[test]
fn test_classify_case_insensitive() {
    let rules = vec![Rule { matter_id: 3, keywords: vec!["ACME Corp".to_string()], weight: 1.0 }];
    let result = classify("acme corp - invoice review", &rules);
    assert_eq!(result, Some(3));
}

#[test]
fn test_classify_performance() {
    let rules: Vec<Rule> = (0..100)
        .map(|i| Rule {
            matter_id: i,
            keywords: (0..5).map(|j| format!("keyword_{}_{}", i, j)).collect(),
            weight: 1.0,
        })
        .collect();
    let start = std::time::Instant::now();
    for _ in 0..1000 {
        classify("keyword_50_3 - Some Document.docx", &rules);
    }
    let elapsed = start.elapsed();
    let per_call = elapsed / 1000;
    assert!(per_call.as_millis() < 1, "classify() should complete in < 1ms, took {:?}", per_call);
}

#[test]
fn first_of_equal_scores_wins() {
    let rules = vec![
        Rule { matter_id: 7, keywords: vec!["doe".to_string()], weight: 1.0 },
        Rule { matter_id: 8, keywords: vec!["DOE".to_string()], weight: 1.0 },
    ];
    assert_eq!(classify("Smith v Doe", &rules), Some(7));
}

#[test]
fn weight_can_outrank_length() {
    let rules = vec![
        Rule { matter_id: 1, keywords: vec!["Smith v Doe".to_string()], weight: 1.0 },
        Rule { matter_id: 2, keywords: vec!["Doe".to_string()], weight: 5.0 },
        Rule { matter_id: 3, keywords: vec!["Smith".to_string()], weight: -1.0 },
    ];
    assert_eq!(classify("Smith v Doe", &rules), Some(2));
}

#[test]
fn best_match_ranks() {
    assert_eq!(best_match(&vec![]), None);
    assert_eq!(best_match(&vec![(1, 0), (2, 0)]), None);
    assert_eq!(best_match(&vec![(1, 3), (2, 5), (3, 5), (4, 4)]), Some(2));
    assert_eq!(best_match(&vec![(1, 0), (2, 1)]), Some(2));
}
