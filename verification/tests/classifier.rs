use ghost_time::classifier::{lengths_of_lowered_matches, matched_keyword_lengths};

fn kws(list: &[&str]) -> Vec<String> {
    list.iter().map(|s| s.to_string()).collect()
}

#[test]
fn single_keyword_match_reports_its_length() {
    let r = matched_keyword_lengths("Smith v Doe - Document Draft.docx", &kws(&["Smith"]));
    assert_eq!(r, vec![5]);
}

#[test]
fn unrelated_title_reports_nothing() {
    let r = matched_keyword_lengths("Budget Spreadsheet Q4.xlsx", &kws(&["Smith"]));
    assert_eq!(r, Vec::<usize>::new());
}

#[test]
fn longer_keyword_scores_more() {
    let title = "Smith v Doe - Motion to Dismiss.pdf";
    let first = matched_keyword_lengths(title, &kws(&["Smith"]));
    let second = matched_keyword_lengths(title, &kws(&["Smith v Doe", "Case 990"]));
    assert_eq!(first, vec![5]);
    assert_eq!(second, vec![11]);
    assert!(second.iter().sum::<usize>() > first.iter().sum::<usize>());
}

#[test]
fn matching_ignores_case() {
    let r = matched_keyword_lengths("acme corp - invoice review", &kws(&["ACME Corp"]));
    assert_eq!(r, vec![9]);
    let r = matched_keyword_lengths("ACME CORP - INVOICE", &kws(&["acme corp"]));
    assert_eq!(r, vec![9]);
}

#[test]
fn several_keywords_in_order() {
    let r = matched_keyword_lengths("Case 990 - Smith v Doe", &kws(&["doe", "nope", "case 990", ""]));
    assert_eq!(r, vec![3, 8, 0]);
}

#[test]
fn lengths_are_in_bytes() {
    let r = matched_keyword_lengths("Café Müller notes", &kws(&["müller"]));
    assert_eq!(r, vec![7]);
}

#[test]
fn keyword_longer_than_title() {
    let r = matched_keyword_lengths("ab", &kws(&["abc"]));
    assert!(r.is_empty());
}

#[test]
fn many_rules_are_fast_enough() {
    let rules: Vec<Vec<String>> = (0..100)
        .map(|i| (0..5).map(|j| format!("keyword_{}_{}", i, j)).collect())
        .collect();
    let start = std::time::Instant::now();
    let mut hits: usize = 0;
    for _ in 0..100 {
        for rule in &rules {
            hits += matched_keyword_lengths("keyword_50_3 - Some Document.docx", rule).len();
        }
    }
    assert_eq!(hits, 100);
    assert!(start.elapsed().as_secs() < 10);
}

#[test]
fn lowered_forms_match_by_their_text() {
    let forms = vec![("smith".to_string(), 5), ("doe".to_string(), 3), ("x".to_string(), 1)];
    assert_eq!(lengths_of_lowered_matches("smith v doe", &forms), vec![5, 3]);
    assert_eq!(lengths_of_lowered_matches("SMITH", &forms), Vec::<usize>::new());
}

#[test]
fn ascii_case_is_ignored_both_ways() {
    let r = matched_keyword_lengths("SMITH V DOE", &kws(&["smith", "Doe", "v d"]));
    assert_eq!(r, vec![5, 3, 3]);
}
