use ghost_time::export::{
    export_file_name, export_format, idle_label, sanitize_title, text_or, truncate_app_name,
    utc_date_text, utc_time_text, ExportFormat, ExportRow,
};

#[test]
fn formats() {
    assert_eq!(export_format("csv"), Ok(ExportFormat::Csv));
    assert_eq!(export_format("pdf"), Ok(ExportFormat::Pdf));
    assert_eq!(
        export_format("xlsx"),
        Err("Unsupported format: xlsx. Use 'csv' or 'pdf'.".to_string())
    );
    assert!(export_format("CSV").is_err());
}

#[test]
fn file_names() {
    assert_eq!(
        export_file_name("2024-03-01", "2024-03-31", ExportFormat::Csv),
        "ghost-time_2024-03-01_2024-03-31.csv"
    );
    assert_eq!(export_file_name("a", "b", ExportFormat::Pdf), "ghost-time_a_b.pdf");
}

#[test]
fn titles_lose_non_ascii() {
    assert_eq!(sanitize_title("Résumé – draft.docx"), "R?sum? ? draft.docx");
    assert_eq!(sanitize_title("plain"), "plain");
    assert_eq!(sanitize_title(""), "");
}

#[test]
fn idle_labels() {
    assert_eq!(idle_label(true), "Yes");
    assert_eq!(idle_label(false), "No");
}

#[test]
fn app_names_are_cut() {
    assert_eq!(truncate_app_name("Code.exe"), "Code.exe");
    assert_eq!(truncate_app_name("123456789012345"), "123456789012345");
    assert_eq!(truncate_app_name("1234567890123456"), "123456789012...");
    assert_eq!(truncate_app_name("Microsoft Word.exe"), "Microsoft Wo...");
}

#[test]
fn rows_default_missing_matter() {
    let r = ExportRow::from_columns(5, "a".into(), "t".into(), 60_000, 1, None, None, None);
    assert!(r.is_idle);
    assert_eq!(r.matter_code, "");
    assert_eq!(r.client_name, "");
    assert_eq!(r.rate_cents, 0);
    let r = ExportRow::from_columns(5, "a".into(), "t".into(), 60_000, 0, Some("M1".into()), Some("Acme".into()), Some(25_000));
    assert!(!r.is_idle);
    assert_eq!(r.matter_code, "M1");
    assert_eq!(r.client_name, "Acme");
    assert_eq!(r.rate_cents, 25_000);
}

#[test]
fn utc_texts() {
    assert_eq!(utc_date_text(1_710_000_000_500), "2024-03-09");
    assert_eq!(utc_time_text(1_710_000_000_500), "16:00:00");
    assert_eq!(utc_date_text(-1), "1969-12-31");
    assert_eq!(utc_time_text(-1), "23:59:59");
    assert_eq!(utc_date_text(i64::MAX), "1970-01-01");
    assert_eq!(utc_time_text(i64::MIN), "00:00:00");
}

#[test]
fn fallback_text() {
    assert_eq!(text_or(Some("x".to_string()), "y"), "x");
    assert_eq!(text_or(None, "y"), "y");
}
