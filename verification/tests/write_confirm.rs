use pgblade::write_confirm::{WriteConfirmEvent, WriteConfirmModal, PREVIEW_BYTES};

#[test]
fn short_statements_are_shown_whole() {
    let m = WriteConfirmModal::new("DELETE FROM t".to_string(), "destructive".to_string());
    assert!(m.preview_cut_is_clean());
    assert_eq!(m.sql_preview(), "DELETE FROM t");
    assert_eq!(m.classification(), "destructive");
}

#[test]
fn long_statements_are_cut_after_the_preview_bytes() {
    let sql = format!("UPDATE t SET x = '{}'", "a".repeat(200));
    let m = WriteConfirmModal::new(sql.clone(), "write".to_string());
    assert!(m.preview_cut_is_clean());
    let preview = m.sql_preview();
    assert_eq!(preview, format!("{}...", &sql[..PREVIEW_BYTES]));
}

#[test]
fn exactly_the_preview_length_is_not_cut() {
    let sql = "x".repeat(PREVIEW_BYTES);
    let m = WriteConfirmModal::new(sql.clone(), "write".to_string());
    assert_eq!(m.sql_preview(), sql);
    let longer = "x".repeat(PREVIEW_BYTES + 1);
    let m = WriteConfirmModal::new(longer, "write".to_string());
    assert_eq!(m.sql_preview(), format!("{}...", "x".repeat(PREVIEW_BYTES)));
}

#[test]
fn a_cut_inside_a_char_is_detected() {
    let sql = format!("{}é and more", "x".repeat(PREVIEW_BYTES - 1));
    let m = WriteConfirmModal::new(sql.clone(), "write".to_string());
    assert!(!sql.is_char_boundary(PREVIEW_BYTES));
    assert!(!m.preview_cut_is_clean());
    let sql = format!("{}é and more", "x".repeat(PREVIEW_BYTES - 2));
    let m = WriteConfirmModal::new(sql.clone(), "write".to_string());
    assert!(m.preview_cut_is_clean());
    assert_eq!(m.sql_preview(), format!("{}...", &sql[..PREVIEW_BYTES]));
}

#[test]
fn buttons_answer_confirm_or_cancel() {
    let m = WriteConfirmModal::new("DROP TABLE t".to_string(), "destructive".to_string());
    match m.confirm() {
        WriteConfirmEvent::Confirmed(s) => assert_eq!(s, "DROP TABLE t"),
        other => panic!("unexpected {:?}", other),
    }
    assert!(matches!(m.cancel(), WriteConfirmEvent::Cancelled));
    assert_eq!(m.sql(), "DROP TABLE t");
}

#[test]
fn header_names_the_classification_in_capitals() {
    let m = WriteConfirmModal::new("DELETE FROM t".to_string(), "destructive write".to_string());
    assert_eq!(m.header(), "DESTRUCTIVE WRITE on PRODUCTION");
}
