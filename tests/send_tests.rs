use secret_send::crypto::hash_password;
use secret_send::send::{
    after_replace, declared_size_value, find_by_access_id, find_by_past_deletion_date, size_by_user,
    DeclaredSize, PasswordGate, ReplaceOutcome, SaveStep, Send, SendId, SendType, UserId,
};

const DAY: i64 = 86_400_000_000;

fn record(atype: i32, deletion_date: i64) -> Send {
    Send::new(atype, "name".to_string(), "{}".to_string(), "key".to_string(), deletion_date)
}

fn gate(password: &[u8], salt: &[u8], iterations: i32, memory: i32, parallelism: i32) -> PasswordGate {
    PasswordGate {
        hash: hash_password(password, salt, iterations as u32, memory as u32, parallelism as u32),
        salt: salt.to_vec(),
        iterations,
        memory,
        parallelism,
    }
}

#[test]
fn new_record_defaults() {
    let s = record(1, 42);
    assert_eq!(s.uuid.0.len(), 36);
    assert_eq!(s.uuid.0.matches('-').count(), 4);
    assert!(s.user_uuid.is_none());
    assert!(s.organization_uuid.is_none());
    assert!(s.password.is_none());
    assert_eq!(s.access_count, 0);
    assert_eq!(s.creation_date, s.revision_date);
    assert_eq!(s.deletion_date, 42);
    assert!(!s.disabled);
    assert_ne!(record(1, 42).uuid.0, s.uuid.0);
}

#[test]
fn send_type_codes() {
    assert_eq!(SendType::Text.code(), 0);
    assert_eq!(SendType::File.code(), 1);
    assert!(record(1, 0).has_stored_files());
    assert!(!record(0, 0).has_stored_files());
}

#[test]
fn check_password_with_modern_gate() {
    let mut s = record(0, 0);
    s.password = Some(gate(b"open sesame", b"0123456789abcdef", 1, 64, 1));
    assert!(s.check_password("open sesame"));
    assert!(!s.check_password("open sesame!"));
    assert!(!s.check_password(""));
}

#[test]
fn check_password_with_legacy_gate() {
    let mut s = record(0, 0);
    s.password = Some(gate(b"legacy", b"saltsalt", 10, 0, 0));
    assert!(s.check_password("legacy"));
    assert!(!s.check_password("Legacy"));
}

#[test]
fn check_password_without_password_is_false() {
    let mut s = record(0, 0);
    assert!(!s.check_password("anything"));
    s.password = Some(gate(b"pw", b"saltsalt", 10, 0, 0));
    s.set_password(None);
    assert!(s.password.is_none());
    assert!(!s.check_password("pw"));
    assert!(!s.check_password(""));
}

#[test]
fn check_password_with_unusable_parameters_is_false() {
    let mut s = record(0, 0);
    let mut g = gate(b"pw", b"saltsalt", 10, 0, 0);
    g.iterations = 0;
    s.password = Some(g);
    assert!(!s.check_password("pw"));
}

#[test]
fn purge_selects_only_strictly_past_records() {
    let now: i64 = 1_700_000_000_000_000;
    let sends = vec![record(0, now - DAY), record(0, now), record(0, now + DAY)];
    assert_eq!(find_by_past_deletion_date(&sends, now), vec![0]);
    assert!(sends[0].is_past_deletion_date(now));
    assert!(!sends[1].is_past_deletion_date(now));
    assert!(!sends[2].is_past_deletion_date(now));
    assert_eq!(find_by_past_deletion_date(&Vec::new(), now), Vec::<usize>::new());
}

#[test]
fn access_id_round_trip() {
    let mut s = record(0, 0);
    s.uuid = SendId("67e55044-10b1-426f-9247-bb680e5fe0c8".to_string());
    let access = s.access_id();
    assert_eq!(access, "Z-VQRBCxQm-SR7toDl_gyA");
    let back = find_by_access_id(&access).unwrap();
    assert_eq!(back.0, "67e55044-10b1-426f-9247-bb680e5fe0c8");
}

#[test]
fn access_id_of_non_uuid_is_zero_bytes() {
    let mut s = record(0, 0);
    s.uuid = SendId("not a uuid".to_string());
    assert_eq!(s.access_id(), "AAAAAAAAAAAAAAAAAAAAAA");
    assert_eq!(find_by_access_id("AAAAAAAAAAAAAAAAAAAAAA").unwrap().0, "00000000-0000-0000-0000-000000000000");
}

#[test]
fn invalid_access_id_is_not_found() {
    assert!(find_by_access_id("!!!not base64!!!").is_none());
    assert!(find_by_access_id("AAAA").is_none());
    assert!(find_by_access_id("AAAAAAAAAAAAAAAAAAAAAA==").is_none());
    assert!(find_by_access_id("").is_none());
}

#[test]
fn size_sum_mixes_numbers_and_text() {
    let sizes = vec![DeclaredSize::Number(10), DeclaredSize::Number(20), DeclaredSize::Text("30".to_string())];
    assert_eq!(size_by_user(&sizes), Some(60));
    assert_eq!(size_by_user(&Vec::new()), Some(0));
}

#[test]
fn size_sum_skips_unreadable_text() {
    let sizes = vec![DeclaredSize::Text("abc".to_string()), DeclaredSize::Number(5)];
    assert_eq!(size_by_user(&sizes), Some(5));
    assert_eq!(declared_size_value(&DeclaredSize::Text("-7".to_string())), Some(-7));
    assert_eq!(declared_size_value(&DeclaredSize::Text("x".to_string())), None);
}

#[test]
fn size_sum_overflow_is_reported() {
    let sizes = vec![DeclaredSize::Number(i64::MAX), DeclaredSize::Number(1)];
    assert_eq!(size_by_user(&sizes), None);
    let sizes = vec![DeclaredSize::Number(i64::MAX), DeclaredSize::Number(1), DeclaredSize::Number(-5)];
    assert_eq!(size_by_user(&sizes), None);
    let sizes = vec![DeclaredSize::Number(i64::MIN), DeclaredSize::Text("-1".to_string())];
    assert_eq!(size_by_user(&sizes), None);
}

#[test]
fn save_falls_back_on_foreign_key_violation() {
    assert_eq!(after_replace(ReplaceOutcome::Replaced), SaveStep::Done);
    assert_eq!(after_replace(ReplaceOutcome::ForeignKeyViolation), SaveStep::UpdateInPlace);
    assert_eq!(after_replace(ReplaceOutcome::Failed), SaveStep::Fail);
}

#[test]
fn revision_and_owner_notification() {
    let mut s = record(0, 0);
    s.mark_revised(99);
    assert_eq!(s.revision_date, 99);
    assert!(s.update_users_revision().is_empty());
    s.user_uuid = Some(UserId("u1".to_string()));
    let users = s.update_users_revision();
    assert_eq!(users.len(), 1);
    assert_eq!(users[0].0, "u1");
}

#[test]
fn creator_identifier_respects_hiding() {
    let mut s = record(0, 0);
    assert_eq!(s.creator_identifier(Some("a@b.c".to_string())), None);
    s.user_uuid = Some(UserId("u1".to_string()));
    assert_eq!(s.creator_identifier(Some("a@b.c".to_string())), Some("a@b.c".to_string()));
    assert_eq!(s.creator_identifier(None), None);
    s.hide_email = Some(false);
    assert_eq!(s.creator_identifier(Some("a@b.c".to_string())), Some("a@b.c".to_string()));
    s.hide_email = Some(true);
    assert_eq!(s.creator_identifier(Some("a@b.c".to_string())), None);
}
