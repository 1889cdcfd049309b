use engine::backup::{
    backup_verdict, resume_wait, server_backup_excludes, server_claim_key, BackupClaims,
    BackupVerdict, RESUME_ATTEMPTS,
};

#[test]
fn a_backup_leaves_out_what_the_launcher_recreates() {
    assert_eq!(
        server_backup_excludes("paper-1.21.4-100.jar"),
        ["paper-1.21.4-100.jar", "libraries", "logs", "cache", "mods"]
    );
}

#[test]
fn one_backup_or_restore_runs_per_entry_at_a_time() {
    let mut claims = BackupClaims::new();
    let a = server_claim_key("abc");
    let b = server_claim_key("def");
    assert_eq!(a, "server-abc");
    assert!(claims.claim(&a));
    assert!(!claims.claim(&a), "a second run on the same entry is refused");
    assert!(claims.claim(&b), "another entry is independent");
    claims.release(&a);
    assert!(claims.claim(&a), "released, the entry can be claimed again");
    claims.release(&b);
    claims.release(&b);
    assert!(claims.claim(&b));
}

#[test]
fn save_on_is_retried_five_seconds_apart() {
    assert_eq!(RESUME_ATTEMPTS, 5);
    assert_eq!(resume_wait(0), 0);
    assert_eq!(resume_wait(1), 5);
    assert_eq!(resume_wait(4), 5);
}

#[test]
fn a_world_left_unsaved_outweighs_a_good_archive() {
    assert_eq!(backup_verdict(true, Some(false)), BackupVerdict::SavingStillOff);
    assert_eq!(backup_verdict(true, Some(true)), BackupVerdict::AsArchived);
    assert_eq!(backup_verdict(true, None), BackupVerdict::AsArchived);
    assert_eq!(backup_verdict(false, Some(false)), BackupVerdict::AsArchived);
}
