use portmap::messages::{added_report, kill_report, removed_report, updated_report, KillOutcome};

#[test]
fn added_report_named_and_unnamed() {
    assert_eq!(added_report(7, "web", 3000, "frontend"), "Added #7: web on :3000 [frontend]");
    assert_eq!(added_report(12, "", 8080, "other"), "Added #12: :8080 on :8080 [other]");
}

#[test]
fn removed_report_named_and_unnamed() {
    assert_eq!(removed_report("api", 9955), "Removed api (port 9955)");
    assert_eq!(removed_report("", 5173), "Removed :5173 (port 5173)");
}

#[test]
fn updated_report_shows_new_values() {
    assert_eq!(updated_report("billing", 9957, "backend"), "Updated billing on :9957 [backend]");
    assert_eq!(updated_report("", -1, ""), "Updated :-1 on :-1 []");
}

#[test]
fn kill_report_outcomes() {
    assert_eq!(kill_report(KillOutcome::NotFound, Some("web"), 3000), "Nothing running on :3000");
    assert_eq!(kill_report(KillOutcome::Killed, Some("web"), 3000), "Killed web (port 3000)");
    assert_eq!(kill_report(KillOutcome::ForceKilled, Some(""), 3000), "Force killed :3000 (port 3000)");
    assert_eq!(kill_report(KillOutcome::Killed, None, 9958), "Killed :9958 (port 9958)");
}
