use reposync::migrate::{migrate_step, MigrateAction, MigrateEvent, MigratePhase, MigrateState};
use reposync::model::commit::CommitId;
use reposync::policy::PolicyReport;

fn id(s: &str) -> CommitId {
    CommitId::new(s.to_string()).unwrap()
}

fn report(allowed: bool) -> PolicyReport {
    PolicyReport { denied: Vec::new(), review: Vec::new(), deleted_count: 0, allowed }
}

#[test]
fn migrate_without_source_commits_stops() {
    let (state, action) = migrate_step(MigrateState::new(false), MigrateEvent::Head(None));
    assert!(matches!(action, MigrateAction::NothingToMigrate));
    assert_eq!(state.phase, MigratePhase::Finished);
}

#[test]
fn migrate_already_mapped_head_is_a_no_op() {
    let (state, action) = migrate_step(MigrateState::new(false), MigrateEvent::Head(Some(id("abc"))));
    assert!(matches!(action, MigrateAction::CheckMapping));
    let (state, action) = migrate_step(state, MigrateEvent::Mapped(true));
    assert!(matches!(action, MigrateAction::AlreadySynced));
    let (state, action) = migrate_step(state, MigrateEvent::Written(Some(id("def"))));
    assert!(matches!(action, MigrateAction::Done));
    assert_eq!(state.phase, MigratePhase::Finished);
}

#[test]
fn migrate_refuses_before_writing() {
    let (state, _) = migrate_step(MigrateState::new(false), MigrateEvent::Head(Some(id("abc"))));
    let (state, action) = migrate_step(state, MigrateEvent::Mapped(false));
    assert!(matches!(action, MigrateAction::Plan));
    let (state, action) = migrate_step(state, MigrateEvent::Planned(report(false)));
    assert!(matches!(action, MigrateAction::Refuse(ref r) if !r.allowed));
    let (_, action) = migrate_step(state, MigrateEvent::Written(Some(id("def"))));
    assert!(matches!(action, MigrateAction::Done));
}

#[test]
fn migrate_writes_then_records_the_mapping() {
    let (state, _) = migrate_step(MigrateState::new(false), MigrateEvent::Head(Some(id("abc"))));
    let (state, _) = migrate_step(state, MigrateEvent::Mapped(false));
    let (state, action) = migrate_step(state, MigrateEvent::Planned(report(true)));
    assert!(matches!(action, MigrateAction::Write));
    let (state, action) = migrate_step(state, MigrateEvent::Written(Some(id("def"))));
    match action {
        MigrateAction::Record(s, d) => assert_eq!((s.as_str(), d.as_str()), ("abc", "def")),
        other => panic!("expected a record, got {other:?}"),
    }
    assert_eq!(state.phase, MigratePhase::Finished);
}

#[test]
fn migrate_unchanged_destination_records_nothing() {
    let (state, _) = migrate_step(MigrateState::new(false), MigrateEvent::Head(Some(id("abc"))));
    let (state, _) = migrate_step(state, MigrateEvent::Mapped(false));
    let (state, _) = migrate_step(state, MigrateEvent::Planned(report(true)));
    let (_, action) = migrate_step(state, MigrateEvent::Written(None));
    assert!(matches!(action, MigrateAction::Done));
}

#[test]
fn migrate_history_plans_then_replays() {
    let (state, action) = migrate_step(MigrateState::new(true), MigrateEvent::Head(Some(id("abc"))));
    assert!(matches!(action, MigrateAction::Plan));
    let (_, action) = migrate_step(state, MigrateEvent::Planned(report(true)));
    assert!(matches!(action, MigrateAction::Replay));
}
