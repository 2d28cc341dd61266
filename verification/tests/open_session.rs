use codeg_core::context::hydrate::HydrateError;
use codeg_core::context::open_session::{begin_open, open_step, OpenAction, OpenEvent, OpenPlan, OpenStart};
use codeg_core::process_owner::ProcessOwnerRegistry;
use codeg_core::run_settled::{session_store_lookup, SessionStoreLookup};
use codeg_core::workflow_adapt::AgentType;

fn plan(has_fallback: bool) -> OpenPlan {
    match begin_open("/Users/me/proj", Some("  s1 "), has_fallback) {
        OpenStart::Resume(p) => p,
        OpenStart::Fresh { .. } => panic!("expected resume"),
    }
}

fn failure(a: OpenAction) -> (String, String, &'static str) {
    match a {
        OpenAction::Fail(HydrateError::LoadFailed { session_id, message, code }) => (session_id, message, code),
        _ => panic!("expected failure"),
    }
}

#[test]
fn open_without_an_id_starts_fresh_in_the_cwd_group() {
    match begin_open("/tmp/", None, true) {
        OpenStart::Fresh { group } => assert_eq!(group, "%2Ftmp"),
        OpenStart::Resume(_) => panic!("expected fresh"),
    }
    assert!(matches!(begin_open("/tmp", Some("   "), false), OpenStart::Fresh { .. }));
    let p = plan(true);
    assert_eq!(p.dest_group, "%2FUsers%2Fme%2Fproj");
    assert_eq!(p.session_id, "s1");
    assert!(p.has_fallback);
}

#[test]
fn open_loads_from_the_cwd_group_or_the_group_holding_it() {
    let p = plan(false);
    assert!(matches!(open_step(&p, OpenEvent::DestStat(Ok(true))), OpenAction::Load { group } if group == "%2FUsers%2Fme%2Fproj"));
    assert!(matches!(open_step(&p, OpenEvent::DestStat(Ok(false))), OpenAction::FindGrouped));
    assert!(matches!(open_step(&p, OpenEvent::Grouped(Some("other".into()))), OpenAction::Load { group } if group == "other"));
    match open_step(&p, OpenEvent::Grouped(None)) {
        OpenAction::Fresh { group, session_id } => {
            assert_eq!(group, "%2FUsers%2Fme%2Fproj");
            assert_eq!(session_id.as_deref(), Some("s1"));
        }
        _ => panic!("expected fresh"),
    }
}

#[test]
fn open_copies_a_legacy_transcript_into_its_header_group() {
    let p = plan(true);
    assert!(matches!(open_step(&p, OpenEvent::Grouped(None)), OpenAction::StatFallback));
    assert!(matches!(open_step(&p, OpenEvent::FallbackStat(Ok(true))), OpenAction::ReadFallbackHeader));
    assert!(matches!(open_step(&p, OpenEvent::FallbackStat(Ok(false))), OpenAction::Fresh { session_id: Some(_), .. }));
    assert!(matches!(open_step(&p, OpenEvent::FallbackHeader(Some("/w".into()))), OpenAction::Migrate { group } if group == "%2Fw"));
    assert!(matches!(open_step(&p, OpenEvent::FallbackHeader(Some(String::new()))), OpenAction::Migrate { group } if group == "%2FUsers%2Fme%2Fproj"));
    assert!(matches!(open_step(&p, OpenEvent::FallbackHeader(None)), OpenAction::Migrate { group } if group == "%2FUsers%2Fme%2Fproj"));
    let done = open_step(&p, OpenEvent::Migrated { group: "%2Fw".into(), result: Ok(()) });
    assert!(matches!(done, OpenAction::Load { group } if group == "%2Fw"));
}

#[test]
fn unreadable_or_uncopyable_transcripts_fail_the_open() {
    let p = plan(true);
    let (id, message, code) = failure(open_step(&p, OpenEvent::DestStat(Err("denied".into()))));
    assert_eq!(id, "s1");
    assert_eq!(message, "transcript could not be read: denied");
    assert_eq!(code, "session_unavailable");
    let (_, message, _) = failure(open_step(&p, OpenEvent::FallbackStat(Err("io".into()))));
    assert_eq!(message, "transcript could not be read: io");
    let (_, message, code) = failure(open_step(&p, OpenEvent::Migrated { group: "g".into(), result: Err("disk full".into()) }));
    assert_eq!(message, "failed to migrate transcript: disk full");
    assert_eq!(code, "session_unavailable");
}

#[test]
fn session_store_lookup_needs_an_id_and_a_known_store() {
    assert_eq!(
        session_store_lookup(AgentType::ClaudeCode, Some("abc")),
        Some(SessionStoreLookup::SessionFile { session_id: "abc".into() })
    );
    assert_eq!(
        session_store_lookup(AgentType::Grok, Some("g1")),
        Some(SessionStoreLookup::SessionDir { session_id: "g1".into() })
    );
    assert_eq!(session_store_lookup(AgentType::Codex, Some("x")), None);
    assert_eq!(session_store_lookup(AgentType::OpenCode, Some("x")), None);
    assert_eq!(session_store_lookup(AgentType::Grok, Some("")), None);
    assert_eq!(session_store_lookup(AgentType::ClaudeCode, None), None);
}

#[test]
fn owner_registry_holds_each_pid_once() {
    let mut reg = ProcessOwnerRegistry::new();
    reg.register(7);
    reg.register(7);
    reg.register(0);
    reg.register(9);
    let mut pids = reg.pids();
    pids.sort();
    assert_eq!(pids, vec![7, 9]);
    reg.unregister(7);
    reg.unregister(42);
    assert_eq!(reg.pids(), vec![9]);
    let mut taken = reg.take_pids();
    taken.sort();
    assert_eq!(taken, vec![9]);
    assert!(reg.pids().is_empty());
}
