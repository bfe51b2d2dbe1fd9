use rolodex_core::auto_climb::AutoClimbState;
use rolodex_core::auto_climb::fingerprint_call;
use rolodex_core::phase::DeclarePhaseArgs;
use rolodex_core::phase::Phase;
use rolodex_core::phase::PhaseHandler;
use rolodex_core::phase::PhaseToolOutput;
use rolodex_core::phase::parse_error;

#[test]
fn phase_plus_novel_call_is_valid() {
    let mut s = AutoClimbState::default();
    s.reset_for_iteration();
    s.record_phase(Phase::Execute);
    assert!(s.record_call("smart_read", r#"{"path":"a.rs"}"#));
    assert!(s.is_valid_climb_step());
}

#[test]
fn phase_plus_plan_change_is_valid() {
    let mut s = AutoClimbState::default();
    s.reset_for_iteration();
    s.record_phase(Phase::Reason);
    s.record_plan_change();
    assert!(s.is_valid_climb_step());
}

#[test]
fn no_phase_declared_is_ralph() {
    let mut s = AutoClimbState::default();
    s.reset_for_iteration();
    s.record_call("smart_read", r#"{"path":"a.rs"}"#);
    assert!(
        !s.is_valid_climb_step(),
        "an undeclared phase is a ralph signature even with a novel call"
    );
}

#[test]
fn repeated_call_is_ralph() {
    let mut s = AutoClimbState::default();
    s.reset_for_iteration();
    s.record_phase(Phase::Explore);
    assert!(s.record_call("smart_read", r#"{"path":"a.rs"}"#));
    assert!(s.is_valid_climb_step(), "first read in explore phase is a valid climb step");

    s.reset_for_iteration();
    s.record_phase(Phase::Explore);
    assert!(!s.record_call("smart_read", r#"{"path":"a.rs"}"#));
    assert!(
        !s.is_valid_climb_step(),
        "re-reading the same path with no other progress is a ralph signature"
    );
}

#[test]
fn novel_call_after_repeat_is_valid_again() {
    let mut s = AutoClimbState::default();
    s.reset_for_iteration();
    s.record_phase(Phase::Explore);
    s.record_call("smart_read", r#"{"path":"a.rs"}"#);

    s.reset_for_iteration();
    s.record_phase(Phase::Explore);
    assert!(s.record_call("smart_read", r#"{"path":"b.rs"}"#));
    assert!(s.is_valid_climb_step());
}

#[test]
fn reset_clears_per_iteration_signals() {
    let mut s = AutoClimbState::default();
    s.record_phase(Phase::Execute);
    s.record_plan_change();
    s.reset_for_iteration();
    assert!(!s.is_valid_climb_step(), "reset must clear phase + plan change");
}

#[test]
fn fingerprint_separates_name_from_arguments() {
    assert_ne!(fingerprint_call("ab", "c"), fingerprint_call("a", "bc"));
    assert_eq!(fingerprint_call("read", "x"), fingerprint_call("read", "x"));
}

#[test]
fn phase_names_round_trip() {
    for p in [Phase::Explore, Phase::Reason, Phase::Execute, Phase::Slow, Phase::Fast] {
        assert_eq!(Phase::from_name(p.name()), Some(p));
    }
    assert_eq!(Phase::from_name("slow"), Some(Phase::Slow));
    assert_eq!(Phase::from_name("fast"), Some(Phase::Fast));
    assert_eq!(Phase::from_name("Slow"), None);
}

#[test]
fn phase_output_previews_and_answers() {
    let handler = PhaseHandler;
    assert_eq!(handler.tool_name(), "declare_phase");
    let (phase, output) = handler.handle_args(&DeclarePhaseArgs { phase: Phase::Reason, intent: None });
    assert_eq!(phase, Phase::Reason);
    assert_eq!(output.log_preview(), "Phase declared: reason");
    let item = output.to_response_item("call-1");
    assert_eq!(item.call_id, "call-1");
    assert_eq!(item.content, "Phase declared");
    assert_eq!(item.success, Some(true));
    assert!(PhaseToolOutput::new(Phase::Execute).success_for_logging());
    assert_eq!(
        parse_error("bad").to_message(),
        "failed to parse function arguments: bad"
    );
    assert_eq!(
        handler.unsupported_payload().to_message(),
        "declare_phase handler received unsupported payload"
    );
}
