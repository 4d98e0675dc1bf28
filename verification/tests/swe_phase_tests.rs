use uenv_server::agent_pool::AgentSelectError;
use uenv_server::episode_flow::{
    acquire_outcome, submit_outcome, swe_acquire_step, swe_phase_after, swe_pool_step, swe_session_step, swe_wait_step,
    wait_outcome, PhaseOutcome, SessionOutcome, SweAcquireEvent, SwePhase, SweWaitEvent,
};

#[test]
fn a_successful_swe_episode_walks_every_phase_in_order() {
    let mut phase = SwePhase::ResolvePool;
    phase = swe_phase_after(phase, submit_outcome(&swe_pool_step(&Ok("pool-a".to_string()))));
    assert_eq!(phase, SwePhase::Acquire);
    let start = swe_acquire_step("ep-1", &SweAcquireEvent::RoundStart { cancelled: false, deadline_passed: false });
    phase = swe_phase_after(phase, acquire_outcome(&start));
    assert_eq!(phase, SwePhase::Acquire);
    let got = swe_acquire_step("ep-1", &SweAcquireEvent::Reserved { worker_id: "w-1".into(), has_gateway_url: true });
    phase = swe_phase_after(phase, acquire_outcome(&got));
    assert_eq!(phase, SwePhase::Session);
    phase = swe_phase_after(phase, submit_outcome(&swe_session_step("w-1", &SessionOutcome::Created)));
    assert_eq!(phase, SwePhase::Wait);
    let picked = swe_wait_step("ep-1", &SweWaitEvent::PickupDeadline { still_pending: false });
    phase = swe_phase_after(phase, wait_outcome(&picked));
    assert_eq!(phase, SwePhase::Wait);
    let done = swe_wait_step("ep-1", &SweWaitEvent::Completed { status: String::new() });
    phase = swe_phase_after(phase, wait_outcome(&done));
    assert_eq!(phase, SwePhase::Done);
}

#[test]
fn a_failed_pool_resolution_ends_before_acquiring() {
    let step = swe_pool_step(&Err(AgentSelectError::NoAgentInPool));
    assert_eq!(submit_outcome(&step), PhaseOutcome::End);
    assert_eq!(swe_phase_after(SwePhase::ResolvePool, PhaseOutcome::End), SwePhase::Done);
}
