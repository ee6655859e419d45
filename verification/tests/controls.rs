use particle_sim::controls::{
    handle_ui_interaction, mating_budget, ui_labels, ButtonKind, ButtonTint, PointerInteraction,
    SimulationAlgorithm, SimulationState,
};

#[test]
fn state_toggles_and_defaults_to_running() {
    assert_eq!(SimulationState::default(), SimulationState::Running);
    assert_eq!(SimulationState::Running.toggled(), SimulationState::Paused);
    assert_eq!(SimulationState::Paused.toggled(), SimulationState::Running);
    assert_eq!(SimulationState::Running.toggled().toggled(), SimulationState::Running);
}

#[test]
fn algorithms_cycle_with_names() {
    let a = SimulationAlgorithm::default();
    assert_eq!(a, SimulationAlgorithm::Standard);
    assert_eq!(a.name(), "Standard Evolution");
    assert_eq!(a.next(), SimulationAlgorithm::PhysicsOnly);
    assert_eq!(a.next().name(), "Physics Only");
    assert_eq!(a.next().next(), SimulationAlgorithm::FastReproduction);
    assert_eq!(a.next().next().name(), "Fast Reproduction");
    assert_eq!(a.next().next().next(), a);
}

#[test]
fn pressing_start_stop_toggles() {
    let r = handle_ui_interaction(
        ButtonKind::StartStop,
        PointerInteraction::Pressed,
        SimulationState::Running,
        SimulationAlgorithm::Standard,
    );
    assert_eq!(r.state, SimulationState::Paused);
    assert_eq!(r.algorithm, SimulationAlgorithm::Standard);
    assert!(!r.respawn_population);
    assert_eq!(r.tint, Some(ButtonTint::Pressed));
    let r2 = handle_ui_interaction(ButtonKind::StartStop, PointerInteraction::Pressed, r.state, r.algorithm);
    assert_eq!(r2.state, SimulationState::Running);
}

#[test]
fn pressing_reset_respawns_and_resumes() {
    let r = handle_ui_interaction(
        ButtonKind::Reset,
        PointerInteraction::Pressed,
        SimulationState::Paused,
        SimulationAlgorithm::FastReproduction,
    );
    assert_eq!(r.state, SimulationState::Running);
    assert_eq!(r.algorithm, SimulationAlgorithm::FastReproduction);
    assert!(r.respawn_population);
    assert_eq!(r.tint, Some(ButtonTint::Pressed));
}

#[test]
fn pressing_algorithm_button_moves_to_next() {
    let r = handle_ui_interaction(
        ButtonKind::Algorithm,
        PointerInteraction::Pressed,
        SimulationState::Paused,
        SimulationAlgorithm::PhysicsOnly,
    );
    assert_eq!(r.algorithm, SimulationAlgorithm::FastReproduction);
    assert_eq!(r.state, SimulationState::Paused);
    assert!(!r.respawn_population);
}

#[test]
fn hover_and_idle_only_tint() {
    let cases = [
        (ButtonKind::StartStop, PointerInteraction::Hovered, Some(ButtonTint::StartStopHovered)),
        (ButtonKind::Reset, PointerInteraction::Hovered, Some(ButtonTint::ResetHovered)),
        (ButtonKind::Algorithm, PointerInteraction::Hovered, Some(ButtonTint::AlgorithmHovered)),
        (ButtonKind::Plain, PointerInteraction::Hovered, None),
        (ButtonKind::StartStop, PointerInteraction::Idle, Some(ButtonTint::StartStopIdle)),
        (ButtonKind::Reset, PointerInteraction::Idle, Some(ButtonTint::ResetIdle)),
        (ButtonKind::Algorithm, PointerInteraction::Idle, Some(ButtonTint::AlgorithmIdle)),
        (ButtonKind::Plain, PointerInteraction::Idle, None),
    ];
    for (button, interaction, tint) in cases {
        let r = handle_ui_interaction(button, interaction, SimulationState::Running, SimulationAlgorithm::Standard);
        assert_eq!(r.tint, tint);
        assert_eq!(r.state, SimulationState::Running);
        assert_eq!(r.algorithm, SimulationAlgorithm::Standard);
        assert!(!r.respawn_population);
    }
}

#[test]
fn pressing_a_plain_button_changes_nothing_but_its_tint() {
    let r = handle_ui_interaction(
        ButtonKind::Plain,
        PointerInteraction::Pressed,
        SimulationState::Paused,
        SimulationAlgorithm::Standard,
    );
    assert_eq!(r.state, SimulationState::Paused);
    assert_eq!(r.algorithm, SimulationAlgorithm::Standard);
    assert!(!r.respawn_population);
    assert_eq!(r.tint, Some(ButtonTint::Pressed));
}

#[test]
fn mating_budget_by_mode() {
    assert_eq!(mating_budget(SimulationState::Running, SimulationAlgorithm::Standard, 4), Some(4));
    assert_eq!(mating_budget(SimulationState::Running, SimulationAlgorithm::FastReproduction, 4), Some(12));
    assert_eq!(mating_budget(SimulationState::Running, SimulationAlgorithm::PhysicsOnly, 4), None);
    assert_eq!(mating_budget(SimulationState::Paused, SimulationAlgorithm::Standard, 4), None);
    assert_eq!(mating_budget(SimulationState::Paused, SimulationAlgorithm::FastReproduction, 4), None);
    assert_eq!(mating_budget(SimulationState::Running, SimulationAlgorithm::Standard, 0), Some(0));
    // paused: no budget is computed, so even a rate that would overflow is fine
    assert_eq!(mating_budget(SimulationState::Paused, SimulationAlgorithm::FastReproduction, usize::MAX), None);
    assert_eq!(mating_budget(SimulationState::Running, SimulationAlgorithm::Standard, usize::MAX), Some(usize::MAX));
}

#[test]
fn status_labels() {
    let l = ui_labels(42, SimulationState::Running, SimulationAlgorithm::Standard);
    assert_eq!(l.particle_count, "Particles: 42");
    assert_eq!(l.algorithm, "Algorithm: Standard Evolution");
    assert_eq!(l.state, "State: Running");
    assert_eq!(l.start_stop, "Stop");
    let p = ui_labels(0, SimulationState::Paused, SimulationAlgorithm::PhysicsOnly);
    assert_eq!(p.particle_count, "Particles: 0");
    assert_eq!(p.algorithm, "Algorithm: Physics Only");
    assert_eq!(p.state, "State: Paused");
    assert_eq!(p.start_stop, "Start");
    let big = ui_labels(1_000_907, SimulationState::Running, SimulationAlgorithm::FastReproduction);
    assert_eq!(big.particle_count, "Particles: 1000907");
    assert_eq!(big.algorithm, "Algorithm: Fast Reproduction");
}
