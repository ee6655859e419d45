use vstd::prelude::*;

verus! {

/// Whether the simulation advances.
#[derive(Clone, Copy, Debug, PartialEq, Eq, Structural)]
pub enum SimulationState {
    Running,
    Paused,
}

/// The rule set the simulation runs with.
#[derive(Clone, Copy, Debug, PartialEq, Eq, Structural)]
pub enum SimulationAlgorithm {
    /// Physics plus mating at the configured rate.
    Standard,
    /// Physics only: no mating.
    PhysicsOnly,
    /// Physics plus mating at three times the configured rate.
    FastReproduction,
}

pub open spec fn toggled_state(state: SimulationState) -> SimulationState {
    match state {
        SimulationState::Running => SimulationState::Paused,
        SimulationState::Paused => SimulationState::Running,
    }
}

pub open spec fn next_algorithm(algorithm: SimulationAlgorithm) -> SimulationAlgorithm {
    match algorithm {
        SimulationAlgorithm::Standard => SimulationAlgorithm::PhysicsOnly,
        SimulationAlgorithm::PhysicsOnly => SimulationAlgorithm::FastReproduction,
        SimulationAlgorithm::FastReproduction => SimulationAlgorithm::Standard,
    }
}

impl SimulationState {
    /// Running becomes Paused and Paused becomes Running.
    pub fn toggled(self) -> (next: Self)
        ensures
            next == toggled_state(self),
    {
        match self {
            SimulationState::Running => SimulationState::Paused,
            SimulationState::Paused => SimulationState::Running,
        }
    }
}

impl Default for SimulationState {
    /// A simulation starts running.
    fn default() -> (s: Self)
        ensures
            s == SimulationState::Running,
    {
        SimulationState::Running
    }
}

impl SimulationAlgorithm {
    /// The next rule set in the cycle Standard, PhysicsOnly, FastReproduction.
    pub fn next(self) -> (n: Self)
        ensures
            n == next_algorithm(self),
    {
        match self {
            SimulationAlgorithm::Standard => SimulationAlgorithm::PhysicsOnly,
            SimulationAlgorithm::PhysicsOnly => SimulationAlgorithm::FastReproduction,
            SimulationAlgorithm::FastReproduction => SimulationAlgorithm::Standard,
        }
    }

    /// The name shown for the rule set.
    pub fn name(&self) -> (n: &'static str)
        ensures
            n@ == algorithm_name(*self),
    {
        match self {
            SimulationAlgorithm::Standard => "Standard Evolution",
            SimulationAlgorithm::PhysicsOnly => "Physics Only",
            SimulationAlgorithm::FastReproduction => "Fast Reproduction",
        }
    }
}

pub open spec fn algorithm_name(algorithm: SimulationAlgorithm) -> Seq<char> {
    match algorithm {
        SimulationAlgorithm::Standard => "Standard Evolution"@,
        SimulationAlgorithm::PhysicsOnly => "Physics Only"@,
        SimulationAlgorithm::FastReproduction => "Fast Reproduction"@,
    }
}

impl Default for SimulationAlgorithm {
    /// A simulation starts with the standard rule set.
    fn default() -> (a: Self)
        ensures
            a == SimulationAlgorithm::Standard,
    {
        SimulationAlgorithm::Standard
    }
}

/// The role of a button in the control panel.
#[derive(Clone, Copy, Debug, PartialEq, Eq, Structural)]
pub enum ButtonKind {
    StartStop,
    Reset,
    Algorithm,
    /// A button with none of the three roles.
    Plain,
}

/// What the pointer is doing with a button.
#[derive(Clone, Copy, Debug, PartialEq, Eq, Structural)]
pub enum PointerInteraction {
    Pressed,
    Hovered,
    Idle,
}

/// The background a button is to take.
#[derive(Clone, Copy, Debug, PartialEq, Eq, Structural)]
pub enum ButtonTint {
    Pressed,
    StartStopHovered,
    ResetHovered,
    AlgorithmHovered,
    StartStopIdle,
    ResetIdle,
    AlgorithmIdle,
}

/// What a change of a button's interaction leads to.
#[derive(Clone, Copy, Debug, PartialEq, Eq, Structural)]
pub struct UiResponse {
    pub state: SimulationState,
    pub algorithm: SimulationAlgorithm,
    /// Whether every particle is to be removed and the initial population
    /// spawned again.
    pub respawn_population: bool,
    /// The new background of the button; `None` keeps the current one.
    pub tint: Option<ButtonTint>,
}

pub open spec fn ui_response(
    button: ButtonKind,
    interaction: PointerInteraction,
    state: SimulationState,
    algorithm: SimulationAlgorithm,
) -> UiResponse {
    match interaction {
        PointerInteraction::Pressed => UiResponse {
            state: match button {
                ButtonKind::StartStop => toggled_state(state),
                ButtonKind::Reset => SimulationState::Running,
                _ => state,
            },
            algorithm: if button == ButtonKind::Algorithm {
                next_algorithm(algorithm)
            } else {
                algorithm
            },
            respawn_population: button == ButtonKind::Reset,
            tint: Some(ButtonTint::Pressed),
        },
        PointerInteraction::Hovered => UiResponse {
            state,
            algorithm,
            respawn_population: false,
            tint: match button {
                ButtonKind::StartStop => Some(ButtonTint::StartStopHovered),
                ButtonKind::Reset => Some(ButtonTint::ResetHovered),
                ButtonKind::Algorithm => Some(ButtonTint::AlgorithmHovered),
                ButtonKind::Plain => None,
            },
        },
        PointerInteraction::Idle => UiResponse {
            state,
            algorithm,
            respawn_population: false,
            tint: match button {
                ButtonKind::StartStop => Some(ButtonTint::StartStopIdle),
                ButtonKind::Reset => Some(ButtonTint::ResetIdle),
                ButtonKind::Algorithm => Some(ButtonTint::AlgorithmIdle),
                ButtonKind::Plain => None,
            },
        },
    }
}

/// Decides what a button interaction does: pressing Start/Stop toggles
/// between running and paused, pressing Reset asks for a fresh population
/// and resumes the simulation, pressing the algorithm button moves to the
/// next rule set; hovering and leaving only change the button's background.
pub fn handle_ui_interaction(
    button: ButtonKind,
    interaction: PointerInteraction,
    state: SimulationState,
    algorithm: SimulationAlgorithm,
) -> (response: UiResponse)
    ensures
        response == ui_response(button, interaction, state, algorithm),
        interaction == PointerInteraction::Pressed ==> response.tint == Some(ButtonTint::Pressed),
        interaction == PointerInteraction::Pressed && button == ButtonKind::StartStop ==> {
            &&& response.state != state
            &&& response.algorithm == algorithm
            &&& !response.respawn_population
        },
        interaction == PointerInteraction::Pressed && button == ButtonKind::Reset ==> {
            &&& response.state == SimulationState::Running
            &&& response.algorithm == algorithm
            &&& response.respawn_population
        },
        interaction == PointerInteraction::Pressed && button == ButtonKind::Algorithm ==> {
            &&& response.state == state
            &&& !response.respawn_population
            &&& (algorithm == SimulationAlgorithm::Standard ==> response.algorithm
                == SimulationAlgorithm::PhysicsOnly)
            &&& (algorithm == SimulationAlgorithm::PhysicsOnly ==> response.algorithm
                == SimulationAlgorithm::FastReproduction)
            &&& (algorithm == SimulationAlgorithm::FastReproduction ==> response.algorithm
                == SimulationAlgorithm::Standard)
        },
        interaction != PointerInteraction::Pressed || button == ButtonKind::Plain ==> {
            &&& response.state == state
            &&& response.algorithm == algorithm
            &&& !response.respawn_population
        },
{
    match interaction {
        PointerInteraction::Pressed => {
            let mut next_state = state;
            let mut next_alg = algorithm;
            let mut respawn = false;
            match button {
                ButtonKind::StartStop => {
                    next_state = state.toggled();
                },
                ButtonKind::Reset => {
                    respawn = true;
                    next_state = SimulationState::Running;
                },
                ButtonKind::Algorithm => {
                    next_alg = algorithm.next();
                },
                ButtonKind::Plain => {},
            }
            UiResponse {
                state: next_state,
                algorithm: next_alg,
                respawn_population: respawn,
                tint: Some(ButtonTint::Pressed),
            }
        },
        PointerInteraction::Hovered => {
            let tint = match button {
                ButtonKind::StartStop => Some(ButtonTint::StartStopHovered),
                ButtonKind::Reset => Some(ButtonTint::ResetHovered),
                ButtonKind::Algorithm => Some(ButtonTint::AlgorithmHovered),
                ButtonKind::Plain => None,
            };
            UiResponse { state, algorithm, respawn_population: false, tint }
        },
        PointerInteraction::Idle => {
            let tint = match button {
                ButtonKind::StartStop => Some(ButtonTint::StartStopIdle),
                ButtonKind::Reset => Some(ButtonTint::ResetIdle),
                ButtonKind::Algorithm => Some(ButtonTint::AlgorithmIdle),
                ButtonKind::Plain => None,
            };
            UiResponse { state, algorithm, respawn_population: false, tint }
        },
    }
}

/// How many children may be born in one tick: none while the simulation is
/// paused or runs physics only (`None`), three times the configured number
/// with fast reproduction, the configured number otherwise.
pub fn mating_budget(
    state: SimulationState,
    algorithm: SimulationAlgorithm,
    max_children_per_tick: usize,
) -> (budget: Option<usize>)
    requires
        state == SimulationState::Running && algorithm == SimulationAlgorithm::FastReproduction
            ==> max_children_per_tick * 3 <= usize::MAX,
    ensures
        budget == if state == SimulationState::Paused || algorithm
            == SimulationAlgorithm::PhysicsOnly {
            None
        } else if algorithm == SimulationAlgorithm::FastReproduction {
            Some((max_children_per_tick * 3) as usize)
        } else {
            Some(max_children_per_tick)
        },
{
    if state == SimulationState::Paused {
        return None;
    }
    match algorithm {
        SimulationAlgorithm::PhysicsOnly => None,
        SimulationAlgorithm::FastReproduction => Some(max_children_per_tick * 3),
        SimulationAlgorithm::Standard => Some(max_children_per_tick),
    }
}

/// The character of the decimal digit `d`.
pub open spec fn digit_char(d: nat) -> char {
    (d + 48) as char
}

/// The decimal notation of `n`, without sign or leading zeros.
pub open spec fn decimal(n: nat) -> Seq<char>
    decreases n,
{
    if n < 10 {
        seq![digit_char(n)]
    } else {
        decimal(n / 10).push(digit_char(n % 10))
    }
}

/// The one-character text of the decimal digit `d`.
fn digit_text(d: usize) -> (text: &'static str)
    requires
        d < 10,
    ensures
        text@ == seq![digit_char(d as nat)],
{
    proof {
        reveal_strlit("0");
        reveal_strlit("1");
        reveal_strlit("2");
        reveal_strlit("3");
        reveal_strlit("4");
        reveal_strlit("5");
        reveal_strlit("6");
        reveal_strlit("7");
        reveal_strlit("8");
        reveal_strlit("9");
    }
    match d {
        0 => "0",
        1 => "1",
        2 => "2",
        3 => "3",
        4 => "4",
        5 => "5",
        6 => "6",
        7 => "7",
        8 => "8",
        _ => "9",
    }
}

/// The decimal notation of `n`.
fn decimal_text(n: usize) -> (text: String)
    ensures
        text@ == decimal(n as nat),
    decreases n,
{
    if n < 10 {
        String::from_str(digit_text(n))
    } else {
        let mut text = decimal_text(n / 10);
        text.append(digit_text(n % 10));
        text
    }
}

/// The texts of the status panel.
pub struct UiLabels {
    /// "Particles: " and the number of particles.
    pub particle_count: String,
    /// "Algorithm: " and the name of the rule set.
    pub algorithm: String,
    /// "State: Running" or "State: Paused".
    pub state: String,
    /// The caption of the Start/Stop button: "Stop" while running, "Start"
    /// while paused.
    pub start_stop: String,
}

pub open spec fn state_text(state: SimulationState) -> Seq<char> {
    match state {
        SimulationState::Running => "State: Running"@,
        SimulationState::Paused => "State: Paused"@,
    }
}

pub open spec fn start_stop_text(state: SimulationState) -> Seq<char> {
    match state {
        SimulationState::Running => "Stop"@,
        SimulationState::Paused => "Start"@,
    }
}

/// The status-panel texts for `particle_count` particles in the given state
/// and rule set.
pub fn ui_labels(
    particle_count: usize,
    state: SimulationState,
    algorithm: SimulationAlgorithm,
) -> (labels: UiLabels)
    ensures
        labels.particle_count@ == "Particles: "@ + decimal(particle_count as nat),
        labels.algorithm@ == "Algorithm: "@ + algorithm_name(algorithm),
        labels.state@ == state_text(state),
        labels.start_stop@ == start_stop_text(state),
{
    let mut count = String::from_str("Particles: ");
    let digits = decimal_text(particle_count);
    count.append(digits.as_str());
    let mut alg = String::from_str("Algorithm: ");
    alg.append(algorithm.name());
    let (state_label, button_label) = match state {
        SimulationState::Running => (String::from_str("State: Running"), String::from_str("Stop")),
        SimulationState::Paused => (String::from_str("State: Paused"), String::from_str("Start")),
    };
    UiLabels { particle_count: count, algorithm: alg, state: state_label, start_stop: button_label }
}

/// Pressing Start/Stop twice brings the simulation back to where it was, and
/// leaves the rule set alone.
pub proof fn lemma_start_stop_twice(state: SimulationState, algorithm: SimulationAlgorithm)
    ensures
        ({
            let first = ui_response(ButtonKind::StartStop, PointerInteraction::Pressed, state, algorithm);
            let second = ui_response(
                ButtonKind::StartStop,
                PointerInteraction::Pressed,
                first.state,
                first.algorithm,
            );
            &&& first.state != state
            &&& second.state == state
            &&& second.algorithm == algorithm
            &&& !first.respawn_population && !second.respawn_population
        }),
{
}

/// Pressing the algorithm button three times comes back to the same rule
/// set, passing through all three.
pub proof fn lemma_algorithm_cycle(algorithm: SimulationAlgorithm)
    ensures
        next_algorithm(next_algorithm(next_algorithm(algorithm))) == algorithm,
        next_algorithm(algorithm) != algorithm,
        next_algorithm(next_algorithm(algorithm)) != algorithm,
        next_algorithm(next_algorithm(algorithm)) != next_algorithm(algorithm),
{
}

/// Reset always asks for a fresh population and leaves the simulation
/// running, whatever state it was in.
pub proof fn lemma_reset_resumes(state: SimulationState, algorithm: SimulationAlgorithm)
    ensures
        ui_response(ButtonKind::Reset, PointerInteraction::Pressed, state, algorithm).state
            == SimulationState::Running,
        ui_response(ButtonKind::Reset, PointerInteraction::Pressed, state, algorithm).respawn_population,
        ui_response(ButtonKind::Reset, PointerInteraction::Pressed, state, algorithm).algorithm
            == algorithm,
{
}

/// The algorithm button only switches the rule set, to the next one in the
/// cycle Standard, PhysicsOnly, FastReproduction, whatever the state: the
/// simulation keeps running (or stays paused) and no population is respawned.
pub proof fn lemma_algorithm_button_switches_rule_set_only(state: SimulationState)
    ensures
        forall|a: SimulationAlgorithm|
            #[trigger] ui_response(ButtonKind::Algorithm, PointerInteraction::Pressed, state, a).state
                == state && !ui_response(
                ButtonKind::Algorithm,
                PointerInteraction::Pressed,
                state,
                a,
            ).respawn_population && ui_response(
                ButtonKind::Algorithm,
                PointerInteraction::Pressed,
                state,
                a,
            ).algorithm != a,
        ui_response(
            ButtonKind::Algorithm,
            PointerInteraction::Pressed,
            state,
            SimulationAlgorithm::Standard,
        ).algorithm == SimulationAlgorithm::PhysicsOnly,
        ui_response(
            ButtonKind::Algorithm,
            PointerInteraction::Pressed,
            state,
            SimulationAlgorithm::PhysicsOnly,
        ).algorithm == SimulationAlgorithm::FastReproduction,
        ui_response(
            ButtonKind::Algorithm,
            PointerInteraction::Pressed,
            state,
            SimulationAlgorithm::FastReproduction,
        ).algorithm == SimulationAlgorithm::Standard,
{
}

/// The number written by a sequence of digit characters, read left to right
/// through their character codes ('0' is code 48).
pub open spec fn digits_value(text: Seq<char>) -> int
    decreases text.len(),
{
    if text.len() == 0 {
        0
    } else {
        10 * digits_value(text.drop_last()) + (text.last() as int - 48)
    }
}

/// The decimal notation is the usual one: every character is one of the
/// ASCII digits '0' to '9', it reads back as the number it was made from,
/// and it has no leading zero.
pub proof fn lemma_decimal_reads_back(n: nat)
    ensures
        decimal(n).len() >= 1,
        forall|i: int|
            0 <= i < decimal(n).len() ==> '0' as int <= #[trigger] (decimal(n)[i] as int) <= '9' as int,
        digits_value(decimal(n)) == n,
        n > 0 ==> decimal(n)[0] != '0',
    decreases n,
{
    if n < 10 {
        assert(decimal(n) =~= seq![digit_char(n)]);
        assert(seq![digit_char(n)].drop_last() =~= Seq::<char>::empty());
        assert(digits_value(Seq::<char>::empty()) == 0);
        assert(digit_char(n) as int == n + 48);
        assert(digits_value(seq![digit_char(n)]) == 10 * digits_value(Seq::<char>::empty()) + (
        digit_char(n) as int - 48));
    } else {
        lemma_decimal_reads_back(n / 10);
        let prefix = decimal(n / 10);
        let full = prefix.push(digit_char(n % 10));
        assert(decimal(n) == full);
        assert(full.drop_last() =~= prefix);
        assert forall|i: int| 0 <= i < full.len() implies '0' as int <= #[trigger] (full[i] as int)
            <= '9' as int by {
            if i < prefix.len() {
                assert(full[i] == prefix[i]);
            }
        }
        assert(full[0] == prefix[0]);
        assert(digit_char(n % 10) as int == n % 10 + 48);
        assert(full.last() == digit_char(n % 10));
        assert(digits_value(full) == 10 * digits_value(prefix) + (full.last() as int - 48));
        vstd::arithmetic::div_mod::lemma_fundamental_div_mod(n as int, 10);
    }
}

/// Only a press changes the simulation: hovering over a button or leaving it
/// keeps the state and the rule set and never asks for a fresh population.
pub proof fn lemma_only_presses_act(
    button: ButtonKind,
    interaction: PointerInteraction,
    state: SimulationState,
    algorithm: SimulationAlgorithm,
)
    requires
        interaction != PointerInteraction::Pressed,
    ensures
        ui_response(button, interaction, state, algorithm).state == state,
        ui_response(button, interaction, state, algorithm).algorithm == algorithm,
        !ui_response(button, interaction, state, algorithm).respawn_population,
{
}

} // verus!
