//! Hall-sensor sectors and six-step commutation tables.
use vstd::prelude::*;

verus! {

/// One of the six electrical sectors of a three-phase motor.
#[derive(Debug, Clone, Copy, PartialEq, Eq, Structural)]
pub enum Sector {
    Sector0,
    Sector1,
    Sector2,
    Sector3,
    Sector4,
    Sector5,
}

/// The sector that a three-bit hall code (bit 0 = hall A, bit 1 = hall B,
/// bit 2 = hall C) stands for; codes 0, 1 and 7 name no sector.
pub open spec fn sector_of_code(code: int) -> Option<Sector> {
    if code == 2 {
        Some(Sector::Sector2)
    } else if code == 3 {
        Some(Sector::Sector1)
    } else if code == 4 {
        Some(Sector::Sector4)
    } else if code == 5 {
        Some(Sector::Sector5)
    } else if code == 6 {
        Some(Sector::Sector3)
    } else {
        None
    }
}

pub open spec fn bit(b: bool) -> int {
    if b { 1 } else { 0 }
}

impl Sector {
    /// Looks up the sector from the three hall sensor levels.
    pub fn from_bools(hall_a: bool, hall_b: bool, hall_c: bool) -> (r: Option<Sector>)
        ensures
            r == sector_of_code(bit(hall_a) + 2 * bit(hall_b) + 4 * bit(hall_c)),
    {
        let mut base: usize = if hall_a { 1 } else { 0 };
        if hall_b {
            base = base + 2;
        }
        if hall_c {
            base = base + 4;
        }
        Sector::from_usize(base)
    }

    /// Looks up the sector for a raw hall code; codes outside the table name no sector.
    pub fn from_usize(state: usize) -> (r: Option<Sector>)
        ensures
            r == sector_of_code(state as int),
    {
        match state {
            2 => Some(Sector::Sector2),
            3 => Some(Sector::Sector1),
            4 => Some(Sector::Sector4),
            5 => Some(Sector::Sector5),
            6 => Some(Sector::Sector3),
            _ => None,
        }
    }
}


/// Does nothing for any sector; kept as the place where per-sector duty
/// cycles will be chosen.
pub fn get_pwms(sector: Sector) {
    match sector {
        Sector::Sector0 => {},
        Sector::Sector1 => {},
        Sector::Sector2 => {},
        Sector::Sector3 => {},
        Sector::Sector4 => {},
        Sector::Sector5 => {},
    }
}

/// One step of six-step (trapezoidal) commutation: the phase driven with
/// PWM on its high side, then the phase held low.
#[derive(Debug, Clone, Copy, PartialEq, Eq, Structural)]
pub enum Step {
    S1,  // U+ V-
    S2,  // U+ W-
    S3,  // V+ W-
    S4,  // V+ U-
    S5,  // W+ U-
    S6,  // W+ V-
}

/// What one half bridge is told to do.
#[derive(Debug, Clone, Copy, PartialEq, Eq, Structural)]
pub enum PhaseCommand {
    Float,
    HighPwm(u32),
    LowOn,
    HighOn,
}

/// The drive of phases U, V and W in a step.
pub open spec fn step_phases_spec(step: Step, pwm: u32) -> (PhaseCommand, PhaseCommand, PhaseCommand) {
    match step {
        Step::S1 => (PhaseCommand::HighPwm(pwm), PhaseCommand::LowOn, PhaseCommand::Float),
        Step::S2 => (PhaseCommand::HighPwm(pwm), PhaseCommand::Float, PhaseCommand::LowOn),
        Step::S3 => (PhaseCommand::Float, PhaseCommand::HighPwm(pwm), PhaseCommand::LowOn),
        Step::S4 => (PhaseCommand::LowOn, PhaseCommand::HighPwm(pwm), PhaseCommand::Float),
        Step::S5 => (PhaseCommand::LowOn, PhaseCommand::Float, PhaseCommand::HighPwm(pwm)),
        Step::S6 => (PhaseCommand::Float, PhaseCommand::LowOn, PhaseCommand::HighPwm(pwm)),
    }
}

/// The commands for phases U, V and W in a commutation step.
pub fn step_phases(step: Step, pwm: u32) -> (r: (PhaseCommand, PhaseCommand, PhaseCommand))
    ensures
        r == step_phases_spec(step, pwm),
{
    match step {
        Step::S1 => (PhaseCommand::HighPwm(pwm), PhaseCommand::LowOn, PhaseCommand::Float),
        Step::S2 => (PhaseCommand::HighPwm(pwm), PhaseCommand::Float, PhaseCommand::LowOn),
        Step::S3 => (PhaseCommand::Float, PhaseCommand::HighPwm(pwm), PhaseCommand::LowOn),
        Step::S4 => (PhaseCommand::LowOn, PhaseCommand::HighPwm(pwm), PhaseCommand::Float),
        Step::S5 => (PhaseCommand::LowOn, PhaseCommand::Float, PhaseCommand::HighPwm(pwm)),
        Step::S6 => (PhaseCommand::Float, PhaseCommand::LowOn, PhaseCommand::HighPwm(pwm)),
    }
}

/// Index (0 = U, 1 = V, 2 = W) of the phase switched high in a step, and of
/// the phase held low.
pub open spec fn high_phase(step: Step) -> int {
    match step {
        Step::S1 | Step::S2 => 0,
        Step::S3 | Step::S4 => 1,
        Step::S5 | Step::S6 => 2,
    }
}

pub open spec fn low_phase(step: Step) -> int {
    match step {
        Step::S1 | Step::S6 => 1,
        Step::S2 | Step::S3 => 2,
        Step::S4 | Step::S5 => 0,
    }
}

pub open spec fn phase_of(cmds: (PhaseCommand, PhaseCommand, PhaseCommand), i: int) -> PhaseCommand {
    if i == 0 {
        cmds.0
    } else if i == 1 {
        cmds.1
    } else {
        cmds.2
    }
}

/// The step that drives phase `h` high and phase `l` low.
pub open spec fn step_for(h: int, l: int) -> Step {
    if h == 0 {
        if l == 1 { Step::S1 } else { Step::S2 }
    } else if h == 1 {
        if l == 2 { Step::S3 } else { Step::S4 }
    } else {
        if l == 0 { Step::S5 } else { Step::S6 }
    }
}

/// In every step exactly one phase is driven with PWM, one is held low and
/// one floats, and the six steps drive every ordered pair of distinct
/// phases exactly once.
pub proof fn lemma_steps_cover_pairs(pwm: u32)
    ensures
        forall|s: Step|
            {
                let c = #[trigger] step_phases_spec(s, pwm);
                &&& 0 <= high_phase(s) < 3 && 0 <= low_phase(s) < 3
                &&& high_phase(s) != low_phase(s)
                &&& phase_of(c, high_phase(s)) == PhaseCommand::HighPwm(pwm)
                &&& phase_of(c, low_phase(s)) == PhaseCommand::LowOn
                &&& phase_of(c, 3 - high_phase(s) - low_phase(s)) == PhaseCommand::Float
            },
        forall|h: int, l: int|
            0 <= h < 3 && 0 <= l < 3 && h != l ==> high_phase(#[trigger] step_for(h, l)) == h
                && low_phase(step_for(h, l)) == l,
        forall|s: Step, t: Step|
            high_phase(s) == high_phase(t) && low_phase(s) == low_phase(t) ==> s == t,
{
}

/// How a timer channel is programmed for a phase command.
#[derive(Debug, Clone, Copy, PartialEq, Eq, Structural)]
pub enum ChannelOutput {
    Disabled,
    Enabled { duty: u32 },
}

/// Channel programming for a phase: a floating phase is switched off, a
/// PWM phase gets its duty capped at `max_duty`, a low phase duty 0 and a
/// high phase the full `max_duty`; the duty never exceeds `max_duty`.
pub fn phase_output(cmd: PhaseCommand, max_duty: u32) -> (o: ChannelOutput)
    ensures
        o == (match cmd {
            PhaseCommand::Float => ChannelOutput::Disabled,
            PhaseCommand::HighPwm(d) => ChannelOutput::Enabled {
                duty: if d <= max_duty { d } else { max_duty },
            },
            PhaseCommand::LowOn => ChannelOutput::Enabled { duty: 0 },
            PhaseCommand::HighOn => ChannelOutput::Enabled { duty: max_duty },
        }),
        o matches ChannelOutput::Enabled { duty } ==> duty <= max_duty,
{
    match cmd {
        PhaseCommand::Float => ChannelOutput::Disabled,
        PhaseCommand::HighPwm(duty) => ChannelOutput::Enabled {
            duty: if duty <= max_duty { duty } else { max_duty },
        },
        PhaseCommand::LowOn => ChannelOutput::Enabled { duty: 0 },
        PhaseCommand::HighOn => ChannelOutput::Enabled { duty: max_duty },
    }
}

/// The six steps in commutation order.
pub open spec fn step_at(i: int) -> Step {
    if i == 0 {
        Step::S1
    } else if i == 1 {
        Step::S2
    } else if i == 2 {
        Step::S3
    } else if i == 3 {
        Step::S4
    } else if i == 4 {
        Step::S5
    } else {
        Step::S6
    }
}

/// The step that drives the rotor out of `sector`: the one after it in the
/// commutation order.
pub fn commutation_step(sector: usize) -> (s: Step)
    requires
        sector < usize::MAX,
    ensures
        s == step_at((sector + 1) % 6),
{
    let next = (sector + 1) % 6;
    if next == 0 {
        Step::S1
    } else if next == 1 {
        Step::S2
    } else if next == 2 {
        Step::S3
    } else if next == 3 {
        Step::S4
    } else if next == 4 {
        Step::S5
    } else {
        Step::S6
    }
}

/// Five hall codes name a sector each, no two the same sector; codes 0, 1
/// and 7 (and every code past 7) name none, and no code names `Sector0`.
pub proof fn lemma_hall_table()
    ensures
        forall|x: int, y: int|
            #[trigger] sector_of_code(x) == #[trigger] sector_of_code(y) && sector_of_code(
                x,
            ) is Some ==> x == y,
        forall|x: int| (#[trigger] sector_of_code(x)) is Some <==> 2 <= x <= 6,
        forall|x: int| #[trigger] sector_of_code(x) != Some(Sector::Sector0),
{
}

} // verus!
