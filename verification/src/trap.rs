//! Decisions of the motor control loops: answering host commands, the
//! alignment phase, six-step commutation with a speed-seeking duty ramp,
//! and the timing of field-oriented control updates.
//!
//! Measuring angles and speed and driving the power stage are done by the
//! caller; these functions decide what to do with the results.
use vstd::prelude::*;
use crate::control::{commutation_step, step_at, Step};
use crate::protocol::{Command, Response, State};

verus! {

/// Duty (timer counts) the six-step loop starts from.
pub const START_PWM: u32 = 10;

/// Largest duty the speed ramp reaches.
pub const MAX_RAMP_PWM: u32 = 800;

/// Duty used while aligning the rotor (steps S1, then S2).
pub const ALIGN_PWM: u32 = 300;

/// Number of counted updates between two speed reports.
pub const REPORT_EVERY: u32 = 1000;

/// Phase of a control loop.
#[derive(Debug, Clone, Copy, PartialEq, Eq, Structural)]
pub enum DriverState {
    Align,
    Run,
}

/// Where the measured speed lies relative to the target band
/// (target ± 0.1 rad/s).
#[derive(Debug, Clone, Copy, PartialEq, Eq, Structural)]
pub enum VelocityBand {
    Below,
    Within,
    Above,
}

/// The reply to a host command: the response to send and, when the power
/// stage outputs must change, whether they are enabled.
#[derive(Debug, Clone, Copy, PartialEq, Eq, Structural)]
pub struct CommandReply {
    pub outputs: Option<bool>,
    pub response: Response,
}

/// What one tick of the running six-step loop applies.
#[derive(Debug, Clone, Copy, PartialEq, Eq, Structural)]
pub struct TrapTick {
    pub step: Step,
    pub pwm: u32,
    pub report: bool,
}

/// State of the six-step control loop.
pub struct TrapController {
    pub run: bool,
    pub state: DriverState,
    pub pwm: u32,
    pub updates: u32,
}

/// The controller after a host command.
pub open spec fn after_command(c: TrapController, cmd: Command) -> TrapController {
    match cmd {
        Command::Stop => TrapController { run: false, pwm: 0, ..c },
        Command::Start => TrapController { run: true, ..c },
        _ => c,
    }
}

/// The answer to a host command.
pub open spec fn command_reply(c: TrapController, cmd: Command) -> CommandReply {
    match cmd {
        Command::Stop => CommandReply { outputs: Some(false), response: Response::Ack },
        Command::Start => CommandReply { outputs: Some(true), response: Response::Ack },
        Command::Status => CommandReply {
            outputs: None,
            response: Response::CyclicStatus {
                state: if c.run {
                    State::Running
                } else {
                    State::Idle
                },
            },
        },
        Command::SetCyclic(_) => CommandReply { outputs: None, response: Response::Ack },
    }
}

/// What the six-step loop does next.
#[derive(Debug, Clone, Copy, PartialEq, Eq, Structural)]
pub enum TrapPhase {
    Wait,
    Align,
    Drive,
}

/// What one tick of the six-step loop does.
#[derive(Debug, Clone, Copy, PartialEq, Eq, Structural)]
pub enum TrapAction {
    /// Stopped: drive nothing and wait.
    Wait,
    /// Running but not aligned: align the rotor first.
    Align,
    /// Apply this step and duty.
    Drive(TrapTick),
}

pub open spec fn trap_phase(c: TrapController) -> TrapPhase {
    if !c.run {
        TrapPhase::Wait
    } else if c.state == DriverState::Align {
        TrapPhase::Align
    } else {
        TrapPhase::Drive
    }
}

pub open spec fn counted_updates(updates: u32, angle_received: bool) -> int {
    updates + (if angle_received { 1int } else { 0 })
}

/// Step, duty and report of a commutation tick at duty `pwm`.
pub open spec fn drive_tick(pwm: u32, updates: u32, angle_received: bool, sector: Option<usize>) -> TrapTick {
    TrapTick {
        step: match sector {
            Some(s) => step_at((s + 1) % 6),
            None => Step::S1,
        },
        pwm: match sector {
            Some(_) => pwm,
            None => 0,
        },
        report: counted_updates(updates, angle_received) >= REPORT_EVERY,
    }
}

/// The duty after one count towards the target speed.
pub open spec fn ramped(pwm: u32, band: VelocityBand) -> u32 {
    match band {
        VelocityBand::Below => if pwm < MAX_RAMP_PWM {
            (pwm + 1) as u32
        } else {
            pwm
        },
        VelocityBand::Above => if pwm > 1 {
            (pwm - 1) as u32
        } else {
            pwm
        },
        VelocityBand::Within => pwm,
    }
}

pub open spec fn tick_action(
    c: TrapController,
    angle_received: bool,
    sector: Option<usize>,
    band: VelocityBand,
) -> TrapAction {
    match trap_phase(c) {
        TrapPhase::Wait => TrapAction::Wait,
        TrapPhase::Align => TrapAction::Align,
        TrapPhase::Drive => TrapAction::Drive(drive_tick(c.pwm, c.updates, angle_received, sector)),
    }
}

pub open spec fn after_tick(
    c: TrapController,
    angle_received: bool,
    sector: Option<usize>,
    band: VelocityBand,
) -> TrapController {
    match trap_phase(c) {
        TrapPhase::Drive => {
            let t = drive_tick(c.pwm, c.updates, angle_received, sector);
            TrapController {
                pwm: ramped(c.pwm, band),
                updates: if t.report {
                    0
                } else {
                    counted_updates(c.updates, angle_received) as u32
                },
                ..c
            }
        },
        _ => c,
    }
}

/// The status reply tells what the last start or stop did: after `Start`
/// the loop reports `Running`, after `Stop` it reports `Idle` with its
/// outputs switched off and no duty; a status query changes nothing, and
/// only `Start` and `Stop` touch the outputs.
pub proof fn lemma_status_follows_start_stop(c: TrapController, cmd: Command)
    ensures
        command_reply(after_command(c, Command::Start), Command::Status).response
            == (Response::CyclicStatus { state: State::Running }),
        command_reply(after_command(c, Command::Stop), Command::Status).response
            == (Response::CyclicStatus { state: State::Idle }),
        after_command(c, Command::Stop).pwm == 0,
        command_reply(c, Command::Stop).outputs == Some(false),
        after_command(c, Command::Status) == c,
        command_reply(c, cmd).outputs is Some <==> (cmd == Command::Start || cmd == Command::Stop),
{
}

impl TrapController {
    /// The duty never exceeds the ramp limit and the update counter stays
    /// below the report period.
    pub open spec fn wf(&self) -> bool {
        self.pwm <= MAX_RAMP_PWM && self.updates < REPORT_EVERY
    }

    pub fn new() -> (c: TrapController)
        ensures
            c.wf(),
            !c.run,
            c.state == DriverState::Align,
            c.pwm == START_PWM,
            c.updates == 0,
    {
        TrapController { run: false, state: DriverState::Align, pwm: START_PWM, updates: 0 }
    }

    /// Answers a host command. `Stop` halts the loop, disables the outputs
    /// and zeroes the duty; `Start` enables them and runs; `Status` reports
    /// whether the loop runs; every command is answered exactly once.
    pub fn handle_command(&mut self, cmd: Command) -> (r: CommandReply)
        requires
            old(self).wf(),
        ensures
            final(self).wf(),
            *final(self) == after_command(*old(self), cmd),
            r == command_reply(*old(self), cmd),
    {
        match cmd {
            Command::Stop => {
                self.run = false;
                self.pwm = 0;
                CommandReply { outputs: Some(false), response: Response::Ack }
            },
            Command::Start => {
                self.run = true;
                CommandReply { outputs: Some(true), response: Response::Ack }
            },
            Command::Status => {
                let state = if self.run {
                    State::Running
                } else {
                    State::Idle
                };
                CommandReply { outputs: None, response: Response::CyclicStatus { state } }
            },
            Command::SetCyclic(_) => CommandReply { outputs: None, response: Response::Ack },
        }
    }

    /// What the loop does next: wait while stopped, align the rotor once
    /// running, then commutate.
    pub fn phase(&self) -> (p: TrapPhase)
        ensures
            p == trap_phase(*self),
    {
        if !self.run {
            TrapPhase::Wait
        } else if matches!(self.state, DriverState::Align) {
            TrapPhase::Align
        } else {
            TrapPhase::Drive
        }
    }

    /// Alignment is done; commutation starts.
    pub fn finish_align(&mut self)
        requires
            old(self).wf(),
        ensures
            final(self).wf(),
            final(self).state == DriverState::Run,
            final(self).run == old(self).run,
            final(self).pwm == old(self).pwm,
            final(self).updates == old(self).updates,
    {
        self.state = DriverState::Run;
    }

    /// One tick of the loop. While stopped, or before alignment, nothing is
    /// driven and nothing changes. Otherwise a fresh angle reading counts as
    /// an update; with a current rotor sector the next step is applied at
    /// the current duty, with a stale sensor step S1 at duty 0; the duty then
    /// moves one count towards the target speed, staying within
    /// `1..=MAX_RAMP_PWM` when it moves; every `REPORT_EVERY` updates a
    /// speed report is due.
    pub fn run_tick(&mut self, angle_received: bool, sector: Option<usize>, band: VelocityBand) -> (a: TrapAction)
        requires
            old(self).wf(),
            sector matches Some(s) ==> s < usize::MAX,
        ensures
            final(self).wf(),
            a == tick_action(*old(self), angle_received, sector, band),
            *final(self) == after_tick(*old(self), angle_received, sector, band),
    {
        if !self.run {
            return TrapAction::Wait;
        }
        if matches!(self.state, DriverState::Align) {
            return TrapAction::Align;
        }
        if angle_received {
            self.updates = self.updates + 1;
        }
        let (step, pwm) = match sector {
            Some(s) => (commutation_step(s), self.pwm),
            None => (Step::S1, 0),
        };
        match band {
            VelocityBand::Below => {
                if self.pwm < MAX_RAMP_PWM {
                    self.pwm = self.pwm + 1;
                }
            },
            VelocityBand::Above => {
                if self.pwm > 1 {
                    self.pwm = self.pwm - 1;
                }
            },
            VelocityBand::Within => {},
        }
        let report = self.updates >= REPORT_EVERY;
        if report {
            self.updates = 0;
        }
        TrapAction::Drive(TrapTick { step, pwm, report })
    }
}

/// While the loop is stopped nothing is driven and a tick changes nothing;
/// only `Start` sets it running and `Stop` always stops it, switching the
/// outputs off and zeroing the duty. So from a `Stop` until the next
/// `Start` the power stage is never driven.
pub proof fn lemma_stopped_drives_nothing(
    c: TrapController,
    cmd: Command,
    angle_received: bool,
    sector: Option<usize>,
    band: VelocityBand,
)
    ensures
        !c.run ==> tick_action(c, angle_received, sector, band) == TrapAction::Wait
            && after_tick(c, angle_received, sector, band) == c,
        after_command(c, cmd).run <==> (cmd == Command::Start || (c.run && cmd
            != Command::Stop)),
        !after_command(c, Command::Stop).run && after_command(c, Command::Stop).pwm == 0
            && command_reply(c, Command::Stop).outputs == Some(false),
        command_reply(c, Command::Start).outputs == Some(true),
{
}

/// The duty never leaves `0..=MAX_RAMP_PWM`, whatever the commands, sensor
/// readings and speeds; a tick moves it by at most one count, up only when
/// below the target speed and under the limit, down only when above it
/// and above 1; `Stop` resets it to 0.
pub proof fn lemma_duty_bounded(
    c: TrapController,
    cmd: Command,
    angle_received: bool,
    sector: Option<usize>,
    band: VelocityBand,
)
    requires
        c.wf(),
    ensures
        after_command(c, cmd).wf(),
        after_tick(c, angle_received, sector, band).wf(),
        ({
            let p = after_tick(c, angle_received, sector, band).pwm;
            &&& p == c.pwm || p == c.pwm + 1 || p == c.pwm - 1
            &&& p == c.pwm + 1 ==> band == VelocityBand::Below && c.pwm < MAX_RAMP_PWM
            &&& p == c.pwm - 1 ==> band == VelocityBand::Above && c.pwm > 1
        }),
        tick_action(c, angle_received, sector, band) matches TrapAction::Drive(t) ==> t.pwm
            <= MAX_RAMP_PWM,
{
}

/// Commutation pushes the rotor on: with the rotor in sector `s` the tick
/// drives the step after it in the cycle S1 → S2 → … → S6 → S1 (sector 0
/// gives S2, sector 5 wraps round to S1) at the current duty; with no
/// current sector it drives S1 at duty 0. This holds for the running
/// six-step loop and for every tick of the open-loop ramp.
pub proof fn lemma_drive_follows_rotor(
    c: TrapController,
    pwm: u32,
    updates: u32,
    angle_received: bool,
    s: usize,
    band: VelocityBand,
)
    ensures
        ({
            let t = drive_tick(pwm, updates, angle_received, Some(s));
            &&& t.pwm == pwm
            &&& s % 6 == 0 ==> t.step == Step::S2
            &&& s % 6 == 1 ==> t.step == Step::S3
            &&& s % 6 == 2 ==> t.step == Step::S4
            &&& s % 6 == 3 ==> t.step == Step::S5
            &&& s % 6 == 4 ==> t.step == Step::S6
            &&& s % 6 == 5 ==> t.step == Step::S1
        }),
        drive_tick(pwm, updates, angle_received, None).step == Step::S1,
        drive_tick(pwm, updates, angle_received, None).pwm == 0,
        c.run && c.state == DriverState::Run ==> (tick_action(c, angle_received, Some(s), band)
            matches TrapAction::Drive(t) && t.pwm == c.pwm && (s % 6 == 5 ==> t.step == Step::S1)
            && (s % 6 == 0 ==> t.step == Step::S2) && (s % 6 == 1 ==> t.step == Step::S3) && (s
            % 6 == 2 ==> t.step == Step::S4) && (s % 6 == 3 ==> t.step == Step::S5) && (s % 6
            == 4 ==> t.step == Step::S6)),
{
    assert((s + 1) % 6 == (s % 6 + 1) % 6);
}

/// Only angle readings count towards a speed report. A tick without a fresh
/// reading leaves the count as it was and reports nothing; a tick with one
/// adds one to the count, and the report falls due exactly when the count
/// reaches `REPORT_EVERY`, which starts the count again from zero.
pub proof fn lemma_reports_count_readings(
    c: TrapController,
    l: OpenLoop,
    angle_received: bool,
    sector: Option<usize>,
    band: VelocityBand,
)
    requires
        c.wf(),
        l.wf(),
    ensures
        !drive_tick(c.pwm, c.updates, false, sector).report,
        after_tick(c, false, sector, band).updates == c.updates,
        c.run && c.state == DriverState::Run ==> after_tick(c, true, sector, band).updates == (if c.updates
            + 1 == REPORT_EVERY {
            0
        } else {
            c.updates + 1
        }),
        drive_tick(c.pwm, c.updates, true, sector).report <==> c.updates + 1 == REPORT_EVERY,
        open_loop_step(l, false, sector).0 == l,
        !open_loop_step(l, false, sector).1.report,
        open_loop_step(l, true, sector).1.report <==> l.updates + 1 == REPORT_EVERY,
        open_loop_step(l, true, sector).0.updates == (if l.updates + 1 == REPORT_EVERY {
            0
        } else {
            l.updates + 1
        }),
        open_loop_step(l, angle_received, sector).0.pwm == (if angle_received && l.updates + 1
            == REPORT_EVERY && l.pwm < RAMP_CEILING {
            l.pwm + RAMP_STEP
        } else {
            l.pwm as int
        }),
{
}

/// How the loop answers the host. A `SetCyclic` request, whatever its flag,
/// is acknowledged with `Ack`, touches no output and leaves the controller
/// exactly as it was; only a `Status` request is answered with a status,
/// which says `Running` exactly when the loop runs. No command sends the
/// loop back to alignment or changes its update count, and only `Stop`
/// changes the duty.
pub proof fn lemma_command_answers(c: TrapController, cmd: Command, b: bool)
    ensures
        command_reply(c, Command::SetCyclic(b)) == (CommandReply {
            outputs: None,
            response: Response::Ack,
        }),
        after_command(c, Command::SetCyclic(b)) == c,
        after_command(c, Command::Status) == c,
        command_reply(c, cmd).response is CyclicStatus <==> cmd == Command::Status,
        command_reply(c, Command::Status).response == (Response::CyclicStatus {
            state: if c.run {
                State::Running
            } else {
                State::Idle
            },
        }),
        cmd != Command::Status ==> command_reply(c, cmd).response == Response::Ack,
        after_command(c, cmd).state == c.state,
        after_command(c, cmd).updates == c.updates,
        cmd != Command::Stop ==> after_command(c, cmd).pwm == c.pwm,
{
}

/// The open-loop ramp: after alignment it commutates like the six-step
/// loop, and at every speed report raises the duty by `RAMP_STEP` while it
/// is below `RAMP_CEILING`.
pub struct OpenLoop {
    pub state: DriverState,
    pub pwm: u32,
    pub updates: u32,
}

/// Duty increase of the open-loop ramp at each report.
pub const RAMP_STEP: u32 = 20;

/// The open-loop ramp stops raising the duty from this value on.
pub const RAMP_CEILING: u32 = 300;

/// The open-loop ramp after one tick, and what the tick applies.
pub open spec fn open_loop_step(l: OpenLoop, angle_received: bool, sector: Option<usize>) -> (
    OpenLoop,
    TrapTick,
) {
    let t = drive_tick(l.pwm, l.updates, angle_received, sector);
    (
        OpenLoop {
            state: l.state,
            pwm: if t.report && l.pwm < RAMP_CEILING {
                (l.pwm + RAMP_STEP) as u32
            } else {
                l.pwm
            },
            updates: if t.report {
                0
            } else {
                counted_updates(l.updates, angle_received) as u32
            },
        },
        t,
    )
}

impl OpenLoop {
    pub open spec fn wf(&self) -> bool {
        self.pwm < RAMP_CEILING + RAMP_STEP && self.updates < REPORT_EVERY
    }

    pub fn new() -> (l: OpenLoop)
        ensures
            l.wf(),
            l.state == DriverState::Align,
            l.pwm == START_PWM,
            l.updates == 0,
    {
        OpenLoop { state: DriverState::Align, pwm: START_PWM, updates: 0 }
    }

    pub fn finish_align(&mut self)
        ensures
            final(self).state == DriverState::Run,
            final(self).pwm == old(self).pwm,
            final(self).updates == old(self).updates,
    {
        self.state = DriverState::Run;
    }

    /// One tick of the running ramp: the step and report are those of
    /// [`TrapController::run_tick`]; at a report the duty rises by
    /// `RAMP_STEP` while below `RAMP_CEILING`.
    pub fn tick(&mut self, angle_received: bool, sector: Option<usize>) -> (t: TrapTick)
        requires
            old(self).wf(),
            sector matches Some(s) ==> s < usize::MAX,
        ensures
            final(self).wf(),
            final(self).state == old(self).state,
            t == drive_tick(old(self).pwm, old(self).updates, angle_received, sector),
            final(self).updates == (if t.report {
                0
            } else {
                counted_updates(old(self).updates, angle_received)
            }),
            final(self).pwm == (if t.report && old(self).pwm < RAMP_CEILING {
                old(self).pwm + RAMP_STEP
            } else {
                old(self).pwm as int
            }),
            (*final(self), t) == open_loop_step(*old(self), angle_received, sector),
    {
        if angle_received {
            self.updates = self.updates + 1;
        }
        let (step, pwm) = match sector {
            Some(s) => (commutation_step(s), self.pwm),
            None => (Step::S1, 0),
        };
        let report = self.updates >= REPORT_EVERY;
        if report {
            self.updates = 0;
            if self.pwm < RAMP_CEILING {
                self.pwm = self.pwm + RAMP_STEP;
            }
        }
        let t = TrapTick { step, pwm, report };
        assert((*self, t) == open_loop_step(*old(self), angle_received, sector));
        t
    }
}

/// What one tick of the running field-oriented loop decides.
#[derive(Debug, Clone, Copy, PartialEq, Eq, Structural)]
pub struct FocTick {
    /// Run the current controller over this many clock ticks and apply its
    /// duties.
    pub update_dt: Option<u64>,
    pub report: bool,
}

/// State of the field-oriented control loop.
pub struct FocLoop {
    pub state: DriverState,
    pub updates: u32,
    pub last_update: Option<u64>,
}

impl FocLoop {
    pub open spec fn wf(&self) -> bool {
        self.updates < REPORT_EVERY
    }

    pub fn new() -> (l: FocLoop)
        ensures
            l.wf(),
            l.state == DriverState::Align,
            l.updates == 0,
            l.last_update is None,
    {
        FocLoop { state: DriverState::Align, updates: 0, last_update: None }
    }

    pub fn finish_align(&mut self)
        ensures
            final(self).state == DriverState::Run,
            final(self).updates == old(self).updates,
            final(self).last_update == old(self).last_update,
    {
        self.state = DriverState::Run;
    }

    /// One tick at time `now`. A fresh angle reading counts as an update.
    /// When a current sample and a rotor angle are both at hand, the first
    /// such tick only records the time; later ones run the controller over
    /// the time since the previous one, which also counts as an update.
    pub fn run_tick(&mut self, angle_received: bool, sample_ready: bool, now: u64) -> (t: FocTick)
        requires
            old(self).wf(),
            old(self).last_update matches Some(p) ==> p <= now,
        ensures
            final(self).wf(),
            final(self).state == old(self).state,
            final(self).last_update == (if sample_ready {
                Some(now)
            } else {
                old(self).last_update
            }),
            t.update_dt == (if sample_ready && old(self).last_update is Some {
                Some((now - old(self).last_update->0) as u64)
            } else {
                None::<u64>
            }),
            ({
                let counted = old(self).updates + (if angle_received { 1int } else { 0 }) + (
                if t.update_dt is Some {
                    1int
                } else {
                    0
                });
                &&& t.report == (counted >= REPORT_EVERY)
                &&& final(self).updates == (if t.report { 0 } else { counted })
            }),
    {
        if angle_received {
            self.updates = self.updates + 1;
        }
        let mut update_dt: Option<u64> = None;
        if sample_ready {
            match self.last_update {
                Some(previous) => {
                    update_dt = Some(now - previous);
                    self.updates = self.updates + 1;
                },
                None => {},
            }
            self.last_update = Some(now);
        }
        let report = self.updates >= REPORT_EVERY;
        if report {
            self.updates = 0;
        }
        FocTick { update_dt, report }
    }
}

} // verus!
