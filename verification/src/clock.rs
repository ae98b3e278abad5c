//! The phase clock: the ordered cycle of timed phases and the single countdown
//! that is active at any moment.
//!
//! Time is counted in whole microseconds. A countdown that exists is still
//! running; the tick on which it reaches its duration ends it, and the clock
//! moves to the next phase of the cycle with a fresh countdown.

use vstd::prelude::*;
use crate::fraction::{Fraction, Ratio};

verus! {

/// The unit of time is the microsecond.
pub const MICROS_PER_SECOND: u64 = 1_000_000;

/// Assumed reading rate, in hundredths of a character per second: words of
/// 4.7 characters on average, read at 18 words a second.
pub const READING_RATE_HUNDREDTHS: u64 = 8460;

/// Length of one sweep of the pointer animation that runs while the player
/// waits for a choice.
pub const SWEEP_PERIOD_US: u64 = 1_000_000;

/// Number of steps in one sweep.
pub const SWEEP_STEPS: u64 = 4;

/// Estimated time to read `chars` characters, in microseconds:
/// `(chars / mean word length) / reading speed` seconds, which is `chars`
/// over the reading rate, rounded down and capped at the largest duration the
/// clock can hold.
pub open spec fn text_duration(chars: nat) -> nat {
    let micros = (chars * 100_000_000) / (READING_RATE_HUNDREDTHS as nat);
    if micros > u64::MAX {
        u64::MAX as nat
    } else {
        micros
    }
}

/// Time to bring in `count` choices at `per_choice` microseconds each, capped
/// at the largest duration the clock can hold.
pub open spec fn choices_duration(count: nat, per_choice: nat) -> nat {
    if count * per_choice > u64::MAX {
        u64::MAX as nat
    } else {
        count * per_choice
    }
}

/// Estimated reading time of a description of `description_chars` characters.
pub fn reveal_text_duration(description_chars: usize) -> (micros: u64)
    ensures
        micros == text_duration(description_chars as nat),
{
    let scaled: u128 = (description_chars as u128) * 100_000_000u128;
    let micros: u128 = scaled / (READING_RATE_HUNDREDTHS as u128);
    if micros > u64::MAX as u128 {
        u64::MAX
    } else {
        micros as u64
    }
}

/// Time to bring in `count` choices, `per_choice_us` microseconds each.
pub fn reveal_choices_duration(count: usize, per_choice_us: u64) -> (micros: u64)
    ensures
        micros == choices_duration(count as nat, per_choice_us as nat),
{
    proof {
        assert(count * per_choice_us <= 0xffff_ffff_ffff_ffff * 0xffff_ffff_ffff_ffff)
            by (nonlinear_arith)
            requires
                0 <= count <= 0xffff_ffff_ffff_ffff,
                0 <= per_choice_us <= 0xffff_ffff_ffff_ffff,
        ;
    }
    let total: u128 = (count as u128) * (per_choice_us as u128);
    if total > u64::MAX as u128 {
        u64::MAX
    } else {
        total as u64
    }
}

/// The mathematical state of a [`Countdown`].
pub struct CountdownModel {
    pub elapsed: nat,
    pub duration: nat,
}

impl CountdownModel {
    /// A countdown is running while it has not reached its duration. One of
    /// duration zero runs until its first tick.
    pub open spec fn running(self) -> bool {
        self.elapsed < self.duration || (self.duration == 0 && self.elapsed == 0)
    }

    /// A countdown of `duration` with nothing elapsed.
    pub open spec fn fresh(duration: nat) -> CountdownModel {
        CountdownModel { elapsed: 0, duration }
    }

    /// Whether a tick of `dt` brings the countdown to its end.
    pub open spec fn completes(self, dt: nat) -> bool {
        self.elapsed + dt >= self.duration
    }

    /// The countdown after a tick of `dt` that does not end it.
    pub open spec fn after(self, dt: nat) -> CountdownModel {
        CountdownModel { elapsed: self.elapsed + dt, duration: self.duration }
    }

    /// Elapsed time over duration, clamped to the unit interval.
    pub open spec fn fraction(self) -> Ratio {
        Ratio::of(self.elapsed, self.duration)
    }
}

/// A one-shot countdown that is still running.
#[derive(Clone, Copy, Debug)]
pub struct Countdown {
    elapsed: u64,
    duration: u64,
}

impl View for Countdown {
    type V = CountdownModel;

    closed spec fn view(&self) -> CountdownModel {
        CountdownModel { elapsed: self.elapsed as nat, duration: self.duration as nat }
    }
}

impl Countdown {
    #[verifier::type_invariant]
    spec fn still_running(self) -> bool {
        self.elapsed < self.duration || (self.duration == 0 && self.elapsed == 0)
    }

    /// A countdown of `duration_us` microseconds, with nothing elapsed.
    pub fn new(duration_us: u64) -> (c: Countdown)
        ensures
            c@ == CountdownModel::fresh(duration_us as nat),
    {
        Countdown { elapsed: 0, duration: duration_us }
    }

    /// Moves the countdown on by `dt_us`. Returns `None` when that reaches its
    /// duration, and the countdown with the time added otherwise.
    pub fn tick(self, dt_us: u64) -> (next: Option<Countdown>)
        ensures
            self@.running(),
            next is None <==> self@.completes(dt_us as nat),
            next matches Some(c) ==> c@ == self@.after(dt_us as nat),
    {
        proof {
            use_type_invariant(self);
        }
        if dt_us >= self.duration - self.elapsed {
            None
        } else {
            Some(Countdown { elapsed: self.elapsed + dt_us, duration: self.duration })
        }
    }

    /// Elapsed time over duration.
    pub fn fraction(&self) -> (f: Fraction)
        ensures
            self@.running(),
            f@ == self@.fraction(),
            f@.wf(),
    {
        proof {
            use_type_invariant(self);
        }
        Fraction::of(self.elapsed, self.duration)
    }

    /// Microseconds elapsed, always short of the duration.
    pub fn elapsed_us(&self) -> (t: u64)
        ensures
            t == self@.elapsed,
            self@.running(),
    {
        proof {
            use_type_invariant(self);
        }
        self.elapsed
    }

    /// Microseconds from start to end.
    pub fn duration_us(&self) -> (t: u64)
        ensures
            t == self@.duration,
            self@.running(),
    {
        proof {
            use_type_invariant(self);
        }
        self.duration
    }
}

/// The mathematical state of a [`Sweep`]: time into the current period.
pub struct SweepModel {
    pub elapsed: nat,
}

impl SweepModel {
    /// A sweep is always short of its period.
    pub open spec fn wf(self) -> bool {
        self.elapsed < SWEEP_PERIOD_US
    }

    /// A sweep at its start.
    pub open spec fn fresh() -> SweepModel {
        SweepModel { elapsed: 0 }
    }

    /// The sweep after `dt`, wrapped round at the period.
    pub open spec fn after(self, dt: nat) -> SweepModel {
        SweepModel { elapsed: (self.elapsed + dt) % (SWEEP_PERIOD_US as nat) }
    }

    /// The step of the animation the sweep is in.
    pub open spec fn step(self) -> nat {
        (self.elapsed * SWEEP_STEPS as nat) / (SWEEP_PERIOD_US as nat)
    }
}

/// A repeating timer with no bearing on the phase cycle: it drives the pointer
/// animation beside the hovered choice.
#[derive(Clone, Copy, Debug)]
pub struct Sweep {
    elapsed: u64,
}

impl View for Sweep {
    type V = SweepModel;

    closed spec fn view(&self) -> SweepModel {
        SweepModel { elapsed: self.elapsed as nat }
    }
}

impl Sweep {
    #[verifier::type_invariant]
    spec fn within_period(self) -> bool {
        self.elapsed < SWEEP_PERIOD_US
    }

    /// A sweep at its start.
    pub fn new() -> (s: Sweep)
        ensures
            s@ == SweepModel::fresh(),
    {
        Sweep { elapsed: 0 }
    }

    /// Moves the sweep on by `dt_us` microseconds, round and round.
    pub fn tick(self, dt_us: u64) -> (next: Sweep)
        ensures
            self@.wf(),
            next@ == self@.after(dt_us as nat),
            next@.wf(),
    {
        proof {
            use_type_invariant(self);
        }
        let total: u128 = self.elapsed as u128 + dt_us as u128;
        let wrapped: u128 = total % (SWEEP_PERIOD_US as u128);
        Sweep { elapsed: wrapped as u64 }
    }

    /// The step of the animation, from 0 to `SWEEP_STEPS - 1`.
    pub fn step(&self) -> (k: usize)
        ensures
            self@.wf(),
            k == self@.step(),
            k < SWEEP_STEPS,
    {
        proof {
            use_type_invariant(self);
        }
        let k: u64 = (self.elapsed * SWEEP_STEPS) / SWEEP_PERIOD_US;
        k as usize
    }
}

/// Durations of the phases that do not depend on the slide, in microseconds.
#[derive(Clone, Copy, Debug)]
pub struct Timing {
    /// Fading the background in.
    pub bg_fade_in_us: u64,
    /// Each of the two pauses: after the background, and after the text.
    pub pause_us: u64,
    /// Bringing in one choice.
    pub per_choice_us: u64,
    /// Fading text and choices out.
    pub fade_out_us: u64,
    /// Fading the background out.
    pub bg_fade_out_us: u64,
}

impl Timing {
    /// The stock timing: 1.5 s background fade-in, 0.1 s pauses, 0.1 s per
    /// choice, 0.5 s text fade-out, 1 s background fade-out.
    pub open spec fn standard() -> Timing {
        Timing {
            bg_fade_in_us: 1_500_000,
            pause_us: 100_000,
            per_choice_us: 100_000,
            fade_out_us: 500_000,
            bg_fade_out_us: 1_000_000,
        }
    }

    /// The stock timing.
    pub fn new() -> (t: Timing)
        ensures
            t == Timing::standard(),
    {
        Timing {
            bg_fade_in_us: 1_500_000,
            pause_us: 100_000,
            per_choice_us: 100_000,
            fade_out_us: 500_000,
            bg_fade_out_us: 1_000_000,
        }
    }
}

/// What the clock needs to know of the slide on show.
#[derive(Clone, Copy, Debug)]
pub struct SlideContext {
    /// Number of characters in the description.
    pub description_chars: usize,
    /// Number of choices.
    pub choice_count: usize,
}

/// The nine phases, without their timers.
#[derive(Clone, Copy, Debug, PartialEq, Eq, Structural)]
pub enum PhaseKind {
    FadeInBackground,
    PauseAfterBackground,
    FadeInText,
    PauseAfterText,
    FadeInChoices,
    WaitingForInput,
    GotInput,
    FadeOutTextAndChoices,
    FadeOutBackground,
}

impl PhaseKind {
    /// Position in the cycle, from 0.
    pub open spec fn ordinal(self) -> nat {
        match self {
            PhaseKind::FadeInBackground => 0,
            PhaseKind::PauseAfterBackground => 1,
            PhaseKind::FadeInText => 2,
            PhaseKind::PauseAfterText => 3,
            PhaseKind::FadeInChoices => 4,
            PhaseKind::WaitingForInput => 5,
            PhaseKind::GotInput => 6,
            PhaseKind::FadeOutTextAndChoices => 7,
            PhaseKind::FadeOutBackground => 8,
        }
    }

    /// The phase that follows in the cycle; the last is followed by the first.
    pub open spec fn successor(self) -> PhaseKind {
        match self {
            PhaseKind::FadeInBackground => PhaseKind::PauseAfterBackground,
            PhaseKind::PauseAfterBackground => PhaseKind::FadeInText,
            PhaseKind::FadeInText => PhaseKind::PauseAfterText,
            PhaseKind::PauseAfterText => PhaseKind::FadeInChoices,
            PhaseKind::FadeInChoices => PhaseKind::WaitingForInput,
            PhaseKind::WaitingForInput => PhaseKind::GotInput,
            PhaseKind::GotInput => PhaseKind::FadeOutTextAndChoices,
            PhaseKind::FadeOutTextAndChoices => PhaseKind::FadeOutBackground,
            PhaseKind::FadeOutBackground => PhaseKind::FadeInBackground,
        }
    }
}

/// What one call of `advance` did.
#[derive(Clone, Copy, Debug, PartialEq, Eq, Structural)]
pub enum PhaseSignal {
    /// The clock is waiting for input: no phase timer moved.
    NoOp,
    /// The active countdown moved on and has not ended.
    Running,
    /// The active phase ended and the clock entered the next one.
    PhaseCompleted,
}

/// The mathematical state of a [`Phase`].
pub enum PhaseModel {
    FadeInBackground(CountdownModel),
    PauseAfterBackground(CountdownModel),
    FadeInText(CountdownModel),
    PauseAfterText(CountdownModel),
    FadeInChoices(CountdownModel),
    WaitingForInput(SweepModel),
    GotInput,
    FadeOutTextAndChoices(CountdownModel),
    FadeOutBackground(CountdownModel),
}

impl PhaseModel {
    /// Which of the nine phases this is.
    pub open spec fn kind(self) -> PhaseKind {
        match self {
            PhaseModel::FadeInBackground(_) => PhaseKind::FadeInBackground,
            PhaseModel::PauseAfterBackground(_) => PhaseKind::PauseAfterBackground,
            PhaseModel::FadeInText(_) => PhaseKind::FadeInText,
            PhaseModel::PauseAfterText(_) => PhaseKind::PauseAfterText,
            PhaseModel::FadeInChoices(_) => PhaseKind::FadeInChoices,
            PhaseModel::WaitingForInput(_) => PhaseKind::WaitingForInput,
            PhaseModel::GotInput => PhaseKind::GotInput,
            PhaseModel::FadeOutTextAndChoices(_) => PhaseKind::FadeOutTextAndChoices,
            PhaseModel::FadeOutBackground(_) => PhaseKind::FadeOutBackground,
        }
    }

    /// The countdown of a timed phase.
    pub open spec fn countdown(self) -> Option<CountdownModel> {
        match self {
            PhaseModel::FadeInBackground(c) => Some(c),
            PhaseModel::PauseAfterBackground(c) => Some(c),
            PhaseModel::FadeInText(c) => Some(c),
            PhaseModel::PauseAfterText(c) => Some(c),
            PhaseModel::FadeInChoices(c) => Some(c),
            PhaseModel::WaitingForInput(_) => None,
            PhaseModel::GotInput => None,
            PhaseModel::FadeOutTextAndChoices(c) => Some(c),
            PhaseModel::FadeOutBackground(c) => Some(c),
        }
    }

    /// The phase of kind `kind` with countdown `c`; the two untimed kinds take
    /// no countdown.
    pub open spec fn timed(kind: PhaseKind, c: CountdownModel) -> PhaseModel {
        match kind {
            PhaseKind::FadeInBackground => PhaseModel::FadeInBackground(c),
            PhaseKind::PauseAfterBackground => PhaseModel::PauseAfterBackground(c),
            PhaseKind::FadeInText => PhaseModel::FadeInText(c),
            PhaseKind::PauseAfterText => PhaseModel::PauseAfterText(c),
            PhaseKind::FadeInChoices => PhaseModel::FadeInChoices(c),
            PhaseKind::WaitingForInput => PhaseModel::WaitingForInput(SweepModel::fresh()),
            PhaseKind::GotInput => PhaseModel::GotInput,
            PhaseKind::FadeOutTextAndChoices => PhaseModel::FadeOutTextAndChoices(c),
            PhaseKind::FadeOutBackground => PhaseModel::FadeOutBackground(c),
        }
    }

    /// The timers of a phase are in range.
    pub open spec fn wf(self) -> bool {
        match self {
            PhaseModel::WaitingForInput(s) => s.wf(),
            PhaseModel::GotInput => true,
            _ => self.countdown()->0.running(),
        }
    }

    /// The phase in which play starts.
    pub open spec fn initial(timing: Timing) -> PhaseModel {
        PhaseModel::FadeInBackground(CountdownModel::fresh(timing.bg_fade_in_us as nat))
    }

    /// The duration with which a phase of kind `kind` is entered.
    pub open spec fn entry_duration(kind: PhaseKind, ctx: SlideContext, timing: Timing) -> nat {
        match kind {
            PhaseKind::FadeInBackground => timing.bg_fade_in_us as nat,
            PhaseKind::PauseAfterBackground => timing.pause_us as nat,
            PhaseKind::FadeInText => text_duration(ctx.description_chars as nat),
            PhaseKind::PauseAfterText => timing.pause_us as nat,
            PhaseKind::FadeInChoices => choices_duration(
                ctx.choice_count as nat,
                timing.per_choice_us as nat,
            ),
            PhaseKind::WaitingForInput => 0,
            PhaseKind::GotInput => 0,
            PhaseKind::FadeOutTextAndChoices => timing.fade_out_us as nat,
            PhaseKind::FadeOutBackground => timing.bg_fade_out_us as nat,
        }
    }

    /// A phase of kind `kind`, as it is when the clock enters it.
    pub open spec fn enter(kind: PhaseKind, ctx: SlideContext, timing: Timing) -> PhaseModel {
        PhaseModel::timed(kind, CountdownModel::fresh(PhaseModel::entry_duration(kind, ctx, timing)))
    }

    /// Whether a tick of `dt` ends the phase. Waiting for input never ends by
    /// a tick; the pass-through after input always does.
    pub open spec fn ends(self, dt: nat) -> bool {
        match self {
            PhaseModel::WaitingForInput(_) => false,
            PhaseModel::GotInput => true,
            _ => self.countdown()->0.completes(dt),
        }
    }

    /// The phase after a tick of `dt`.
    pub open spec fn advance(self, dt: nat, ctx: SlideContext, timing: Timing) -> PhaseModel {
        if self.ends(dt) {
            PhaseModel::enter(self.kind().successor(), ctx, timing)
        } else {
            match self {
                PhaseModel::WaitingForInput(s) => PhaseModel::WaitingForInput(s.after(dt)),
                _ => PhaseModel::timed(self.kind(), self.countdown()->0.after(dt)),
            }
        }
    }

    /// What a tick of `dt` reports.
    pub open spec fn signal(self, dt: nat) -> PhaseSignal {
        if self.ends(dt) {
            PhaseSignal::PhaseCompleted
        } else if self is WaitingForInput {
            PhaseSignal::NoOp
        } else {
            PhaseSignal::Running
        }
    }

    /// The phase after a request to leave: honoured only while waiting for
    /// input.
    pub open spec fn request_transition(self) -> PhaseModel {
        if self is WaitingForInput {
            PhaseModel::GotInput
        } else {
            self
        }
    }
}

/// One phase of playback, with the timer it carries.
#[derive(Clone, Copy, Debug)]
pub enum Phase {
    FadeInBackground(Countdown),
    PauseAfterBackground(Countdown),
    FadeInText(Countdown),
    PauseAfterText(Countdown),
    FadeInChoices(Countdown),
    WaitingForInput(Sweep),
    GotInput,
    FadeOutTextAndChoices(Countdown),
    FadeOutBackground(Countdown),
}

impl View for Phase {
    type V = PhaseModel;

    open spec fn view(&self) -> PhaseModel {
        match *self {
            Phase::FadeInBackground(c) => PhaseModel::FadeInBackground(c@),
            Phase::PauseAfterBackground(c) => PhaseModel::PauseAfterBackground(c@),
            Phase::FadeInText(c) => PhaseModel::FadeInText(c@),
            Phase::PauseAfterText(c) => PhaseModel::PauseAfterText(c@),
            Phase::FadeInChoices(c) => PhaseModel::FadeInChoices(c@),
            Phase::WaitingForInput(s) => PhaseModel::WaitingForInput(s@),
            Phase::GotInput => PhaseModel::GotInput,
            Phase::FadeOutTextAndChoices(c) => PhaseModel::FadeOutTextAndChoices(c@),
            Phase::FadeOutBackground(c) => PhaseModel::FadeOutBackground(c@),
        }
    }
}

impl Phase {
    /// The phase in which play starts: the background begins to fade in.
    pub fn initial(timing: &Timing) -> (p: Phase)
        ensures
            p@ == PhaseModel::initial(*timing),
            p@.wf(),
    {
        Phase::FadeInBackground(Countdown::new(timing.bg_fade_in_us))
    }

    /// Which of the nine phases this is. The timers of a phase are always in
    /// range.
    pub fn kind(&self) -> (k: PhaseKind)
        ensures
            k == self@.kind(),
            self@.wf(),
    {
        match self {
            Phase::FadeInBackground(c) => {
                proof {
                    use_type_invariant(c);
                }
                PhaseKind::FadeInBackground
            },
            Phase::PauseAfterBackground(c) => {
                proof {
                    use_type_invariant(c);
                }
                PhaseKind::PauseAfterBackground
            },
            Phase::FadeInText(c) => {
                proof {
                    use_type_invariant(c);
                }
                PhaseKind::FadeInText
            },
            Phase::PauseAfterText(c) => {
                proof {
                    use_type_invariant(c);
                }
                PhaseKind::PauseAfterText
            },
            Phase::FadeInChoices(c) => {
                proof {
                    use_type_invariant(c);
                }
                PhaseKind::FadeInChoices
            },
            Phase::WaitingForInput(s) => {
                proof {
                    use_type_invariant(s);
                }
                PhaseKind::WaitingForInput
            },
            Phase::GotInput => PhaseKind::GotInput,
            Phase::FadeOutTextAndChoices(c) => {
                proof {
                    use_type_invariant(c);
                }
                PhaseKind::FadeOutTextAndChoices
            },
            Phase::FadeOutBackground(c) => {
                proof {
                    use_type_invariant(c);
                }
                PhaseKind::FadeOutBackground
            },
        }
    }

    /// Moves the phase on by `dt_us` microseconds. The active countdown takes
    /// the time; when that ends it, the next phase of the cycle is entered,
    /// its duration computed from the slide and the timing. Waiting for input
    /// only turns its sweep.
    pub fn advance(self, dt_us: u64, ctx: &SlideContext, timing: &Timing) -> (r: (
        Phase,
        PhaseSignal,
    ))
        ensures
            self@.wf(),
            r.0@ == self@.advance(dt_us as nat, *ctx, *timing),
            r.1 == self@.signal(dt_us as nat),
            r.0@.wf(),
    {
        match self {
            Phase::FadeInBackground(c) => match c.tick(dt_us) {
                Some(c) => (Phase::FadeInBackground(c), PhaseSignal::Running),
                None => (
                    Phase::PauseAfterBackground(Countdown::new(timing.pause_us)),
                    PhaseSignal::PhaseCompleted,
                ),
            },
            Phase::PauseAfterBackground(c) => match c.tick(dt_us) {
                Some(c) => (Phase::PauseAfterBackground(c), PhaseSignal::Running),
                None => (
                    Phase::FadeInText(Countdown::new(reveal_text_duration(ctx.description_chars))),
                    PhaseSignal::PhaseCompleted,
                ),
            },
            Phase::FadeInText(c) => match c.tick(dt_us) {
                Some(c) => (Phase::FadeInText(c), PhaseSignal::Running),
                None => (
                    Phase::PauseAfterText(Countdown::new(timing.pause_us)),
                    PhaseSignal::PhaseCompleted,
                ),
            },
            Phase::PauseAfterText(c) => match c.tick(dt_us) {
                Some(c) => (Phase::PauseAfterText(c), PhaseSignal::Running),
                None => (
                    Phase::FadeInChoices(
                        Countdown::new(
                            reveal_choices_duration(ctx.choice_count, timing.per_choice_us),
                        ),
                    ),
                    PhaseSignal::PhaseCompleted,
                ),
            },
            Phase::FadeInChoices(c) => match c.tick(dt_us) {
                Some(c) => (Phase::FadeInChoices(c), PhaseSignal::Running),
                None => (Phase::WaitingForInput(Sweep::new()), PhaseSignal::PhaseCompleted),
            },
            Phase::WaitingForInput(s) => (Phase::WaitingForInput(s.tick(dt_us)), PhaseSignal::NoOp),
            Phase::GotInput => (
                Phase::FadeOutTextAndChoices(Countdown::new(timing.fade_out_us)),
                PhaseSignal::PhaseCompleted,
            ),
            Phase::FadeOutTextAndChoices(c) => match c.tick(dt_us) {
                Some(c) => (Phase::FadeOutTextAndChoices(c), PhaseSignal::Running),
                None => (
                    Phase::FadeOutBackground(Countdown::new(timing.bg_fade_out_us)),
                    PhaseSignal::PhaseCompleted,
                ),
            },
            Phase::FadeOutBackground(c) => match c.tick(dt_us) {
                Some(c) => (Phase::FadeOutBackground(c), PhaseSignal::Running),
                None => (
                    Phase::FadeInBackground(Countdown::new(timing.bg_fade_in_us)),
                    PhaseSignal::PhaseCompleted,
                ),
            },
        }
    }

    /// Asks the phase to leave for the exit sequence. Honoured only while
    /// waiting for input; in any other phase nothing changes.
    pub fn request_transition(self) -> (r: (Phase, bool))
        ensures
            r.0@ == self@.request_transition(),
            r.1 == (self@ is WaitingForInput),
    {
        match self {
            Phase::WaitingForInput(_) => (Phase::GotInput, true),
            _ => (self, false),
        }
    }
}

/// The mathematical state of a [`PhaseClock`].
pub struct PhaseClockModel {
    pub phase: PhaseModel,
    pub timing: Timing,
}

/// The current phase with its timer, and the durations that the clock gives
/// to the phases it enters.
#[derive(Clone, Copy, Debug)]
pub struct PhaseClock {
    phase: Phase,
    timing: Timing,
}

impl View for PhaseClock {
    type V = PhaseClockModel;

    closed spec fn view(&self) -> PhaseClockModel {
        PhaseClockModel { phase: self.phase@, timing: self.timing }
    }
}

impl PhaseClock {
    /// A clock at the start of the cycle.
    pub fn new(timing: Timing) -> (clock: PhaseClock)
        ensures
            clock@.phase == PhaseModel::initial(timing),
            clock@.timing == timing,
    {
        PhaseClock { phase: Phase::initial(&timing), timing }
    }

    /// The phase the clock is in, with its timer.
    pub fn phase(&self) -> (p: Phase)
        ensures
            p@ == self@.phase,
    {
        self.phase
    }

    /// The durations that the clock gives to the phases it enters.
    pub fn timing(&self) -> (t: Timing)
        ensures
            t == self@.timing,
    {
        self.timing
    }

    /// Ticks the active timer by `dt_us` microseconds. When that ends the
    /// phase, the clock enters the next one, with a duration computed from
    /// `ctx` and the timing, and reports `PhaseCompleted`. While the clock
    /// waits for input no phase timer moves and the report is `NoOp`.
    pub fn advance(&mut self, dt_us: u64, ctx: &SlideContext) -> (signal: PhaseSignal)
        ensures
            old(self)@.phase.wf(),
            final(self)@.phase.wf(),
            final(self)@.phase == old(self)@.phase.advance(dt_us as nat, *ctx, old(self)@.timing),
            final(self)@.timing == old(self)@.timing,
            signal == old(self)@.phase.signal(dt_us as nat),
    {
        let (next, signal) = self.phase.advance(dt_us, ctx, &self.timing);
        self.phase = next;
        signal
    }

    /// Forces the clock into `GotInput`, the start of the exit sequence, if it
    /// is waiting for input, and says whether it did. In every other phase the
    /// request is ignored.
    pub fn request_transition(&mut self) -> (honoured: bool)
        ensures
            final(self)@.phase == old(self)@.phase.request_transition(),
            final(self)@.timing == old(self)@.timing,
            honoured == (old(self)@.phase is WaitingForInput),
    {
        let (next, honoured) = self.phase.request_transition();
        self.phase = next;
        honoured
    }
}

/// One thing that happens to the clock: time passes, or a choice asks it to
/// leave.
pub enum ClockEvent {
    Tick { dt: nat, ctx: SlideContext },
    Request,
}

/// The phase after one event.
pub open spec fn after_event(phase: PhaseModel, event: ClockEvent, timing: Timing) -> PhaseModel {
    match event {
        ClockEvent::Tick { dt, ctx } => phase.advance(dt, ctx, timing),
        ClockEvent::Request => phase.request_transition(),
    }
}

/// The phase after a sequence of events, taken in order.
pub open spec fn after_events(phase: PhaseModel, events: Seq<ClockEvent>, timing: Timing)
    -> PhaseModel
    decreases events.len(),
{
    if events.len() == 0 {
        phase
    } else {
        after_event(after_events(phase, events.drop_last(), timing), events.last(), timing)
    }
}

/// No event skips a phase: it leaves the clock in the phase it was in, or in
/// the one that follows in the cycle. Only a request leaves `WaitingForInput`,
/// and a request changes nothing in any other phase. Timers stay in range.
pub proof fn law_event_keeps_or_succeeds(phase: PhaseModel, event: ClockEvent, timing: Timing)
    ensures
        ({
            let next = after_event(phase, event, timing);
            &&& next.kind() == phase.kind() || next.kind() == phase.kind().successor()
            &&& phase is WaitingForInput && event is Tick ==> next is WaitingForInput
            &&& !(phase is WaitingForInput) && event is Request ==> next == phase
            &&& phase.wf() ==> next.wf()
        }),
{
    match event {
        ClockEvent::Tick { dt, ctx } => {
            if phase.wf() {
                if let PhaseModel::WaitingForInput(s) = phase {
                    assert(s.after(dt).wf()) by (nonlinear_arith)
                        requires
                            s.after(dt).elapsed == (s.elapsed + dt) % (SWEEP_PERIOD_US as nat),
                            SWEEP_PERIOD_US == 1_000_000,
                    ;
                }
            }
        },
        ClockEvent::Request => {},
    }
}

/// Unfolds `after_events` at position `i`: the phase after the first `i + 1`
/// events is the phase after the first `i`, moved on by event `i`.
pub proof fn lemma_after_events_step(
    phase: PhaseModel,
    events: Seq<ClockEvent>,
    timing: Timing,
    i: int,
)
    requires
        0 <= i < events.len(),
    ensures
        after_events(phase, events.take(i + 1), timing) == after_event(
            after_events(phase, events.take(i), timing),
            events[i],
            timing,
        ),
{
    let prefix = events.take(i + 1);
    assert(prefix.drop_last() =~= events.take(i));
    assert(prefix.last() == events[i]);
}

/// Whatever the ticks and requests, the phases are visited in the order of
/// the cycle: between any two consecutive moments of a run the clock is in
/// the same phase or has moved to its successor, never further and never
/// back.
pub proof fn law_phases_follow_cycle(
    start: PhaseModel,
    events: Seq<ClockEvent>,
    timing: Timing,
    i: int,
)
    requires
        0 <= i < events.len(),
    ensures
        ({
            let before = after_events(start, events.take(i), timing);
            let after = after_events(start, events.take(i + 1), timing);
            after.kind() == before.kind() || after.kind() == before.kind().successor()
        }),
{
    lemma_after_events_step(start, events, timing, i);
    law_event_keeps_or_succeeds(after_events(start, events.take(i), timing), events[i], timing);
}

/// With no input, time alone takes the clock from the background fade-in up
/// to `WaitingForInput`, one phase after the other, and no further: at every
/// moment of a run of ticks the clock is at or after the phase it started in
/// and at or before `WaitingForInput`; and once it waits, it waits.
pub proof fn law_ticks_alone_stop_at_waiting(
    start: PhaseModel,
    events: Seq<ClockEvent>,
    timing: Timing,
)
    requires
        forall|i: int| 0 <= i < events.len() ==> events[i] is Tick,
        start.kind().ordinal() <= PhaseKind::WaitingForInput.ordinal(),
    ensures
        start.kind().ordinal() <= after_events(start, events, timing).kind().ordinal(),
        after_events(start, events, timing).kind().ordinal()
            <= PhaseKind::WaitingForInput.ordinal(),
        start is WaitingForInput ==> after_events(start, events, timing) is WaitingForInput,
    decreases events.len(),
{
    if events.len() > 0 {
        let earlier = events.drop_last();
        law_ticks_alone_stop_at_waiting(start, earlier, timing);
        law_event_keeps_or_succeeds(after_events(start, earlier, timing), events.last(), timing);
    }
}

} // verus!
