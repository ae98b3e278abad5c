//! The reveal model: how much of the background, the text and the choices is
//! on show, as a function of the phase and its timer alone.

use vstd::prelude::*;
use crate::clock::{
    CountdownModel,
    Phase,
    PhaseKind,
    PhaseModel,
    SlideContext,
    Timing,
    text_duration,
};
use crate::fraction::{Fraction, Ratio, lemma_complement_wf, lemma_of_wf};

verus! {

/// The mathematical value of a [`Reveal`].
pub struct RevealModel {
    pub bg_opacity: Ratio,
    pub text_fraction: Ratio,
    pub choices_fraction: Ratio,
}

impl RevealModel {
    /// All three fractions lie in the unit interval.
    pub open spec fn wf(self) -> bool {
        self.bg_opacity.wf() && self.text_fraction.wf() && self.choices_fraction.wf()
    }
}

/// The three reveal fractions of a phase.
///
/// A fade-in shows what has elapsed of its timer, a fade-out what is left of
/// it. Whatever an earlier phase of the cycle brought in stays at exactly one,
/// whatever a later phase will bring in, or an earlier one took out, is at
/// exactly zero.
pub open spec fn revealed(phase: PhaseModel) -> RevealModel {
    match phase {
        PhaseModel::FadeInBackground(c) => RevealModel {
            bg_opacity: c.fraction(),
            text_fraction: Ratio::zero(),
            choices_fraction: Ratio::zero(),
        },
        PhaseModel::PauseAfterBackground(_) => RevealModel {
            bg_opacity: Ratio::one(),
            text_fraction: Ratio::zero(),
            choices_fraction: Ratio::zero(),
        },
        PhaseModel::FadeInText(c) => RevealModel {
            bg_opacity: Ratio::one(),
            text_fraction: c.fraction(),
            choices_fraction: Ratio::zero(),
        },
        PhaseModel::PauseAfterText(_) => RevealModel {
            bg_opacity: Ratio::one(),
            text_fraction: Ratio::one(),
            choices_fraction: Ratio::zero(),
        },
        PhaseModel::FadeInChoices(c) => RevealModel {
            bg_opacity: Ratio::one(),
            text_fraction: Ratio::one(),
            choices_fraction: c.fraction(),
        },
        PhaseModel::WaitingForInput(_) => RevealModel {
            bg_opacity: Ratio::one(),
            text_fraction: Ratio::one(),
            choices_fraction: Ratio::one(),
        },
        PhaseModel::GotInput => RevealModel {
            bg_opacity: Ratio::one(),
            text_fraction: Ratio::one(),
            choices_fraction: Ratio::one(),
        },
        PhaseModel::FadeOutTextAndChoices(c) => RevealModel {
            bg_opacity: Ratio::one(),
            text_fraction: c.fraction().complement(),
            choices_fraction: c.fraction().complement(),
        },
        PhaseModel::FadeOutBackground(c) => RevealModel {
            bg_opacity: c.fraction().complement(),
            text_fraction: Ratio::zero(),
            choices_fraction: Ratio::zero(),
        },
    }
}

/// How much of the background, the text and the choices is on show.
#[derive(Clone, Copy, Debug)]
pub struct Reveal {
    pub bg_opacity: Fraction,
    pub text_fraction: Fraction,
    pub choices_fraction: Fraction,
}

impl View for Reveal {
    type V = RevealModel;

    open spec fn view(&self) -> RevealModel {
        RevealModel {
            bg_opacity: self.bg_opacity@,
            text_fraction: self.text_fraction@,
            choices_fraction: self.choices_fraction@,
        }
    }
}

impl Reveal {
    /// The reveal fractions of `phase`.
    pub fn of(phase: &Phase) -> (r: Reveal)
        ensures
            r@ == revealed(phase@),
            r@.wf(),
    {
        match phase {
            Phase::FadeInBackground(c) => Reveal {
                bg_opacity: c.fraction(),
                text_fraction: Fraction::zero(),
                choices_fraction: Fraction::zero(),
            },
            Phase::PauseAfterBackground(_) => Reveal {
                bg_opacity: Fraction::one(),
                text_fraction: Fraction::zero(),
                choices_fraction: Fraction::zero(),
            },
            Phase::FadeInText(c) => Reveal {
                bg_opacity: Fraction::one(),
                text_fraction: c.fraction(),
                choices_fraction: Fraction::zero(),
            },
            Phase::PauseAfterText(_) => Reveal {
                bg_opacity: Fraction::one(),
                text_fraction: Fraction::one(),
                choices_fraction: Fraction::zero(),
            },
            Phase::FadeInChoices(c) => Reveal {
                bg_opacity: Fraction::one(),
                text_fraction: Fraction::one(),
                choices_fraction: c.fraction(),
            },
            Phase::WaitingForInput(_) => Reveal {
                bg_opacity: Fraction::one(),
                text_fraction: Fraction::one(),
                choices_fraction: Fraction::one(),
            },
            Phase::GotInput => Reveal {
                bg_opacity: Fraction::one(),
                text_fraction: Fraction::one(),
                choices_fraction: Fraction::one(),
            },
            Phase::FadeOutTextAndChoices(c) => {
                let left = c.fraction().complement();
                Reveal { bg_opacity: Fraction::one(), text_fraction: left, choices_fraction: left }
            },
            Phase::FadeOutBackground(c) => Reveal {
                bg_opacity: c.fraction().complement(),
                text_fraction: Fraction::zero(),
                choices_fraction: Fraction::zero(),
            },
        }
    }
}

/// The reveal fractions of a phase with timers in range lie in the unit
/// interval.
pub proof fn lemma_reveal_wf(phase: PhaseModel)
    requires
        phase.wf(),
    ensures
        revealed(phase).wf(),
{
    match phase.countdown() {
        Some(c) => {
            lemma_of_wf(c.elapsed, c.duration);
            lemma_complement_wf(c.fraction());
        },
        None => {},
    }
}

/// The fraction of a running countdown does not go down when time is added.
pub proof fn lemma_fraction_grows(c: CountdownModel, dt: nat)
    requires
        c.running(),
        !c.completes(dt),
    ensures
        c.after(dt).running(),
        c.fraction().le(c.after(dt).fraction()),
        c.after(dt).fraction().complement().le(c.fraction().complement()),
{
    let e = c.elapsed as int;
    let d = c.duration as int;
    let t = dt as int;
    assert(0 * d == 0 && 1 * d == d && (d - (e + t)) * 1 == d - (e + t) && 0 * 1 == 0 && (e + t)
        * 1 == e + t);
    assert(e * d <= (e + t) * d) by (nonlinear_arith)
        requires
            0 <= e,
            0 <= t,
            0 < d,
    ;
    assert((d - (e + t)) * d <= (d - e) * d) by (nonlinear_arith)
        requires
            0 <= e,
            0 <= t,
            0 < d,
    ;
}

/// While the text fades in, a tick never lowers the text fraction, and the
/// tick that ends the phase leaves it at exactly one. While text and choices
/// fade out, a tick never raises it, and the tick that ends the phase leaves
/// it at exactly zero.
pub proof fn law_text_fraction_monotonic(
    phase: PhaseModel,
    dt: nat,
    ctx: SlideContext,
    timing: Timing,
)
    requires
        phase.wf(),
    ensures
        ({
            let before = revealed(phase).text_fraction;
            let next = phase.advance(dt, ctx, timing);
            let after = revealed(next).text_fraction;
            &&& phase is FadeInText ==> before.le(after)
            &&& phase is FadeInText && next.kind() != phase.kind() ==> after == Ratio::one()
            &&& phase is FadeOutTextAndChoices ==> after.le(before)
            &&& phase is FadeOutTextAndChoices && next.kind() != phase.kind() ==> after
                == Ratio::zero()
        }),
{
    match phase {
        PhaseModel::FadeInText(c) => {
            lemma_of_wf(c.elapsed, c.duration);
            if !c.completes(dt) {
                lemma_fraction_grows(c, dt);
            }
        },
        PhaseModel::FadeOutTextAndChoices(c) => {
            lemma_of_wf(c.elapsed, c.duration);
            lemma_complement_wf(c.fraction());
            if !c.completes(dt) {
                lemma_fraction_grows(c, dt);
            }
        },
        _ => {},
    }
}

/// What holds of the text fraction holds of the other two: the background
/// opacity and the choices fraction never fall during their fade-in, never
/// rise during their fade-out, and stand at exactly one or zero when the fade
/// ends.
pub proof fn law_background_and_choices_monotonic(
    phase: PhaseModel,
    dt: nat,
    ctx: SlideContext,
    timing: Timing,
)
    requires
        phase.wf(),
    ensures
        ({
            let before = revealed(phase);
            let next = phase.advance(dt, ctx, timing);
            let after = revealed(next);
            let ended = next.kind() != phase.kind();
            &&& phase is FadeInBackground ==> before.bg_opacity.le(after.bg_opacity)
            &&& phase is FadeInBackground && ended ==> after.bg_opacity == Ratio::one()
            &&& phase is FadeOutBackground ==> after.bg_opacity.le(before.bg_opacity)
            &&& phase is FadeOutBackground && ended ==> after.bg_opacity == Ratio::zero()
            &&& phase is FadeInChoices ==> before.choices_fraction.le(after.choices_fraction)
            &&& phase is FadeInChoices && ended ==> after.choices_fraction == Ratio::one()
            &&& phase is FadeOutTextAndChoices ==> after.choices_fraction.le(
                before.choices_fraction,
            )
            &&& phase is FadeOutTextAndChoices && ended ==> after.choices_fraction == Ratio::zero()
        }),
{
    match phase.countdown() {
        Some(c) => {
            lemma_of_wf(c.elapsed, c.duration);
            lemma_complement_wf(c.fraction());
            if !c.completes(dt) {
                lemma_fraction_grows(c, dt);
            }
        },
        None => {},
    }
}

/// An empty description takes no time to read, so the phase that fades the
/// text in has duration zero when it is entered, and the very next tick,
/// however short, has moved on to the pause after the text with all of the
/// text shown.
pub proof fn law_empty_description_is_not_stuck(dt: nat, ctx: SlideContext, timing: Timing)
    requires
        ctx.description_chars == 0,
    ensures
        text_duration(0) == 0,
        ({
            let entered = PhaseModel::enter(PhaseKind::FadeInText, ctx, timing);
            let next = entered.advance(dt, ctx, timing);
            &&& entered == PhaseModel::FadeInText(CountdownModel::fresh(0))
            &&& next.kind() == PhaseKind::PauseAfterText
            &&& revealed(next).text_fraction == Ratio::one()
        }),
{
}

} // verus!
