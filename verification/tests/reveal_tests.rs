use slide_player::clock::{Countdown, Phase, PhaseKind, SlideContext, Sweep, Timing};
use slide_player::fraction::Fraction;
use slide_player::reveal_model::Reveal;

fn parts(f: Fraction) -> (u64, u64) {
    (f.numerator(), f.denominator())
}

fn triple(phase: &Phase) -> ((u64, u64), (u64, u64), (u64, u64)) {
    let r = Reveal::of(phase);
    (parts(r.bg_opacity), parts(r.text_fraction), parts(r.choices_fraction))
}

fn at(duration: u64, elapsed: u64) -> Countdown {
    Countdown::new(duration).tick(elapsed).unwrap()
}

fn less_or_equal(a: Fraction, b: Fraction) -> bool {
    (a.numerator() as u128) * (b.denominator() as u128)
        <= (b.numerator() as u128) * (a.denominator() as u128)
}

#[test]
fn each_phase_reveals_what_the_table_says() {
    let zero = (0, 1);
    let one = (1, 1);
    assert_eq!(triple(&Phase::FadeInBackground(at(4, 1))), ((1, 4), zero, zero));
    assert_eq!(triple(&Phase::PauseAfterBackground(at(4, 1))), (one, zero, zero));
    assert_eq!(triple(&Phase::FadeInText(at(4, 1))), (one, (1, 4), zero));
    assert_eq!(triple(&Phase::PauseAfterText(at(4, 1))), (one, one, zero));
    assert_eq!(triple(&Phase::FadeInChoices(at(4, 1))), (one, one, (1, 4)));
    assert_eq!(triple(&Phase::WaitingForInput(Sweep::new())), (one, one, one));
    assert_eq!(triple(&Phase::GotInput), (one, one, one));
    assert_eq!(triple(&Phase::FadeOutTextAndChoices(at(4, 1))), (one, (3, 4), (3, 4)));
    assert_eq!(triple(&Phase::FadeOutBackground(at(4, 1))), ((3, 4), zero, zero));
}

#[test]
fn a_fresh_fade_in_shows_nothing_and_a_fresh_fade_out_everything() {
    let zero = (0, 1);
    let one = (1, 1);
    assert_eq!(triple(&Phase::FadeInBackground(Countdown::new(9))), (zero, zero, zero));
    assert_eq!(triple(&Phase::FadeInText(Countdown::new(9))), (one, zero, zero));
    assert_eq!(triple(&Phase::FadeInChoices(Countdown::new(9))), (one, one, zero));
    assert_eq!(triple(&Phase::FadeOutTextAndChoices(Countdown::new(9))), (one, one, one));
    assert_eq!(triple(&Phase::FadeOutBackground(Countdown::new(9))), (one, zero, zero));
}

#[test]
fn text_fraction_rises_to_exactly_one() {
    let timing = Timing::new();
    let ctx = SlideContext { description_chars: 10, choice_count: 2 };
    let mut phase = Phase::FadeInText(Countdown::new(118_203));
    let mut last = Reveal::of(&phase).text_fraction;
    assert!(last.is_zero());
    let mut left_on_tick = None;
    for tick in 0..30 {
        let (next, _) = phase.advance(16_667, &ctx, &timing);
        let now = Reveal::of(&next).text_fraction;
        assert!(less_or_equal(last, now));
        if next.kind() != PhaseKind::FadeInText {
            assert_eq!(next.kind(), PhaseKind::PauseAfterText);
            assert_eq!(parts(now), (1, 1));
            left_on_tick = Some(tick);
            break;
        }
        assert!(!now.is_one());
        last = now;
        phase = next;
    }
    assert_eq!(left_on_tick, Some(7));
}

#[test]
fn text_fraction_falls_to_exactly_zero() {
    let timing = Timing::new();
    let ctx = SlideContext { description_chars: 10, choice_count: 2 };
    let mut phase = Phase::FadeOutTextAndChoices(Countdown::new(500_000));
    let mut last = Reveal::of(&phase).text_fraction;
    assert!(last.is_one());
    let mut left = false;
    for _ in 0..40 {
        let (next, _) = phase.advance(33_333, &ctx, &timing);
        let now = Reveal::of(&next);
        assert!(less_or_equal(now.text_fraction, last));
        if next.kind() != PhaseKind::FadeOutTextAndChoices {
            assert_eq!(next.kind(), PhaseKind::FadeOutBackground);
            assert_eq!(parts(now.text_fraction), (0, 1));
            assert_eq!(parts(now.choices_fraction), (0, 1));
            assert_eq!(parts(now.bg_opacity), (1, 1));
            left = true;
            break;
        }
        assert_eq!(parts(now.text_fraction), parts(now.choices_fraction));
        last = now.text_fraction;
        phase = next;
    }
    assert!(left);
}

#[test]
fn background_fades_out_to_exactly_zero_and_in_from_it() {
    let timing = Timing::new();
    let ctx = SlideContext { description_chars: 10, choice_count: 2 };
    let phase = Phase::FadeOutBackground(at(1_000_000, 999_999));
    assert_eq!(parts(Reveal::of(&phase).bg_opacity), (1, 1_000_000));
    let (next, _) = phase.advance(1, &ctx, &timing);
    assert_eq!(next.kind(), PhaseKind::FadeInBackground);
    assert_eq!(triple(&next), ((0, 1), (0, 1), (0, 1)));
}

#[test]
fn an_empty_description_shows_all_of_its_text_on_the_next_tick() {
    let timing = Timing::new();
    let ctx = SlideContext { description_chars: 0, choice_count: 1 };
    let entered = Phase::FadeInText(Countdown::new(0));
    assert!(Reveal::of(&entered).text_fraction.is_zero());
    let (next, _) = entered.advance(0, &ctx, &timing);
    assert_eq!(next.kind(), PhaseKind::PauseAfterText);
    assert_eq!(parts(Reveal::of(&next).text_fraction), (1, 1));
}
