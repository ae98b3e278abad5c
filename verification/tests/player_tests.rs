use slide_player::clock::{PhaseKind, PhaseSignal, Timing};
use slide_player::fraction::Fraction;
use slide_player::images::{Background, BackgroundData, BackgroundEntry, Pixel};
use slide_player::input::ChoiceLayout;
use slide_player::model::{event_handler, update_references, Action, CrudEvent, Slide};
use slide_player::player::{
    render_display, reveal_choices, reveal_description, BackgroundStatus, ChoiceLabel, Display,
    Player, SlideStatus, TickOutcome, GRACE_TICKS, POINTER_WIDTH,
};
use slide_player::reveal_model::Reveal;

fn action(text: &str, target: &str) -> Action {
    Action { text: text.to_string(), target_slide: target.to_string() }
}

fn slide(name: &str, description: &str, background: &str, actions: Vec<Action>) -> Slide {
    Slide {
        name: name.to_string(),
        description: description.to_string(),
        background: background.to_string(),
        actions,
    }
}

fn house() -> Vec<Slide> {
    vec![
        slide(
            "Living",
            "You are in the living room.",
            "",
            vec![
                action("To the kitchen", "Kitchen"),
                action("Stay", "Living"),
                action("Up", "Attic"),
            ],
        ),
        slide("Kitchen", "It smells of soup.", "", vec![action("Back", "Living")]),
    ]
}

fn label(text: &str, is_hovered: bool) -> ChoiceLabel {
    ChoiceLabel { text: text.to_string(), is_hovered }
}

fn parts(f: Fraction) -> (u64, u64) {
    (f.numerator(), f.denominator())
}

fn no_events() -> Vec<CrudEvent<Slide>> {
    Vec::new()
}

fn no_gallery() -> Vec<BackgroundEntry> {
    Vec::new()
}

/// Ticks the player through the phases that time alone ends, until it is in `kind`.
fn run_to(p: &mut Player, kind: PhaseKind, slides: &Vec<Slide>) {
    let mut guard = 0;
    while p.phase_kind() != kind {
        let outcome = p.tick(u64::MAX, &no_events(), slides, &no_gallery());
        assert_eq!(outcome, TickOutcome::Played(PhaseSignal::PhaseCompleted));
        guard += 1;
        assert!(guard < 10);
    }
}

#[test]
fn a_new_player_starts_on_the_living_room() {
    let p = Player::new();
    assert_eq!(p.current_slide(), "Living");
    assert_eq!(p.next_slide(), "Living");
    assert_eq!(p.phase_kind(), PhaseKind::FadeInBackground);
    assert!(p.bg_opacity().is_zero());
    assert!(p.text_fraction().is_zero());
    assert!(p.choices_fraction().is_zero());
    assert_eq!(p.hovering_choice(), None);
    assert_eq!(p.grace_left(), 3);
    assert_eq!(GRACE_TICKS, 3);
    assert!(!p.is_lost());
    assert_eq!(p.sweep_step(), 0);
    assert_eq!(p.current_display(), Display::blank());
}

#[test]
fn a_player_can_start_anywhere() {
    let timing = Timing { bg_fade_in_us: 5, ..Timing::new() };
    let mut p = Player::starting_at("Kitchen".to_string(), timing, 1);
    assert_eq!(p.current_slide(), "Kitchen");
    assert_eq!(p.next_slide(), "Kitchen");
    assert_eq!(p.grace_left(), 1);
    let outcome = p.update_state(5, &house());
    assert_eq!(outcome, TickOutcome::Played(PhaseSignal::PhaseCompleted));
    assert_eq!(p.phase_kind(), PhaseKind::PauseAfterBackground);
}

#[test]
fn a_session_walks_the_whole_cycle() {
    let slides = house();
    let mut p = Player::new();
    let tick = |p: &mut Player, dt: u64| p.tick(dt, &no_events(), &slides, &no_gallery());
    assert_eq!(tick(&mut p, 1_000_000), TickOutcome::Played(PhaseSignal::Running));
    assert_eq!(parts(p.bg_opacity()), (1_000_000, 1_500_000));
    assert_eq!(tick(&mut p, 500_000), TickOutcome::Played(PhaseSignal::PhaseCompleted));
    assert_eq!(p.phase_kind(), PhaseKind::PauseAfterBackground);
    assert!(p.bg_opacity().is_one());
    assert_eq!(tick(&mut p, 100_000), TickOutcome::Played(PhaseSignal::PhaseCompleted));
    assert_eq!(p.phase_kind(), PhaseKind::FadeInText);
    assert_eq!(p.phase().kind(), PhaseKind::FadeInText);
    // 27 characters take floor(27 * 100000000 / 8460) microseconds to read.
    assert_eq!(tick(&mut p, 319_147), TickOutcome::Played(PhaseSignal::Running));
    assert_eq!(parts(p.text_fraction()), (319_147, 319_148));
    assert_eq!(tick(&mut p, 1), TickOutcome::Played(PhaseSignal::PhaseCompleted));
    assert_eq!(p.phase_kind(), PhaseKind::PauseAfterText);
    assert_eq!(parts(p.text_fraction()), (1, 1));
    assert_eq!(tick(&mut p, 100_000), TickOutcome::Played(PhaseSignal::PhaseCompleted));
    assert_eq!(p.phase_kind(), PhaseKind::FadeInChoices);
    assert_eq!(tick(&mut p, 100_000), TickOutcome::Played(PhaseSignal::Running));
    assert_eq!(parts(p.choices_fraction()), (100_000, 300_000));
    assert_eq!(tick(&mut p, 200_000), TickOutcome::Played(PhaseSignal::PhaseCompleted));
    assert_eq!(p.phase_kind(), PhaseKind::WaitingForInput);
    assert_eq!(tick(&mut p, 10_000_000), TickOutcome::Played(PhaseSignal::NoOp));
    assert_eq!(p.phase_kind(), PhaseKind::WaitingForInput);
    assert!(p.select_choice(Some(0), &slides));
    assert_eq!(p.phase_kind(), PhaseKind::GotInput);
    assert_eq!(p.next_slide(), "Kitchen");
    assert_eq!(p.current_slide(), "Living");
    assert_eq!(tick(&mut p, 0), TickOutcome::Played(PhaseSignal::PhaseCompleted));
    assert_eq!(p.phase_kind(), PhaseKind::FadeOutTextAndChoices);
    assert_eq!(tick(&mut p, 125_000), TickOutcome::Played(PhaseSignal::Running));
    assert_eq!(parts(p.text_fraction()), (375_000, 500_000));
    assert_eq!(parts(p.choices_fraction()), (375_000, 500_000));
    assert_eq!(tick(&mut p, 375_000), TickOutcome::Played(PhaseSignal::PhaseCompleted));
    assert_eq!(p.phase_kind(), PhaseKind::FadeOutBackground);
    assert!(p.text_fraction().is_zero());
    assert_eq!(p.current_slide(), "Living");
    assert_eq!(tick(&mut p, 999_999), TickOutcome::Played(PhaseSignal::Running));
    assert_eq!(parts(p.bg_opacity()), (1, 1_000_000));
    assert_eq!(p.current_slide(), "Living");
    assert_eq!(tick(&mut p, 1), TickOutcome::Played(PhaseSignal::PhaseCompleted));
    assert_eq!(p.phase_kind(), PhaseKind::FadeInBackground);
    assert_eq!(p.current_slide(), "Kitchen");
    assert_eq!(p.next_slide(), "Kitchen");
    assert!(p.bg_opacity().is_zero());
}

#[test]
fn the_description_is_cut_to_what_is_revealed() {
    let text = "Hello world".to_string();
    assert_eq!(reveal_description(&text, Fraction::zero()), "");
    assert_eq!(reveal_description(&text, Fraction::of(1, 11)), "H");
    assert_eq!(reveal_description(&text, Fraction::of(1, 2)), "Hello");
    assert_eq!(reveal_description(&text, Fraction::of(10, 11)), "Hello worl");
    assert_eq!(reveal_description(&text, Fraction::of(999, 1000)), "Hello worl");
    assert_eq!(reveal_description(&text, Fraction::one()), "Hello world");
    assert_eq!(reveal_description(&String::new(), Fraction::one()), "");
}

#[test]
fn the_description_is_cut_between_characters() {
    let text = "héllo wörld".to_string();
    assert_eq!(reveal_description(&text, Fraction::of(2, 11)), "hé");
    assert_eq!(reveal_description(&text, Fraction::of(1, 2)), "héllo");
    assert_eq!(reveal_description(&text, Fraction::of(8, 11)), "héllo wö");
    assert_eq!(reveal_description(&text, Fraction::one()), "héllo wörld");
}

#[test]
fn choices_come_in_one_by_one() {
    let actions = house().remove(0).actions;
    assert_eq!(reveal_choices(&actions, Fraction::zero(), None), vec![]);
    assert_eq!(reveal_choices(&actions, Fraction::of(1, 4), Some(0)), vec![]);
    assert_eq!(
        reveal_choices(&actions, Fraction::of(1, 3), None),
        vec![label("To the kitchen", false)]
    );
    assert_eq!(
        reveal_choices(&actions, Fraction::of(1, 2), Some(0)),
        vec![label("To the kitchen", true)]
    );
    assert_eq!(
        reveal_choices(&actions, Fraction::of(2, 3), Some(2)),
        vec![label("To the kitchen", false), label("Stay", false)]
    );
    assert_eq!(
        reveal_choices(&actions, Fraction::one(), Some(2)),
        vec![label("To the kitchen", false), label("Stay", false), label("Up", true)]
    );
    assert_eq!(reveal_choices(&Vec::new(), Fraction::one(), Some(0)), vec![]);
}

#[test]
fn a_slide_without_a_background_has_no_background_text() {
    let s = slide("A", "abcd", "", vec![action("x", "B")]);
    let fractions = Reveal {
        bg_opacity: Fraction::one(),
        text_fraction: Fraction::of(1, 2),
        choices_fraction: Fraction::one(),
    };
    let gallery = vec![BackgroundEntry::new(Background::from_url("".to_string()))];
    let d = render_display(&s, &gallery, &fractions, Some(0));
    assert_eq!(
        d,
        Display {
            slide: SlideStatus::Shown,
            background: BackgroundStatus::Unset,
            background_text: "".to_string(),
            description_text: "ab".to_string(),
            choice_labels: vec![label("x", true)],
        }
    );
}

#[test]
fn backgrounds_stand_in_until_they_are_there() {
    let s = slide("A", "abcd", "sky", vec![]);
    let fractions = Reveal {
        bg_opacity: Fraction::of(1, 2),
        text_fraction: Fraction::one(),
        choices_fraction: Fraction::one(),
    };
    let d = render_display(&s, &no_gallery(), &fractions, None);
    assert_eq!(d.background, BackgroundStatus::NotFound);
    assert_eq!(d.background_text, "background not found");
    assert_eq!(d.description_text, "abcd");

    let mut gallery = vec![BackgroundEntry::new(Background {
        name: "sky".to_string(),
        url: "u".to_string(),
        color_channels: (1, 1, 1),
    })];
    let d = render_display(&s, &gallery, &fractions, None);
    assert_eq!(d.background, BackgroundStatus::Pending);
    assert_eq!(d.background_text, "no background yet");
    assert_eq!(d.slide, SlideStatus::Shown);

    let white = Pixel { r: 255, g: 255, b: 255, a: 255 };
    gallery[0].data = Some(BackgroundData { pixels: vec![white, white] });
    let d = render_display(&s, &gallery, &fractions, None);
    assert_eq!(d.background, BackgroundStatus::Ready);
    assert_eq!(d.background_text, "OO\n");
}

#[test]
fn the_display_follows_the_fractions() {
    let slides = house();
    let mut p = Player::new();
    run_to(&mut p, PhaseKind::FadeInText, &slides);
    assert_eq!(p.current_display().description_text, "");
    p.tick(159_574, &no_events(), &slides, &no_gallery());
    assert_eq!(parts(p.text_fraction()), (159_574, 319_148));
    let d = p.current_display();
    assert_eq!(d.description_text, "You are in th");
    assert_eq!(d.choice_labels, vec![]);
    assert_eq!(d.slide, SlideStatus::Shown);
    assert_eq!(d.background, BackgroundStatus::Unset);
    run_to(&mut p, PhaseKind::FadeInChoices, &slides);
    assert_eq!(p.current_display().description_text, "You are in the living room.");
    assert_eq!(p.current_display().choice_labels, vec![]);
    p.tick(200_000, &no_events(), &slides, &no_gallery());
    assert_eq!(
        p.current_display().choice_labels,
        vec![label("To the kitchen", false), label("Stay", false)]
    );
    run_to(&mut p, PhaseKind::WaitingForInput, &slides);
    assert_eq!(p.current_display().choice_labels.len(), 3);
}

#[test]
fn the_display_is_rendered_by_the_tick_not_by_the_clock_alone() {
    let slides = house();
    let mut p = Player::new();
    run_to(&mut p, PhaseKind::PauseAfterText, &slides);
    let before = p.current_display();
    assert_eq!(p.update_state(100_000, &slides), TickOutcome::Played(PhaseSignal::PhaseCompleted));
    assert_eq!(p.update_state(300_000, &slides), TickOutcome::Played(PhaseSignal::PhaseCompleted));
    assert_eq!(p.phase_kind(), PhaseKind::WaitingForInput);
    assert_eq!(p.current_display(), before);
    p.render(&slides, &no_gallery());
    assert_eq!(p.current_display().choice_labels.len(), 3);
}

#[test]
fn renames_reach_the_current_and_the_next_slide() {
    let mut p = Player::new();
    let events = vec![
        CrudEvent::Deleted("Living".to_string()),
        CrudEvent::Updated(Slide::new("Living".to_string())),
        CrudEvent::Renamed("Kitchen".to_string(), "Galley".to_string()),
        CrudEvent::Created(Slide::new("Den".to_string())),
    ];
    p.handle_renames(&events);
    assert_eq!(p.current_slide(), "Living");
    assert_eq!(p.next_slide(), "Living");
    p.handle_renames(&vec![CrudEvent::Renamed("Living".to_string(), "Den".to_string())]);
    assert_eq!(p.current_slide(), "Den");
    assert_eq!(p.next_slide(), "Den");
}

#[test]
fn renames_are_followed_in_order() {
    let mut p = Player::new();
    let events = vec![
        CrudEvent::Renamed("Den".to_string(), "Hall".to_string()),
        CrudEvent::Renamed("Living".to_string(), "Den".to_string()),
        CrudEvent::Renamed("Den".to_string(), "Lounge".to_string()),
    ];
    p.handle_renames(&events);
    assert_eq!(p.current_slide(), "Lounge");
    assert_eq!(p.next_slide(), "Lounge");
}

#[test]
fn a_rename_of_the_next_slide_alone_is_followed() {
    let slides = house();
    let mut p = Player::new();
    run_to(&mut p, PhaseKind::WaitingForInput, &slides);
    assert!(p.select_choice(Some(0), &slides));
    p.handle_renames(&vec![CrudEvent::Renamed("Kitchen".to_string(), "Galley".to_string())]);
    assert_eq!(p.current_slide(), "Living");
    assert_eq!(p.next_slide(), "Galley");
}

#[test]
fn a_rename_in_mid_phase_leaves_play_undisturbed() {
    let mut slides = house();
    let mut p = Player::new();
    run_to(&mut p, PhaseKind::FadeInChoices, &slides);
    p.tick(150_000, &no_events(), &slides, &no_gallery());
    assert_eq!(parts(p.choices_fraction()), (150_000, 300_000));
    let before = p.current_display();
    assert_eq!(before.choice_labels, vec![label("To the kitchen", false)]);

    let events = vec![CrudEvent::Renamed("Living".to_string(), "Den".to_string())];
    event_handler(&events, &mut slides);
    update_references(&events, &mut slides);
    assert_eq!(slides[0].name, "Den");
    let outcome = p.tick(0, &events, &slides, &no_gallery());

    assert_eq!(outcome, TickOutcome::Played(PhaseSignal::Running));
    assert_eq!(p.current_slide(), "Den");
    assert_eq!(p.next_slide(), "Den");
    assert_eq!(p.phase_kind(), PhaseKind::FadeInChoices);
    assert_eq!(parts(p.choices_fraction()), (150_000, 300_000));
    assert!(p.text_fraction().is_one());
    assert!(p.bg_opacity().is_one());
    assert_eq!(p.current_display(), before);
    assert_eq!(p.current_display().slide, SlideStatus::Shown);
    assert_eq!(p.grace_left(), 3);
    assert!(!p.is_lost());
}

#[test]
fn a_rename_that_the_player_does_not_hear_of_costs_grace() {
    let mut slides = house();
    let mut p = Player::new();
    run_to(&mut p, PhaseKind::FadeInChoices, &slides);
    let events = vec![CrudEvent::Renamed("Living".to_string(), "Den".to_string())];
    event_handler(&events, &mut slides);
    assert_eq!(p.tick(0, &no_events(), &slides, &no_gallery()), TickOutcome::SlideMissing);
    assert_eq!(p.grace_left(), 2);
    assert_eq!(
        p.tick(0, &events, &slides, &no_gallery()),
        TickOutcome::Played(PhaseSignal::Running)
    );
    assert_eq!(p.grace_left(), 3);
}

#[test]
fn a_missing_slide_is_tolerated_for_three_ticks() {
    let mut slides = house();
    let mut p = Player::new();
    run_to(&mut p, PhaseKind::FadeInChoices, &slides);
    p.tick(150_000, &no_events(), &slides, &no_gallery());
    let last_good = p.current_display();
    assert_eq!(last_good.description_text, "You are in the living room.");

    let events = vec![CrudEvent::Deleted("Living".to_string())];
    event_handler(&events, &mut slides);
    for left in [2, 1, 0] {
        let outcome = p.tick(50_000, &events, &slides, &no_gallery());
        assert_eq!(outcome, TickOutcome::SlideMissing);
        assert_eq!(p.grace_left(), left);
        assert!(!p.is_lost());
        assert_eq!(p.current_display(), last_good);
        assert_eq!(p.phase_kind(), PhaseKind::FadeInChoices);
        assert_eq!(parts(p.choices_fraction()), (150_000, 300_000));
    }
    let outcome = p.tick(50_000, &no_events(), &slides, &no_gallery());
    assert_eq!(outcome, TickOutcome::SlideLost);
    assert!(p.is_lost());
    assert_eq!(p.current_display(), Display::slide_not_found());
    assert_eq!(p.current_display().slide, SlideStatus::NotFound);
    assert_eq!(p.current_display().description_text, "slide not found");
    assert_eq!(p.current_display().choice_labels, vec![]);
    let outcome = p.tick(50_000, &no_events(), &slides, &no_gallery());
    assert_eq!(outcome, TickOutcome::SlideLost);
    assert_eq!(p.current_display(), Display::slide_not_found());
    assert_eq!(p.current_slide(), "Living");
    assert_eq!(parts(p.choices_fraction()), (150_000, 300_000));
}

#[test]
fn the_grace_period_can_be_set() {
    let slides: Vec<Slide> = Vec::new();
    let mut none = Player::starting_at("Living".to_string(), Timing::new(), 0);
    assert_eq!(none.update_state(1, &slides), TickOutcome::SlideLost);
    assert!(none.is_lost());

    let mut one = Player::starting_at("Living".to_string(), Timing::new(), 1);
    assert_eq!(one.update_state(1, &slides), TickOutcome::SlideMissing);
    assert!(!one.is_lost());
    assert_eq!(one.current_display(), Display::blank());
    assert_eq!(one.update_state(1, &slides), TickOutcome::SlideLost);
    assert!(one.is_lost());
    assert_eq!(one.current_display(), Display::slide_not_found());
}

#[test]
fn a_slide_that_comes_back_is_played_again() {
    let mut slides = house();
    let mut p = Player::new();
    run_to(&mut p, PhaseKind::FadeInChoices, &slides);
    let living = slides.remove(0);
    for _ in 0..5 {
        p.tick(50_000, &no_events(), &slides, &no_gallery());
    }
    assert!(p.is_lost());
    assert_eq!(p.grace_left(), 0);
    slides.push(living);
    let outcome = p.tick(50_000, &no_events(), &slides, &no_gallery());
    assert_eq!(outcome, TickOutcome::Played(PhaseSignal::Running));
    assert!(!p.is_lost());
    assert_eq!(p.grace_left(), 3);
    assert_eq!(parts(p.choices_fraction()), (50_000, 300_000));
    assert_eq!(p.current_display().slide, SlideStatus::Shown);
    assert_eq!(p.current_display().description_text, "You are in the living room.");
}

#[test]
fn grace_is_restored_by_one_good_tick() {
    let mut slides = house();
    let mut p = Player::new();
    let living = slides.remove(0);
    assert_eq!(p.update_state(1, &slides), TickOutcome::SlideMissing);
    assert_eq!(p.update_state(1, &slides), TickOutcome::SlideMissing);
    assert_eq!(p.grace_left(), 1);
    slides.push(living);
    assert_eq!(p.update_state(1, &slides), TickOutcome::Played(PhaseSignal::Running));
    assert_eq!(p.grace_left(), 3);
    slides.pop();
    assert_eq!(p.update_state(1, &slides), TickOutcome::SlideMissing);
    assert_eq!(p.grace_left(), 2);
}

#[test]
fn a_broken_link_ends_in_not_found() {
    let slides = house();
    let mut p = Player::new();
    run_to(&mut p, PhaseKind::WaitingForInput, &slides);
    assert!(p.select_choice(Some(2), &slides));
    assert_eq!(p.next_slide(), "Attic");
    run_to(&mut p, PhaseKind::FadeOutBackground, &slides);
    let outcome = p.tick(1_000_000, &no_events(), &slides, &no_gallery());
    assert_eq!(outcome, TickOutcome::Played(PhaseSignal::PhaseCompleted));
    assert_eq!(p.current_slide(), "Attic");
    assert_eq!(p.phase_kind(), PhaseKind::FadeInBackground);
    assert_eq!(p.current_display().slide, SlideStatus::Shown);
    for _ in 0..3 {
        assert_eq!(p.tick(1, &no_events(), &slides, &no_gallery()), TickOutcome::SlideMissing);
    }
    assert_eq!(p.tick(1, &no_events(), &slides, &no_gallery()), TickOutcome::SlideLost);
    assert_eq!(p.current_display(), Display::slide_not_found());
}

#[test]
fn a_click_before_the_choices_are_there_does_nothing() {
    let slides = house();
    let layout = ChoiceLayout::new(-100);
    let mut p = Player::new();
    run_to(&mut p, PhaseKind::FadeInText, &slides);
    p.on_pointer_moved(-160, &layout, &slides);
    assert_eq!(p.hovering_choice(), None);
    assert!(!p.on_pointer_clicked(&slides));
    assert!(!p.select_choice(Some(2), &slides));
    assert_eq!(p.next_slide(), "Living");
    assert_eq!(p.phase_kind(), PhaseKind::FadeInText);
    assert!(p.text_fraction().is_zero());
}

#[test]
fn a_click_while_waiting_takes_the_hovered_choice() {
    let slides = house();
    let layout = ChoiceLayout::new(-100);
    let mut p = Player::new();
    run_to(&mut p, PhaseKind::WaitingForInput, &slides);
    p.on_pointer_moved(-160, &layout, &slides);
    assert_eq!(p.hovering_choice(), Some(2));
    assert!(p.on_pointer_clicked(&slides));
    assert_eq!(p.next_slide(), "Attic");
    assert_eq!(p.current_slide(), "Living");
    assert_eq!(p.phase_kind(), PhaseKind::GotInput);
    assert_eq!(p.hovering_choice(), Some(2));
}

#[test]
fn a_stale_hover_is_not_clickable_outside_waiting() {
    let slides = vec![slide(
        "Living",
        "",
        "",
        vec![action("a", "Living"), action("b", "Living"), action("c", "Kitchen")],
    )];
    let layout = ChoiceLayout::new(-100);
    let mut p = Player::new();
    run_to(&mut p, PhaseKind::WaitingForInput, &slides);
    p.on_pointer_moved(-130, &layout, &slides);
    assert!(p.on_pointer_clicked(&slides));
    assert_eq!(p.next_slide(), "Living");
    run_to(&mut p, PhaseKind::FadeOutBackground, &slides);
    run_to(&mut p, PhaseKind::FadeInText, &slides);
    assert_eq!(p.hovering_choice(), Some(1));
    for kind in [
        PhaseKind::FadeInText,
        PhaseKind::PauseAfterText,
        PhaseKind::FadeInChoices,
    ] {
        run_to(&mut p, kind, &slides);
        assert!(!p.on_pointer_clicked(&slides));
        assert!(!p.select_choice(Some(2), &slides));
        assert_eq!(p.phase_kind(), kind);
        assert_eq!(p.next_slide(), "Living");
    }
    run_to(&mut p, PhaseKind::WaitingForInput, &slides);
    assert!(p.select_choice(Some(2), &slides));
    assert_eq!(p.next_slide(), "Kitchen");
    assert_eq!(p.phase_kind(), PhaseKind::GotInput);
}

#[test]
fn clicks_during_the_exit_are_ignored() {
    let slides = house();
    let mut p = Player::new();
    run_to(&mut p, PhaseKind::WaitingForInput, &slides);
    assert!(p.select_choice(Some(0), &slides));
    for kind in [
        PhaseKind::GotInput,
        PhaseKind::FadeOutTextAndChoices,
        PhaseKind::FadeOutBackground,
    ] {
        run_to(&mut p, kind, &slides);
        assert!(!p.select_choice(Some(1), &slides));
        assert_eq!(p.next_slide(), "Kitchen");
        assert_eq!(p.phase_kind(), kind);
    }
}

#[test]
fn a_click_on_nothing_does_nothing() {
    let slides = house();
    let layout = ChoiceLayout::new(-100);
    let mut p = Player::new();
    run_to(&mut p, PhaseKind::WaitingForInput, &slides);
    assert!(!p.on_pointer_clicked(&slides));
    p.on_pointer_moved(400, &layout, &slides);
    assert_eq!(p.hovering_choice(), None);
    assert!(!p.on_pointer_clicked(&slides));
    assert!(!p.select_choice(None, &slides));
    assert!(!p.select_choice(Some(3), &slides));
    assert!(!p.select_choice(Some(usize::MAX), &slides));
    assert_eq!(p.phase_kind(), PhaseKind::WaitingForInput);
    assert_eq!(p.next_slide(), "Living");
}

#[test]
fn input_needs_the_slide_to_be_there() {
    let slides = house();
    let layout = ChoiceLayout::new(-100);
    let mut p = Player::new();
    run_to(&mut p, PhaseKind::WaitingForInput, &slides);
    p.on_pointer_moved(-130, &layout, &slides);
    assert_eq!(p.hovering_choice(), Some(1));
    let empty: Vec<Slide> = Vec::new();
    p.on_pointer_moved(-100, &layout, &empty);
    assert_eq!(p.hovering_choice(), Some(1));
    assert!(!p.on_pointer_clicked(&empty));
    assert_eq!(p.phase_kind(), PhaseKind::WaitingForInput);
    assert_eq!(p.next_slide(), "Living");
}

#[test]
fn only_choices_on_show_can_be_hovered() {
    let slides = house();
    let layout = ChoiceLayout::new(-100);
    let mut p = Player::new();
    run_to(&mut p, PhaseKind::FadeInChoices, &slides);
    p.tick(100_000, &no_events(), &slides, &no_gallery());
    p.on_pointer_moved(-100, &layout, &slides);
    assert_eq!(p.hovering_choice(), Some(0));
    p.on_pointer_moved(-140, &layout, &slides);
    assert_eq!(p.hovering_choice(), None);
    p.tick(100_000, &no_events(), &slides, &no_gallery());
    p.on_pointer_moved(-140, &layout, &slides);
    assert_eq!(p.hovering_choice(), Some(1));
    p.tick(0, &no_events(), &slides, &no_gallery());
    assert_eq!(
        p.current_display().choice_labels,
        vec![label("To the kitchen", false), label("Stay", true)]
    );
}

#[test]
fn the_pointer_sweeps_while_the_player_waits() {
    let slides = house();
    let mut p = Player::new();
    run_to(&mut p, PhaseKind::WaitingForInput, &slides);
    assert_eq!(p.sweep_step(), 0);
    p.tick(300_000, &no_events(), &slides, &no_gallery());
    assert_eq!(p.sweep_step(), 1);
    p.tick(300_000, &no_events(), &slides, &no_gallery());
    assert_eq!(p.sweep_step(), 2);
    p.tick(300_000, &no_events(), &slides, &no_gallery());
    assert_eq!(p.sweep_step(), 3);
    p.tick(300_000, &no_events(), &slides, &no_gallery());
    assert_eq!(p.sweep_step(), 0);
    assert!(p.select_choice(Some(0), &slides));
    assert_eq!(p.sweep_step(), 0);
}

#[test]
fn choices_are_written_one_to_a_line() {
    let d = Display {
        slide: SlideStatus::Shown,
        background: BackgroundStatus::Unset,
        background_text: String::new(),
        description_text: String::new(),
        choice_labels: vec![label("Go north", false), label("Stay", false)],
    };
    assert_eq!(d.choices_text(0), "Go north\n\nStay\n\n");
    assert_eq!(d.choices_text(3), "Go north\n\nStay\n\n");
    assert_eq!(Display::blank().choices_text(2), "");
}

#[test]
fn the_hovered_choice_stands_between_pointers() {
    let d = Display {
        slide: SlideStatus::Shown,
        background: BackgroundStatus::Unset,
        background_text: String::new(),
        description_text: String::new(),
        choice_labels: vec![label("Go north", true), label("Stay", false)],
    };
    assert_eq!(POINTER_WIDTH, 5);
    assert_eq!(d.choices_text(0), ">      Go north      <\n\nStay\n\n");
    assert_eq!(d.choices_text(2), "-->    Go north    <--\n\nStay\n\n");
    assert_eq!(d.choices_text(3), "--->   Go north   <---\n\nStay\n\n");
    assert_eq!(d.choices_text(5), "-----> Go north <-----\n\nStay\n\n");
    assert_eq!(d.choices_text(7), "-------> Go north <-------\n\nStay\n\n");
}

#[test]
fn displays_are_copied_whole() {
    let d = Display {
        slide: SlideStatus::Shown,
        background: BackgroundStatus::Ready,
        background_text: "$$\n".to_string(),
        description_text: "abc".to_string(),
        choice_labels: vec![label("Go north", true), label("Stay", false)],
    };
    assert_eq!(d.clone(), d);
    assert_eq!(label("x", true).clone(), label("x", true));
}

#[test]
fn a_rename_in_the_tick_of_a_choice_is_not_missed() {
    let mut slides = house();
    let mut p = Player::new();
    run_to(&mut p, PhaseKind::WaitingForInput, &slides);
    assert!(p.select_choice(Some(1), &slides));
    assert_eq!(p.next_slide(), "Living");
    let events = vec![CrudEvent::Renamed("Living".to_string(), "Den".to_string())];
    event_handler(&events, &mut slides);
    update_references(&events, &mut slides);
    let outcome = p.tick(0, &events, &slides, &no_gallery());
    assert_eq!(outcome, TickOutcome::Played(PhaseSignal::PhaseCompleted));
    assert_eq!(p.phase_kind(), PhaseKind::FadeOutTextAndChoices);
    assert_eq!(p.current_slide(), "Den");
    assert_eq!(p.next_slide(), "Den");
    assert_eq!(p.grace_left(), 3);
    run_to(&mut p, PhaseKind::FadeInBackground, &slides);
    assert_eq!(p.current_slide(), "Den");
    assert_eq!(p.tick(1, &no_events(), &slides, &no_gallery()), TickOutcome::Played(PhaseSignal::Running));
}

#[test]
fn a_presentation_layer_may_report_the_hover_itself() {
    let slides = house();
    let mut p = Player::new();
    run_to(&mut p, PhaseKind::WaitingForInput, &slides);
    p.hover_choice(Some(1));
    assert_eq!(p.hovering_choice(), Some(1));
    p.tick(0, &no_events(), &slides, &no_gallery());
    assert_eq!(
        p.current_display().choice_labels,
        vec![label("To the kitchen", false), label("Stay", true), label("Up", false)]
    );
    assert!(p.on_pointer_clicked(&slides));
    assert_eq!(p.next_slide(), "Living");
    p.hover_choice(None);
    assert_eq!(p.hovering_choice(), None);
}

#[test]
fn the_player_keeps_its_settings() {
    let timing = Timing { pause_us: 42, ..Timing::new() };
    let p = Player::starting_at("Living".to_string(), timing, 7);
    assert_eq!(p.timing().pause_us, 42);
    assert_eq!(p.timing().bg_fade_in_us, 1_500_000);
    assert_eq!(p.grace_ticks(), 7);
    assert_eq!(p.grace_left(), 7);
    assert_eq!(Player::new().grace_ticks(), 3);
}

#[test]
fn the_description_comes_in_steadily() {
    let slides = house();
    let mut p = Player::new();
    run_to(&mut p, PhaseKind::FadeInText, &slides);
    let mut shown = p.current_display().description_text;
    assert_eq!(shown, "");
    while p.phase_kind() == PhaseKind::FadeInText {
        p.tick(16_667, &no_events(), &slides, &no_gallery());
        let now = p.current_display().description_text;
        assert!(now.starts_with(&shown));
        assert!("You are in the living room.".starts_with(&now));
        shown = now;
    }
    assert_eq!(p.phase_kind(), PhaseKind::PauseAfterText);
    assert_eq!(shown, "You are in the living room.");
}

#[test]
fn the_choices_come_in_steadily() {
    let slides = house();
    let mut p = Player::new();
    run_to(&mut p, PhaseKind::FadeInChoices, &slides);
    let mut count = p.current_display().choice_labels.len();
    assert_eq!(count, 0);
    while p.phase_kind() == PhaseKind::FadeInChoices {
        p.tick(16_667, &no_events(), &slides, &no_gallery());
        let now = p.current_display().choice_labels.len();
        assert!(now >= count);
        count = now;
    }
    assert_eq!(p.phase_kind(), PhaseKind::WaitingForInput);
    assert_eq!(count, 3);
}
