//! What holds of a play session over whole ticks: renames do not disturb it,
//! a missing slide is tolerated for exactly the grace period, and a choice is
//! taken only while the player waits for one.

use vstd::prelude::*;
use crate::clock::{ClockEvent, PhaseModel, SlideContext, Timing, law_event_keeps_or_succeeds};
use crate::fraction::{lemma_floor_of_bounds, lemma_floor_of_monotonic};
use crate::images::BackgroundEntryView;
use crate::model::{
    CrudEventView,
    Slide,
    SlideView,
    event_applied,
    references_updated,
    lemma_first_named,
    lemma_rename_keeps_position,
    name_renamed,
    slide_named,
    slide_names,
    slide_renamed,
    slide_retargeted,
};
use crate::player::{
    DisplayView,
    PlayerModel,
    context_of,
    display_of,
    shown_choices,
    shown_description,
    visible_choices,
};
use crate::reveal_model::{
    law_background_and_choices_monotonic,
    law_text_fraction_monotonic,
    lemma_reveal_wf,
    revealed,
};

verus! {

/// The slides after the editing side has applied a rename of `old_name` to
/// `new_name`: the notification is applied to the slides, and their links
/// are made to follow it.
pub open spec fn slides_after_rename(
    slides: Seq<SlideView>,
    old_name: Seq<char>,
    new_name: Seq<char>,
) -> Seq<SlideView> {
    references_updated(
        event_applied::<Slide>(slides, CrudEventView::Renamed(old_name, new_name)),
        CrudEventView::Renamed(old_name, new_name),
    )
}

/// After a rename there are as many slides as before, each in its place: the
/// one of the old name bears the new one, and every link to it follows.
pub proof fn lemma_slides_after_rename(
    slides: Seq<SlideView>,
    old_name: Seq<char>,
    new_name: Seq<char>,
)
    ensures
        slides_after_rename(slides, old_name, new_name).len() == slides.len(),
        forall|i: int|
            0 <= i < slides.len() ==> #[trigger] slides_after_rename(
                slides,
                old_name,
                new_name,
            )[i] == slide_retargeted(
                slide_renamed(slides[i], old_name, new_name),
                old_name,
                new_name,
            ),
{
    let renamed = event_applied::<Slide>(slides, CrudEventView::Renamed(old_name, new_name));
    assert forall|i: int| 0 <= i < slides.len() implies #[trigger] renamed[i] == slide_renamed(
        slides[i],
        old_name,
        new_name,
    ) by {}
}

/// Looking a slide up under its new name, after a rename, finds the slide that
/// the old name found before it, renamed and with its links updated.
pub proof fn lemma_lookup_follows_rename(
    slides: Seq<SlideView>,
    name: Seq<char>,
    old_name: Seq<char>,
    new_name: Seq<char>,
)
    requires
        new_name == old_name || (name != new_name && forall|i: int|
            0 <= i < slides.len() ==> slides[i].name != new_name),
    ensures
        slide_named(
            slides_after_rename(slides, old_name, new_name),
            name_renamed(name, old_name, new_name),
        ) == match slide_named(slides, name) {
            Some(slide) => Some(
                slide_retargeted(slide_renamed(slide, old_name, new_name), old_name, new_name),
            ),
            None => None,
        },
{
    let names = slide_names(slides);
    let world = slides_after_rename(slides, old_name, new_name);
    lemma_slides_after_rename(slides, old_name, new_name);
    assert(slide_names(world) =~= names.map_values(
        |n: Seq<char>| name_renamed(n, old_name, new_name),
    ));
    lemma_rename_keeps_position(names, name, old_name, new_name);
    lemma_first_named(names, name);
}

/// A rename changes nothing of what a slide shows: its description, its
/// background, the number of its actions and their labels.
pub proof fn lemma_rename_keeps_content(
    slide: SlideView,
    old_name: Seq<char>,
    new_name: Seq<char>,
    gallery: Seq<BackgroundEntryView>,
    p: PlayerModel,
)
    requires
        p.wf(),
    ensures
        ({
            let after = slide_retargeted(
                slide_renamed(slide, old_name, new_name),
                old_name,
                new_name,
            );
            &&& context_of(after) == context_of(slide)
            &&& display_of(after, gallery, p.fractions(), p.hovering_choice) == display_of(
                slide,
                gallery,
                p.fractions(),
                p.hovering_choice,
            )
        }),
{
    let after = slide_retargeted(slide_renamed(slide, old_name, new_name), old_name, new_name);
    assert(after.actions.len() == slide.actions.len());
    lemma_reveal_wf(p.phase);
    lemma_floor_of_bounds(p.fractions().choices_fraction, slide.actions.len());
    assert(shown_choices(after.actions, p.fractions().choices_fraction, p.hovering_choice)
        =~= shown_choices(slide.actions, p.fractions().choices_fraction, p.hovering_choice));
}

/// Rename safety. Let the current slide be called `old_name` and be there, and
/// let the editing side rename it to `new_name`, a name that no slide bears
/// and that the player is not about to move to. Then the tick that brings the
/// rename leaves the player exactly where the same tick would have left it
/// had there been no rename: the same phase, the same fractions, the same
/// display, with no tick of grace used; only the names it holds have followed
/// the rename, and the current one finds the renamed slide.
pub proof fn law_rename_keeps_play(
    p: PlayerModel,
    dt: nat,
    slides: Seq<SlideView>,
    gallery: Seq<BackgroundEntryView>,
    old_name: Seq<char>,
    new_name: Seq<char>,
)
    requires
        p.wf(),
        p.current_slide == old_name,
        slide_named(slides, old_name) is Some,
        new_name == old_name || (p.next_slide != new_name && forall|i: int|
            0 <= i < slides.len() ==> slides[i].name != new_name),
    ensures
        ({
            let world = slides_after_rename(slides, old_name, new_name);
            let with_rename = p.tick(
                dt,
                seq![CrudEventView::Renamed(old_name, new_name)],
                world,
                gallery,
            );
            let without = p.tick(dt, Seq::<CrudEventView<SlideView>>::empty(), slides, gallery);
            let followed = p.notified(CrudEventView::Renamed(old_name, new_name));
            &&& followed.current_slide == new_name
            &&& slide_named(world, followed.current_slide) == Some(
                slide_retargeted(
                    slide_renamed(slide_named(slides, old_name)->0, old_name, new_name),
                    old_name,
                    new_name,
                ),
            )
            &&& with_rename.phase == without.phase
            &&& with_rename.fractions() == without.fractions()
            &&& with_rename.display == without.display
            &&& with_rename.current_display() == without.current_display()
            &&& !with_rename.lost
            &&& with_rename.grace_left == p.grace_ticks
            &&& with_rename.current_slide == name_renamed(
                without.current_slide,
                old_name,
                new_name,
            )
            &&& with_rename.next_slide == name_renamed(without.next_slide, old_name, new_name)
        }),
{
    let event = CrudEventView::<SlideView>::Renamed(old_name, new_name);
    let events = seq![event];
    let none = Seq::<CrudEventView<SlideView>>::empty();
    let world = slides_after_rename(slides, old_name, new_name);
    let followed = p.notified(event);
    assert(events.drop_last() =~= none);
    assert(events.last() == event);
    assert(p.handle_renames(events) == followed) by {
        assert(p.handle_renames(events.drop_last()) == p);
    }
    assert(p.handle_renames(none) == p);

    // The clock's part: the same slide is found, under its new name.
    lemma_lookup_follows_rename(slides, old_name, old_name, new_name);
    let slide = slide_named(slides, old_name)->0;
    lemma_rename_keeps_content(slide, old_name, new_name, gallery, p);
    let moved = followed.update_state(dt, world);
    let plain = p.update_state(dt, slides);
    law_event_keeps_or_succeeds(
        p.phase,
        ClockEvent::Tick { dt, ctx: context_of(slide) },
        p.timing,
    );
    assert(moved.phase == plain.phase);
    assert(moved.current_slide == name_renamed(plain.current_slide, old_name, new_name));

    // The display: whichever slide is current after the clock's part, the
    // rename has carried it along.
    lemma_lookup_follows_rename(slides, plain.current_slide, old_name, new_name);
    match slide_named(slides, plain.current_slide) {
        Some(shown) => {
            lemma_rename_keeps_content(shown, old_name, new_name, gallery, plain);
            assert(moved.fractions() == plain.fractions());
        },
        None => {},
    }
}

/// What goes into one tick.
pub struct TickInput {
    pub dt: nat,
    pub events: Seq<CrudEventView<SlideView>>,
    pub slides: Seq<SlideView>,
    pub gallery: Seq<BackgroundEntryView>,
}

/// The state after a run of ticks.
pub open spec fn after_ticks(p: PlayerModel, inputs: Seq<TickInput>) -> PlayerModel
    decreases inputs.len(),
{
    if inputs.len() == 0 {
        p
    } else {
        let last = inputs.last();
        after_ticks(p, inputs.drop_last()).tick(last.dt, last.events, last.slides, last.gallery)
    }
}

/// Notifications other than renames leave the player as it is.
pub proof fn lemma_only_renames_matter(p: PlayerModel, events: Seq<CrudEventView<SlideView>>)
    requires
        forall|j: int| 0 <= j < events.len() ==> !(events[j] is Renamed),
    ensures
        p.handle_renames(events) == p,
    decreases events.len(),
{
    if events.len() > 0 {
        lemma_only_renames_matter(p, events.drop_last());
    }
}

/// The grace period, to the tick. Let the current slide have been there at
/// the last tick, and be missing at every tick of a run in which nothing is
/// renamed. Then nothing of the player moves; for as many ticks as the grace
/// period counts, the display stays what it last was; and from the tick after
/// that on, the display says that the slide was not found.
pub proof fn law_grace_period(p: PlayerModel, inputs: Seq<TickInput>)
    requires
        !p.lost,
        p.grace_left == p.grace_ticks,
        forall|k: int|
            0 <= k < inputs.len() ==> slide_named(
                (#[trigger] inputs[k]).slides,
                p.current_slide,
            ) is None,
        forall|k: int, j: int|
            0 <= k < inputs.len() && 0 <= j < inputs[k].events.len() ==> !(
            #[trigger] inputs[k].events[j] is Renamed),
    ensures
        ({
            let q = after_ticks(p, inputs);
            &&& q.phase == p.phase
            &&& q.current_slide == p.current_slide
            &&& q.next_slide == p.next_slide
            &&& q.display == p.display
            &&& inputs.len() <= p.grace_ticks ==> !q.lost && q.current_display() == p.display
                && q.grace_left == p.grace_ticks - inputs.len()
            &&& inputs.len() > p.grace_ticks ==> q.lost && q.current_display()
                == DisplayView::slide_not_found()
        }),
    decreases inputs.len(),
{
    if inputs.len() > 0 {
        let earlier = inputs.drop_last();
        let last = inputs.last();
        assert forall|k: int| 0 <= k < earlier.len() implies slide_named(
            (#[trigger] earlier[k]).slides,
            p.current_slide,
        ) is None by {
            assert(earlier[k] == inputs[k]);
        }
        assert forall|k: int, j: int|
            0 <= k < earlier.len() && 0 <= j < earlier[k].events.len() implies !(
        #[trigger] earlier[k].events[j] is Renamed) by {
            assert(earlier[k] == inputs[k]);
        }
        law_grace_period(p, earlier);
        let before = after_ticks(p, earlier);
        assert(last == inputs[inputs.len() - 1]);
        assert forall|j: int| 0 <= j < last.events.len() implies !(last.events[j] is Renamed) by {
            assert(!(inputs[inputs.len() - 1].events[j] is Renamed));
        }
        lemma_only_renames_matter(before, last.events);
    }
}

/// When a slide of the current name is there again, one tick brings the
/// player back: it is no longer lost, the whole grace period is restored, and
/// the display is that slide's.
pub proof fn law_found_again(
    p: PlayerModel,
    dt: nat,
    slides: Seq<SlideView>,
    gallery: Seq<BackgroundEntryView>,
)
    requires
        slide_named(slides, p.current_slide) is Some,
    ensures
        ({
            let q = p.tick(dt, Seq::<CrudEventView<SlideView>>::empty(), slides, gallery);
            &&& !q.lost
            &&& q.grace_left == p.grace_ticks
            &&& slide_named(slides, q.current_slide) matches Some(shown) ==> q.current_display()
                == display_of(shown, gallery, q.fractions(), q.hovering_choice)
        }),
{
    assert(p.handle_renames(Seq::<CrudEventView<SlideView>>::empty()) == p);
}

/// A session visits the phases in the order of the cycle. Whatever a tick
/// brings, and whatever is chosen, the player is afterwards in the phase it
/// was in or in the one that follows; only a choice takes it out of
/// `WaitingForInput`, and a tick that finds no slide leaves the phase alone.
pub proof fn law_session_follows_cycle(
    p: PlayerModel,
    input: TickInput,
    choice: Option<usize>,
)
    ensures
        ({
            let ticked = p.tick(input.dt, input.events, input.slides, input.gallery);
            let chosen = p.chosen(choice, input.slides);
            &&& ticked.phase.kind() == p.phase.kind() || ticked.phase.kind()
                == p.phase.kind().successor()
            &&& p.phase is WaitingForInput ==> ticked.phase is WaitingForInput
            &&& slide_named(input.slides, p.handle_renames(input.events).current_slide) is None
                ==> ticked.phase == p.phase
            &&& chosen.phase.kind() == p.phase.kind() || chosen.phase.kind()
                == p.phase.kind().successor()
            &&& !(p.phase is WaitingForInput) ==> chosen.phase == p.phase
            &&& p.wf() ==> ticked.wf() && chosen.wf()
        }),
{
    lemma_renames_keep_the_phase(p, input.events);
    let heard = p.handle_renames(input.events);
    match slide_named(input.slides, heard.current_slide) {
        Some(slide) => {
            law_event_keeps_or_succeeds(
                p.phase,
                ClockEvent::Tick { dt: input.dt, ctx: context_of(slide) },
                p.timing,
            );
        },
        None => {},
    }
}

/// Notifications change the names that the player holds and nothing else.
pub proof fn lemma_renames_keep_the_phase(p: PlayerModel, events: Seq<CrudEventView<SlideView>>)
    ensures
        p.handle_renames(events) == (PlayerModel {
            current_slide: p.handle_renames(events).current_slide,
            next_slide: p.handle_renames(events).next_slide,
            ..p
        }),
    decreases events.len(),
{
    if events.len() > 0 {
        lemma_renames_keep_the_phase(p, events.drop_last());
    }
}

/// Choice gating, the closed side. In every phase but `WaitingForInput` a
/// click changes nothing, whatever is hovered: it neither sets the next slide
/// nor forces a transition. Nor does a click with nothing hovered, with the
/// current slide missing, or with a hovered position past the slide's actions.
pub proof fn law_click_gating(p: PlayerModel, slides: Seq<SlideView>)
    ensures
        !(p.phase is WaitingForInput) ==> p.clicked(slides) == p,
        p.hovering_choice is None ==> p.clicked(slides) == p,
        slide_named(slides, p.current_slide) is None ==> p.clicked(slides) == p,
        p.hovering_choice.is_some() && slide_named(slides, p.current_slide).is_some()
            && p.hovering_choice.unwrap() >= slide_named(
            slides,
            p.current_slide,
        ).unwrap().actions.len() ==> p.clicked(slides) == p,
{
}

/// Choice gating, the open side. While the player waits for input with the
/// pointer over action `i` of the current slide, a click makes the target of
/// that action the next slide and forces the clock into `GotInput`, and
/// changes nothing else.
pub proof fn law_click_takes_choice(
    p: PlayerModel,
    slides: Seq<SlideView>,
    slide: SlideView,
    i: usize,
)
    requires
        p.phase is WaitingForInput,
        p.hovering_choice == Some(i),
        slide_named(slides, p.current_slide) == Some(slide),
        i < slide.actions.len(),
    ensures
        p.clicked(slides) == (PlayerModel {
            next_slide: slide.actions[i as int].target_slide,
            phase: PhaseModel::GotInput,
            ..p
        }),
{
}

/// What is on show follows the fractions. While the text fades in, each tick
/// shows a beginning of the description that begins with what was shown
/// before, and the tick that ends the fade shows all of it. While the choices
/// fade in, no tick takes a choice away, and the tick that ends the fade
/// shows them all.
pub proof fn law_text_and_choices_come_in_steadily(
    phase: PhaseModel,
    dt: nat,
    ctx: SlideContext,
    timing: Timing,
    slide: SlideView,
)
    requires
        phase.wf(),
    ensures
        ({
            let next = phase.advance(dt, ctx, timing);
            let ended = next.kind() != phase.kind();
            let shown = shown_description(slide.description, revealed(phase).text_fraction);
            let then = shown_description(slide.description, revealed(next).text_fraction);
            let count = visible_choices(slide.actions.len(), revealed(phase).choices_fraction);
            let count_then = visible_choices(
                slide.actions.len(),
                revealed(next).choices_fraction,
            );
            &&& phase is FadeInText ==> shown.len() <= then.len() && shown == then.take(
                shown.len() as int,
            )
            &&& phase is FadeInText && ended ==> then == slide.description
            &&& phase is FadeInChoices ==> count <= count_then
            &&& phase is FadeInChoices && ended ==> count_then == slide.actions.len()
        }),
{
    let next = phase.advance(dt, ctx, timing);
    law_event_keeps_or_succeeds(phase, ClockEvent::Tick { dt, ctx }, timing);
    lemma_reveal_wf(phase);
    lemma_reveal_wf(next);
    law_text_fraction_monotonic(phase, dt, ctx, timing);
    law_background_and_choices_monotonic(phase, dt, ctx, timing);
    if phase is FadeInText {
        let before = revealed(phase).text_fraction;
        let after = revealed(next).text_fraction;
        let n = slide.description.len();
        lemma_floor_of_monotonic(before, after, n);
        lemma_floor_of_bounds(before, n);
        lemma_floor_of_bounds(after, n);
        let shown = shown_description(slide.description, before);
        let then = shown_description(slide.description, after);
        assert(shown =~= then.take(shown.len() as int));
        if next.kind() != phase.kind() {
            assert(then =~= slide.description);
        }
    }
    if phase is FadeInChoices {
        let before = revealed(phase).choices_fraction;
        let after = revealed(next).choices_fraction;
        let n = slide.actions.len();
        lemma_floor_of_monotonic(before, after, n);
        lemma_floor_of_bounds(after, n);
    }
}

} // verus!
