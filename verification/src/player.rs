//! The player: the state of one play session and the operations that move it.
//!
//! Once per tick the player takes the renames that the editing side reports,
//! looks its current slide up, advances the phase clock with that slide's
//! measures, and renders what is on show. A slide that has gone missing is
//! tolerated for a few ticks, during which the last rendered display stands;
//! after that the display says that the slide was not found, until a slide of
//! that name is there again.

use vstd::prelude::*;
use vstd::string::{StrSliceExecFns, StringExecFns};
use crate::clock::{
    Phase,
    PhaseClock,
    PhaseKind,
    PhaseModel,
    PhaseSignal,
    SlideContext,
    Timing,
};
use crate::fraction::{Fraction, Ratio};
use crate::images::{
    BACKGROUND_MISSING_TEXT,
    BACKGROUND_PENDING_TEXT,
    BackgroundEntry,
    BackgroundEntryView,
    RenderedBackground,
    RenderedBackgroundView,
    entry_views,
    get_rendered_background,
    rendered_background,
};
use crate::input::ChoiceLayout;
use crate::model::{
    Action,
    ActionView,
    CrudEvent,
    CrudEventView,
    Slide,
    SlideView,
    action_views,
    find_slide,
    slide_event_views,
    slide_named,
    slide_views,
};
use crate::reveal_model::{Reveal, RevealModel, revealed};

verus! {

/// Number of ticks for which a missing slide is tolerated.
pub const GRACE_TICKS: u32 = 3;

/// Name of the slide on which a player made by `Player::new` starts.
pub const START_SLIDE: &'static str = "Living";

/// Shown in place of the description once the slide is lost.
pub const SLIDE_MISSING_TEXT: &'static str = "slide not found";

/// The text of a display whose slide was not found.
pub open spec fn slide_missing_text() -> Seq<char> {
    SLIDE_MISSING_TEXT@
}

/// The text shown for a background whose pixels have not arrived.
pub open spec fn background_pending_text() -> Seq<char> {
    BACKGROUND_PENDING_TEXT@
}

/// The text shown for a background that the gallery does not know.
pub open spec fn background_missing_text() -> Seq<char> {
    BACKGROUND_MISSING_TEXT@
}

/// The name of the slide on which a player made by `Player::new` starts.
pub open spec fn start_slide_name() -> Seq<char> {
    START_SLIDE@
}

/// Whether a display shows a slide.
#[derive(Clone, Copy, Debug, PartialEq, Eq, Structural)]
pub enum SlideStatus {
    /// The display shows the slide that was last found.
    Shown,
    /// The slide has been missing for longer than the grace period.
    NotFound,
}

/// Where the background text of a display comes from.
#[derive(Clone, Copy, Debug, PartialEq, Eq, Structural)]
pub enum BackgroundStatus {
    /// The slide names no background: the text is empty.
    Unset,
    /// The text is the background, rendered.
    Ready,
    /// The background is known but not fetched yet: the text says so.
    Pending,
    /// No background of that name is known: the text says so.
    NotFound,
}

/// The mathematical value of a [`ChoiceLabel`].
pub struct ChoiceLabelView {
    pub text: Seq<char>,
    pub is_hovered: bool,
}

/// One visible choice.
#[derive(Debug, PartialEq, Eq)]
pub struct ChoiceLabel {
    pub text: String,
    pub is_hovered: bool,
}

impl View for ChoiceLabel {
    type V = ChoiceLabelView;

    open spec fn view(&self) -> ChoiceLabelView {
        ChoiceLabelView { text: self.text@, is_hovered: self.is_hovered }
    }
}

impl Clone for ChoiceLabel {
    fn clone(&self) -> (copy: ChoiceLabel)
        ensures
            copy@ == self@,
    {
        ChoiceLabel { text: self.text.clone(), is_hovered: self.is_hovered }
    }
}

/// The values of a list of choice labels.
pub open spec fn label_views(labels: Seq<ChoiceLabel>) -> Seq<ChoiceLabelView> {
    labels.map_values(|l: ChoiceLabel| l@)
}

/// The mathematical value of a [`Display`].
pub struct DisplayView {
    pub slide: SlideStatus,
    pub background: BackgroundStatus,
    pub background_text: Seq<char>,
    pub description_text: Seq<char>,
    pub choice_labels: Seq<ChoiceLabelView>,
}

/// What the presentation layer draws.
#[derive(Debug, PartialEq, Eq)]
pub struct Display {
    pub slide: SlideStatus,
    pub background: BackgroundStatus,
    /// The background as text, or what stands in for it.
    pub background_text: String,
    /// The description, cut to what is revealed of it.
    pub description_text: String,
    /// The choices revealed so far, in order.
    pub choice_labels: Vec<ChoiceLabel>,
}

impl View for Display {
    type V = DisplayView;

    open spec fn view(&self) -> DisplayView {
        DisplayView {
            slide: self.slide,
            background: self.background,
            background_text: self.background_text@,
            description_text: self.description_text@,
            choice_labels: label_views(self.choice_labels@),
        }
    }
}

impl Clone for Display {
    fn clone(&self) -> (copy: Display)
        ensures
            copy@ == self@,
    {
        let mut labels: Vec<ChoiceLabel> = Vec::new();
        let mut i: usize = 0;
        while i < self.choice_labels.len()
            invariant
                i <= self.choice_labels.len(),
                labels.len() == i,
                forall|j: int| 0 <= j < i ==> labels@[j]@ == self.choice_labels@[j]@,
            decreases self.choice_labels.len() - i,
        {
            labels.push(self.choice_labels[i].clone());
            i += 1;
        }
        assert(label_views(labels@) =~= label_views(self.choice_labels@));
        Display {
            slide: self.slide,
            background: self.background,
            background_text: self.background_text.clone(),
            description_text: self.description_text.clone(),
            choice_labels: labels,
        }
    }
}

impl DisplayView {
    /// The display before anything was rendered: nothing on show.
    pub open spec fn blank() -> DisplayView {
        DisplayView {
            slide: SlideStatus::Shown,
            background: BackgroundStatus::Unset,
            background_text: Seq::<char>::empty(),
            description_text: Seq::<char>::empty(),
            choice_labels: Seq::<ChoiceLabelView>::empty(),
        }
    }

    /// The display of a player whose slide was not found.
    pub open spec fn slide_not_found() -> DisplayView {
        DisplayView {
            slide: SlideStatus::NotFound,
            background: BackgroundStatus::Unset,
            background_text: Seq::<char>::empty(),
            description_text: slide_missing_text(),
            choice_labels: Seq::<ChoiceLabelView>::empty(),
        }
    }
}

impl Display {
    /// The choices as one block of text, a line for each with a blank line
    /// after it, the hovered one between two pointers of `dashes` dashes.
    pub fn choices_text(&self, dashes: usize) -> (text: String)
        ensures
            text@ == choice_lines(self@.choice_labels, dashes as nat, self@.choice_labels.len()),
    {
        let pad = if dashes <= POINTER_WIDTH {
            POINTER_WIDTH - dashes
        } else {
            0
        };
        let mut text = String::new();
        let mut i: usize = 0;
        while i < self.choice_labels.len()
            invariant
                i <= self.choice_labels.len(),
                pad == padding(dashes as nat),
                text@ == choice_lines(self@.choice_labels, dashes as nat, i as nat),
            decreases self.choice_labels.len() - i,
        {
            let label = &self.choice_labels[i];
            let ghost before = text@;
            assert(self@.choice_labels[i as int] == label@);
            proof {
                reveal_strlit("> ");
                reveal_strlit(" <");
                reveal_strlit("\n\n");
            }
            if label.is_hovered {
                append_dashes(&mut text, dashes);
                text.append("> ");
                append_blanks(&mut text, pad);
            }
            text.append(label.text.as_str());
            if label.is_hovered {
                append_blanks(&mut text, pad);
                text.append(" <");
                append_dashes(&mut text, dashes);
            }
            text.append("\n\n");
            assert("> "@ =~= seq!['>', ' ']);
            assert(" <"@ =~= seq![' ', '<']);
            assert("\n\n"@ =~= seq!['\n', '\n']);
            assert(text@ =~= before + choice_line(label@, dashes as nat));
            i += 1;
        }
        text
    }

    /// The display before anything was rendered.
    pub fn blank() -> (d: Display)
        ensures
            d@ == DisplayView::blank(),
    {
        let d = Display {
            slide: SlideStatus::Shown,
            background: BackgroundStatus::Unset,
            background_text: String::new(),
            description_text: String::new(),
            choice_labels: Vec::new(),
        };
        assert(label_views(d.choice_labels@) =~= Seq::<ChoiceLabelView>::empty());
        d
    }

    /// The display of a player whose slide was not found.
    pub fn slide_not_found() -> (d: Display)
        ensures
            d@ == DisplayView::slide_not_found(),
    {
        let d = Display {
            slide: SlideStatus::NotFound,
            background: BackgroundStatus::Unset,
            background_text: String::new(),
            description_text: String::from_str(SLIDE_MISSING_TEXT),
            choice_labels: Vec::new(),
        };
        assert(label_views(d.choice_labels@) =~= Seq::<ChoiceLabelView>::empty());
        d
    }
}

/// `n` copies of `c`.
pub open spec fn repeated(c: char, n: nat) -> Seq<char> {
    Seq::new(n, |i: int| c)
}

/// Width of the pointer beside a hovered choice, without its head.
pub const POINTER_WIDTH: usize = 5;

/// The blanks that fill the pointer up to its width behind `dashes` dashes.
pub open spec fn padding(dashes: nat) -> nat {
    if dashes <= POINTER_WIDTH {
        (POINTER_WIDTH - dashes) as nat
    } else {
        0
    }
}

/// The line of one choice, with the blank line after it. A hovered choice
/// stands between two pointers that point at it, each `dashes` dashes long
/// and padded with blanks to the same width whatever `dashes` is.
pub open spec fn choice_line(label: ChoiceLabelView, dashes: nat) -> Seq<char> {
    if label.is_hovered {
        repeated('-', dashes) + seq!['>', ' '] + repeated(' ', padding(dashes)) + label.text
            + repeated(' ', padding(dashes)) + seq![' ', '<'] + repeated('-', dashes) + seq![
            '\n',
            '\n',
        ]
    } else {
        label.text + seq!['\n', '\n']
    }
}

/// The lines of the first `k` choices.
pub open spec fn choice_lines(labels: Seq<ChoiceLabelView>, dashes: nat, k: nat) -> Seq<char>
    decreases k,
{
    if k == 0 {
        Seq::<char>::empty()
    } else {
        choice_lines(labels, dashes, (k - 1) as nat) + choice_line(labels[k - 1], dashes)
    }
}

/// Writes `n` dashes at the end of `text`.
fn append_dashes(text: &mut String, n: usize)
    ensures
        final(text)@ == old(text)@ + repeated('-', n as nat),
{
    let mut i: usize = 0;
    assert(text@ =~= old(text)@ + repeated('-', 0));
    while i < n
        invariant
            i <= n,
            text@ == old(text)@ + repeated('-', i as nat),
        decreases n - i,
    {
        proof {
            reveal_strlit("-");
        }
        text.append("-");
        i += 1;
        assert(text@ =~= old(text)@ + repeated('-', i as nat));
    }
}

/// Writes `n` blanks at the end of `text`.
fn append_blanks(text: &mut String, n: usize)
    ensures
        final(text)@ == old(text)@ + repeated(' ', n as nat),
{
    let mut i: usize = 0;
    assert(text@ =~= old(text)@ + repeated(' ', 0));
    while i < n
        invariant
            i <= n,
            text@ == old(text)@ + repeated(' ', i as nat),
        decreases n - i,
    {
        proof {
            reveal_strlit(" ");
        }
        text.append(" ");
        i += 1;
        assert(text@ =~= old(text)@ + repeated(' ', i as nat));
    }
}

/// What the clock needs of a slide: the length of its description and the
/// number of its choices.
pub open spec fn context_of(slide: SlideView) -> SlideContext {
    SlideContext {
        description_chars: slide.description.len() as usize,
        choice_count: slide.actions.len() as usize,
    }
}

/// The part of the description that is on show: its first
/// `floor(length * text_fraction)` characters.
pub open spec fn shown_description(description: Seq<char>, text_fraction: Ratio) -> Seq<char> {
    description.take(text_fraction.floor_of(description.len()) as int)
}

/// The number of choices on show: `floor(count * choices_fraction)`.
pub open spec fn visible_choices(count: nat, choices_fraction: Ratio) -> nat {
    choices_fraction.floor_of(count)
}

/// The choices on show, each marked if the pointer hovers it.
pub open spec fn shown_choices(
    actions: Seq<ActionView>,
    choices_fraction: Ratio,
    hovering: Option<usize>,
) -> Seq<ChoiceLabelView> {
    Seq::new(
        visible_choices(actions.len(), choices_fraction),
        |i: int| ChoiceLabelView { text: actions[i].text, is_hovered: hovering == Some(i as usize) },
    )
}

/// Where the background text of a slide comes from.
pub open spec fn shown_background_status(
    background: Seq<char>,
    gallery: Seq<BackgroundEntryView>,
    opacity: Ratio,
) -> BackgroundStatus {
    if background.len() == 0 {
        BackgroundStatus::Unset
    } else {
        match rendered_background(gallery, background, opacity) {
            RenderedBackgroundView::Ready(_) => BackgroundStatus::Ready,
            RenderedBackgroundView::Pending => BackgroundStatus::Pending,
            RenderedBackgroundView::NotFound => BackgroundStatus::NotFound,
        }
    }
}

/// The background text of a slide: nothing where the slide names no
/// background, the background rendered at `opacity` where the gallery has it,
/// and otherwise the text that stands in for a pending or an unknown one.
pub open spec fn shown_background_text(
    background: Seq<char>,
    gallery: Seq<BackgroundEntryView>,
    opacity: Ratio,
) -> Seq<char> {
    if background.len() == 0 {
        Seq::<char>::empty()
    } else {
        match rendered_background(gallery, background, opacity) {
            RenderedBackgroundView::Ready(text) => text,
            RenderedBackgroundView::Pending => background_pending_text(),
            RenderedBackgroundView::NotFound => background_missing_text(),
        }
    }
}

/// What is drawn of `slide` at the given reveal fractions.
pub open spec fn display_of(
    slide: SlideView,
    gallery: Seq<BackgroundEntryView>,
    fractions: RevealModel,
    hovering: Option<usize>,
) -> DisplayView {
    DisplayView {
        slide: SlideStatus::Shown,
        background: shown_background_status(slide.background, gallery, fractions.bg_opacity),
        background_text: shown_background_text(slide.background, gallery, fractions.bg_opacity),
        description_text: shown_description(slide.description, fractions.text_fraction),
        choice_labels: shown_choices(slide.actions, fractions.choices_fraction, hovering),
    }
}

/// Cuts `description` to what `text_fraction` reveals of it.
pub fn reveal_description(description: &String, text_fraction: Fraction) -> (text: String)
    ensures
        text@ == shown_description(description@, text_fraction@),
{
    let total = description.as_str().unicode_len();
    let shown = text_fraction.floor_of(total);
    let part = description.as_str().substring_char(0, shown);
    String::from_str(part)
}

/// The labels of the choices that `choices_fraction` reveals.
pub fn reveal_choices(
    actions: &Vec<Action>,
    choices_fraction: Fraction,
    hovering: Option<usize>,
) -> (labels: Vec<ChoiceLabel>)
    ensures
        label_views(labels@) == shown_choices(action_views(actions@), choices_fraction@, hovering),
{
    let visible = choices_fraction.floor_of(actions.len());
    let mut labels: Vec<ChoiceLabel> = Vec::new();
    let mut i: usize = 0;
    while i < visible
        invariant
            i <= visible <= actions.len(),
            labels.len() == i,
            forall|j: int|
                0 <= j < i ==> labels@[j]@ == (ChoiceLabelView {
                    text: actions@[j]@.text,
                    is_hovered: hovering == Some(j as usize),
                }),
        decreases visible - i,
    {
        let is_hovered = match hovering {
            Some(h) => h == i,
            None => false,
        };
        labels.push(ChoiceLabel { text: actions[i].text.clone(), is_hovered });
        i += 1;
    }
    assert(label_views(labels@) =~= shown_choices(
        action_views(actions@),
        choices_fraction@,
        hovering,
    ));
    labels
}

/// Renders `slide` at the given reveal fractions.
pub fn render_display(
    slide: &Slide,
    gallery: &Vec<BackgroundEntry>,
    fractions: &Reveal,
    hovering: Option<usize>,
) -> (display: Display)
    ensures
        display@ == display_of(slide@, entry_views(gallery@), fractions@, hovering),
{
    let mut background = BackgroundStatus::Unset;
    let mut background_text = String::new();
    if slide.background.as_str().unicode_len() > 0 {
        match get_rendered_background(gallery, &slide.background, fractions.bg_opacity) {
            RenderedBackground::Ready(text) => {
                background = BackgroundStatus::Ready;
                background_text = text;
            },
            RenderedBackground::Pending => {
                background = BackgroundStatus::Pending;
                background_text = String::from_str(BACKGROUND_PENDING_TEXT);
            },
            RenderedBackground::NotFound => {
                background = BackgroundStatus::NotFound;
                background_text = String::from_str(BACKGROUND_MISSING_TEXT);
            },
        }
    }
    Display {
        slide: SlideStatus::Shown,
        background,
        background_text,
        description_text: reveal_description(&slide.description, fractions.text_fraction),
        choice_labels: reveal_choices(&slide.actions, fractions.choices_fraction, hovering),
    }
}

/// What one call of `update_state` found.
#[derive(Clone, Copy, Debug, PartialEq, Eq, Structural)]
pub enum TickOutcome {
    /// The current slide was found and the clock advanced.
    Played(PhaseSignal),
    /// The current slide is missing and the grace period has not run out:
    /// nothing moved.
    SlideMissing,
    /// The current slide is missing and the grace period is over.
    SlideLost,
}

/// The mathematical state of a [`Player`].
pub struct PlayerModel {
    /// Name of the slide on show. It may name no slide.
    pub current_slide: Seq<char>,
    /// Name of the slide that becomes current when the exit sequence ends.
    pub next_slide: Seq<char>,
    pub phase: PhaseModel,
    pub timing: Timing,
    /// The choice under the pointer.
    pub hovering_choice: Option<usize>,
    /// Number of ticks for which a missing slide is tolerated.
    pub grace_ticks: u32,
    /// How many of them are left.
    pub grace_left: u32,
    /// Whether the current slide has been missing for longer than that.
    pub lost: bool,
    /// What was rendered when the current slide was last found.
    pub display: DisplayView,
}

impl PlayerModel {
    /// The timers of the phase are in range.
    pub open spec fn wf(self) -> bool {
        self.phase.wf()
    }

    /// The state in which play starts: the background of `start` begins to
    /// fade in.
    pub open spec fn initial(start: Seq<char>, timing: Timing, grace_ticks: u32) -> PlayerModel {
        PlayerModel {
            current_slide: start,
            next_slide: start,
            phase: PhaseModel::initial(timing),
            timing,
            hovering_choice: None,
            grace_ticks,
            grace_left: grace_ticks,
            lost: false,
            display: DisplayView::blank(),
        }
    }

    /// The three reveal fractions.
    pub open spec fn fractions(self) -> RevealModel {
        revealed(self.phase)
    }

    /// The state after one notification: a rename of the current or of the
    /// next slide is followed; nothing else concerns the player.
    pub open spec fn notified(self, event: CrudEventView<SlideView>) -> PlayerModel {
        match event {
            CrudEventView::Renamed(old_name, new_name) => PlayerModel {
                current_slide: if self.current_slide == old_name {
                    new_name
                } else {
                    self.current_slide
                },
                next_slide: if self.next_slide == old_name {
                    new_name
                } else {
                    self.next_slide
                },
                ..self
            },
            _ => self,
        }
    }

    /// The state after a batch of notifications, taken in order of arrival.
    pub open spec fn handle_renames(self, events: Seq<CrudEventView<SlideView>>) -> PlayerModel
        decreases events.len(),
    {
        if events.len() == 0 {
            self
        } else {
            self.handle_renames(events.drop_last()).notified(events.last())
        }
    }

    /// Whether a tick of `dt` ends the exit sequence, so that the next slide
    /// becomes the current one.
    pub open spec fn changes_slide(self, dt: nat) -> bool {
        self.phase is FadeOutBackground && self.phase.ends(dt)
    }

    /// The state after the clock's part of a tick. With the current slide
    /// there, the phase advances by `dt` and the grace period is restored;
    /// when that ends the background fade-out, the next slide becomes
    /// current. With the slide missing nothing moves but the grace period,
    /// which loses one tick, and once none is left the slide is lost.
    pub open spec fn update_state(self, dt: nat, slides: Seq<SlideView>) -> PlayerModel {
        match slide_named(slides, self.current_slide) {
            Some(slide) => PlayerModel {
                current_slide: if self.changes_slide(dt) {
                    self.next_slide
                } else {
                    self.current_slide
                },
                phase: self.phase.advance(dt, context_of(slide), self.timing),
                grace_left: self.grace_ticks,
                lost: false,
                ..self
            },
            None => if self.grace_left > 0 {
                PlayerModel { grace_left: (self.grace_left - 1) as u32, ..self }
            } else {
                PlayerModel { lost: true, ..self }
            },
        }
    }

    /// What `update_state` reports.
    pub open spec fn outcome(self, dt: nat, slides: Seq<SlideView>) -> TickOutcome {
        match slide_named(slides, self.current_slide) {
            Some(_) => TickOutcome::Played(self.phase.signal(dt)),
            None => if self.grace_left > 0 {
                TickOutcome::SlideMissing
            } else {
                TickOutcome::SlideLost
            },
        }
    }

    /// The state after rendering: with the current slide there, the display
    /// is what its content gives at the present fractions; with the slide
    /// missing, the display stands as it was.
    pub open spec fn render(self, slides: Seq<SlideView>, gallery: Seq<BackgroundEntryView>)
        -> PlayerModel {
        match slide_named(slides, self.current_slide) {
            Some(slide) => PlayerModel {
                display: display_of(slide, gallery, self.fractions(), self.hovering_choice),
                ..self
            },
            None => self,
        }
    }

    /// The state after one whole tick: renames first, then the clock, then
    /// the display.
    pub open spec fn tick(
        self,
        dt: nat,
        events: Seq<CrudEventView<SlideView>>,
        slides: Seq<SlideView>,
        gallery: Seq<BackgroundEntryView>,
    ) -> PlayerModel {
        self.handle_renames(events).update_state(dt, slides).render(slides, gallery)
    }

    /// What the presentation layer is given: the last rendered display, or,
    /// once the slide is lost, the display that says so.
    pub open spec fn current_display(self) -> DisplayView {
        if self.lost {
            DisplayView::slide_not_found()
        } else {
            self.display
        }
    }

    /// The number of choices of the current slide that are on show.
    pub open spec fn visible_count(self, slide: SlideView) -> nat {
        visible_choices(slide.actions.len(), self.fractions().choices_fraction)
    }

    /// Whether choosing `choice` takes effect: the player waits for input,
    /// the current slide is there and has such a choice.
    pub open spec fn accepts(self, choice: Option<usize>, slides: Seq<SlideView>) -> bool {
        &&& self.phase is WaitingForInput
        &&& choice matches Some(i)
        &&& slide_named(slides, self.current_slide) matches Some(slide)
        &&& i < slide.actions.len()
    }

    /// The state after `choice` was chosen. Where that takes effect, the
    /// target of the choice becomes the next slide and the clock is forced
    /// into `GotInput`; anywhere else nothing changes.
    pub open spec fn chosen(self, choice: Option<usize>, slides: Seq<SlideView>) -> PlayerModel {
        if self.accepts(choice, slides) {
            PlayerModel {
                next_slide: slide_named(slides, self.current_slide)->0.actions[choice->0 as int]
                    .target_slide,
                phase: PhaseModel::GotInput,
                ..self
            }
        } else {
            self
        }
    }

    /// The state after a click: the hovered choice is chosen.
    pub open spec fn clicked(self, slides: Seq<SlideView>) -> PlayerModel {
        self.chosen(self.hovering_choice, slides)
    }

    /// The step of the pointer animation: that of the sweep while the player
    /// waits for input, zero in every other phase.
    pub open spec fn sweep_step(self) -> nat {
        match self.phase {
            PhaseModel::WaitingForInput(s) => s.step(),
            _ => 0,
        }
    }
}

/// The state of one play session.
#[derive(Debug)]
pub struct Player {
    current_slide: String,
    next_slide: String,
    clock: PhaseClock,
    hovering_choice: Option<usize>,
    grace_ticks: u32,
    grace_left: u32,
    lost: bool,
    display: Display,
}

impl View for Player {
    type V = PlayerModel;

    closed spec fn view(&self) -> PlayerModel {
        PlayerModel {
            current_slide: self.current_slide@,
            next_slide: self.next_slide@,
            phase: self.clock@.phase,
            timing: self.clock@.timing,
            hovering_choice: self.hovering_choice,
            grace_ticks: self.grace_ticks,
            grace_left: self.grace_left,
            lost: self.lost,
            display: self.display@,
        }
    }
}

impl Player {
    /// A player that starts on the slide called "Living", with the stock
    /// timing and a grace period of `GRACE_TICKS` ticks.
    pub fn new() -> (player: Player)
        ensures
            player@ == PlayerModel::initial(start_slide_name(), Timing::standard(), GRACE_TICKS),
            player@.wf(),
    {
        Player::starting_at(String::from_str(START_SLIDE), Timing::new(), GRACE_TICKS)
    }

    /// A player that starts on the slide called `start`.
    pub fn starting_at(start: String, timing: Timing, grace_ticks: u32) -> (player: Player)
        ensures
            player@ == PlayerModel::initial(start@, timing, grace_ticks),
            player@.wf(),
    {
        Player {
            current_slide: start.clone(),
            next_slide: start,
            clock: PhaseClock::new(timing),
            hovering_choice: None,
            grace_ticks,
            grace_left: grace_ticks,
            lost: false,
            display: Display::blank(),
        }
    }

    /// Name of the slide on show.
    pub fn current_slide(&self) -> (name: &String)
        ensures
            name@ == self@.current_slide,
    {
        &self.current_slide
    }

    /// Name of the slide that comes next.
    pub fn next_slide(&self) -> (name: &String)
        ensures
            name@ == self@.next_slide,
    {
        &self.next_slide
    }

    /// The phase the clock is in.
    pub fn phase(&self) -> (phase: Phase)
        ensures
            phase@ == self@.phase,
    {
        self.clock.phase()
    }

    /// The kind of the phase the clock is in.
    pub fn phase_kind(&self) -> (kind: PhaseKind)
        ensures
            kind == self@.phase.kind(),
    {
        self.clock.phase().kind()
    }

    /// How much of the background is on show.
    pub fn bg_opacity(&self) -> (f: Fraction)
        ensures
            f@ == self@.fractions().bg_opacity,
            f@.wf(),
    {
        Reveal::of(&self.clock.phase()).bg_opacity
    }

    /// How much of the text is on show.
    pub fn text_fraction(&self) -> (f: Fraction)
        ensures
            f@ == self@.fractions().text_fraction,
            f@.wf(),
    {
        Reveal::of(&self.clock.phase()).text_fraction
    }

    /// How many of the choices are on show.
    pub fn choices_fraction(&self) -> (f: Fraction)
        ensures
            f@ == self@.fractions().choices_fraction,
            f@.wf(),
    {
        Reveal::of(&self.clock.phase()).choices_fraction
    }

    /// The choice under the pointer.
    pub fn hovering_choice(&self) -> (choice: Option<usize>)
        ensures
            choice == self@.hovering_choice,
    {
        self.hovering_choice
    }

    /// The durations that the clock gives to the phases it enters.
    pub fn timing(&self) -> (timing: Timing)
        ensures
            timing == self@.timing,
    {
        self.clock.timing()
    }

    /// Number of ticks for which a missing slide is tolerated.
    pub fn grace_ticks(&self) -> (ticks: u32)
        ensures
            ticks == self@.grace_ticks,
    {
        self.grace_ticks
    }

    /// Number of ticks of grace that a missing slide has left.
    pub fn grace_left(&self) -> (ticks: u32)
        ensures
            ticks == self@.grace_left,
    {
        self.grace_left
    }

    /// Whether the current slide has been missing for longer than the grace
    /// period.
    pub fn is_lost(&self) -> (lost: bool)
        ensures
            lost == self@.lost,
    {
        self.lost
    }

    /// The step of the pointer animation beside the hovered choice.
    pub fn sweep_step(&self) -> (step: usize)
        ensures
            step == self@.sweep_step(),
            step < 4,
    {
        match self.clock.phase() {
            Phase::WaitingForInput(s) => s.step(),
            _ => 0,
        }
    }

    /// Follows the renames among `events`, in order of arrival: a rename of
    /// the current slide or of the next slide replaces that name. Every other
    /// notification is passed over.
    pub fn handle_renames(&mut self, events: &Vec<CrudEvent<Slide>>)
        ensures
            final(self)@ == old(self)@.handle_renames(slide_event_views(events@)),
    {
        let ghost views = slide_event_views(events@);
        let mut i: usize = 0;
        assert(views.take(0) =~= Seq::<CrudEventView<SlideView>>::empty());
        while i < events.len()
            invariant
                i <= events.len(),
                views == slide_event_views(events@),
                self@ == old(self)@.handle_renames(views.take(i as int)),
            decreases events.len() - i,
        {
            proof {
                assert(views.take(i + 1).drop_last() =~= views.take(i as int));
                assert(views.take(i + 1).last() == events@[i as int]@);
            }
            match &events[i] {
                CrudEvent::Renamed(old_name, new_name) => {
                    if self.current_slide == *old_name {
                        self.current_slide = new_name.clone();
                    }
                    if self.next_slide == *old_name {
                        self.next_slide = new_name.clone();
                    }
                },
                _ => {},
            }
            i += 1;
        }
        assert(views.take(events.len() as int) =~= views);
    }

    /// The clock's part of a tick. Looks the current slide up in `slides`. If
    /// it is there, the phase advances by `dt_us` microseconds, with the
    /// durations of the phases it enters taken from that slide, and when the
    /// background fade-out ends the next slide becomes the current one. If it
    /// is not, nothing moves: one tick of grace is used up, or, with none
    /// left, the slide is lost.
    pub fn update_state(&mut self, dt_us: u64, slides: &Vec<Slide>) -> (outcome: TickOutcome)
        ensures
            final(self)@ == old(self)@.update_state(dt_us as nat, slide_views(slides@)),
            outcome == old(self)@.outcome(dt_us as nat, slide_views(slides@)),
            final(self)@.wf(),
    {
        let kind = self.clock.phase().kind();
        match find_slide(slides, &self.current_slide) {
            None => {
                if self.grace_left > 0 {
                    self.grace_left = self.grace_left - 1;
                    TickOutcome::SlideMissing
                } else {
                    self.lost = true;
                    TickOutcome::SlideLost
                }
            },
            Some(i) => {
                let slide = &slides[i];
                let ctx = SlideContext {
                    description_chars: slide.description.as_str().unicode_len(),
                    choice_count: slide.actions.len(),
                };
                assert(ctx == context_of(slide@));
                let signal = self.clock.advance(dt_us, &ctx);
                if kind == PhaseKind::FadeOutBackground && signal == PhaseSignal::PhaseCompleted {
                    self.current_slide = self.next_slide.clone();
                }
                self.grace_left = self.grace_ticks;
                self.lost = false;
                TickOutcome::Played(signal)
            },
        }
    }

    /// Renders the current slide, if it is among `slides`, at the present
    /// reveal fractions, with backgrounds taken from `gallery`. With the
    /// slide missing, the display stands as it was.
    pub fn render(&mut self, slides: &Vec<Slide>, gallery: &Vec<BackgroundEntry>)
        ensures
            final(self)@ == old(self)@.render(slide_views(slides@), entry_views(gallery@)),
    {
        match find_slide(slides, &self.current_slide) {
            None => {},
            Some(i) => {
                let fractions = Reveal::of(&self.clock.phase());
                self.display = render_display(&slides[i], gallery, &fractions, self.hovering_choice);
            },
        }
    }

    /// One whole tick, in the one order that keeps the display from lagging:
    /// the renames among `events`, then the clock, then the display.
    pub fn tick(
        &mut self,
        dt_us: u64,
        events: &Vec<CrudEvent<Slide>>,
        slides: &Vec<Slide>,
        gallery: &Vec<BackgroundEntry>,
    ) -> (outcome: TickOutcome)
        ensures
            final(self)@ == old(self)@.tick(
                dt_us as nat,
                slide_event_views(events@),
                slide_views(slides@),
                entry_views(gallery@),
            ),
            outcome == old(self)@.handle_renames(slide_event_views(events@)).outcome(
                dt_us as nat,
                slide_views(slides@),
            ),
            final(self)@.wf(),
    {
        self.handle_renames(events);
        let outcome = self.update_state(dt_us, slides);
        self.render(slides, gallery);
        outcome
    }

    /// What to draw: the display as last rendered, or, once the current slide
    /// is lost, the display that says that it was not found.
    pub fn current_display(&self) -> (display: Display)
        ensures
            display@ == self@.current_display(),
    {
        if self.lost {
            Display::slide_not_found()
        } else {
            self.display.clone()
        }
    }

    /// The pointer moved to `pointer_y`. If the current slide is among
    /// `slides`, the hovered choice becomes the one that the hit test gives
    /// among the choices on show; if it is not, nothing changes.
    pub fn on_pointer_moved(&mut self, pointer_y: i32, layout: &ChoiceLayout, slides: &Vec<Slide>)
        ensures
            final(self)@ == (PlayerModel {
                hovering_choice: final(self)@.hovering_choice,
                ..old(self)@
            }),
            match slide_named(slide_views(slides@), old(self)@.current_slide) {
                Some(slide) => layout.hovered(
                    old(self)@.visible_count(slide),
                    pointer_y as int,
                    final(self)@.hovering_choice,
                ),
                None => final(self)@.hovering_choice == old(self)@.hovering_choice,
            },
    {
        match find_slide(slides, &self.current_slide) {
            None => {},
            Some(i) => {
                let fraction = Reveal::of(&self.clock.phase()).choices_fraction;
                let visible = fraction.floor_of(slides[i].actions.len());
                self.hovering_choice = layout.hover_target(visible, pointer_y);
            },
        }
    }

    /// The pointer is over `choice`, as told by a presentation layer that does
    /// its own hit test. Nothing else changes.
    pub fn hover_choice(&mut self, choice: Option<usize>)
        ensures
            final(self)@ == (PlayerModel { hovering_choice: choice, ..old(self)@ }),
    {
        self.hovering_choice = choice;
    }

    /// The pointer was clicked. While the player waits for input with the
    /// pointer over a choice of the current slide, the target of that choice
    /// becomes the next slide and the clock is forced into `GotInput`. In any
    /// other phase, with no choice hovered, or with the slide missing, the
    /// click changes nothing. Returns whether it took effect.
    pub fn on_pointer_clicked(&mut self, slides: &Vec<Slide>) -> (taken: bool)
        ensures
            final(self)@ == old(self)@.clicked(slide_views(slides@)),
            taken == old(self)@.accepts(old(self)@.hovering_choice, slide_views(slides@)),
    {
        let choice = self.hovering_choice;
        self.select_choice(choice, slides)
    }

    /// The choice `choice` was selected, by the pointer or by any other
    /// means. Takes effect exactly where a click on that choice would.
    pub fn select_choice(&mut self, choice: Option<usize>, slides: &Vec<Slide>) -> (taken: bool)
        ensures
            final(self)@ == old(self)@.chosen(choice, slide_views(slides@)),
            taken == old(self)@.accepts(choice, slide_views(slides@)),
    {
        let waiting = match self.clock.phase() {
            Phase::WaitingForInput(_) => true,
            _ => false,
        };
        if !waiting {
            return false;
        }
        match choice {
            None => false,
            Some(i) => match find_slide(slides, &self.current_slide) {
                None => false,
                Some(at) => {
                    let slide = &slides[at];
                    if i < slide.actions.len() {
                        assert(slide@.actions[i as int] == slide.actions@[i as int]@);
                        self.next_slide = slide.actions[i].target_slide.clone();
                        self.clock.request_transition()
                    } else {
                        false
                    }
                },
            },
        }
    }
}

} // verus!
