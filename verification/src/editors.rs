//! What the editing dialogs decide: whether a name may be given, what stands
//! in the way of a deletion, and how long an editor outlives its slide.

use std::marker::PhantomData;
use vstd::prelude::*;
use vstd::string::StringExecFns;
use crate::model::{
    Action,
    ActionView,
    CrudEvent,
    CrudEventView,
    Crudable,
    Slide,
    SlideView,
    action_views,
    find_slide,
    first_named,
    resource_views,
    slide_event_views,
    slide_names,
    slide_views,
    string_views,
};

verus! {

/// Why a name cannot be given to a slide.
#[derive(Clone, Copy, Debug, PartialEq, Eq, Structural)]
pub enum NameError {
    /// The name is empty.
    Empty,
    /// Another slide bears the name.
    Taken,
}

impl NameError {
    /// The words shown to the author.
    pub open spec fn message_text(self) -> Seq<char> {
        match self {
            NameError::Empty => "Name can not be empty"@,
            NameError::Taken => "There is another slide with that name"@,
        }
    }

    /// The words shown to the author.
    pub fn message(&self) -> (text: &'static str)
        ensures
            text@ == self.message_text(),
    {
        match self {
            NameError::Empty => "Name can not be empty",
            NameError::Taken => "There is another slide with that name",
        }
    }
}

/// Finds the slide called `name`: the position of the first of that name.
pub fn get_slide_entity_by_name(name: &str, slides: &Vec<Slide>) -> (found: Option<usize>)
    ensures
        match found {
            Some(i) => first_named(slide_names(slide_views(slides@)), name@) == Some(i as int) && i
                < slides.len(),
            None => first_named(slide_names(slide_views(slides@)), name@) is None,
        },
{
    let wanted = String::from_str(name);
    find_slide(slides, &wanted)
}

/// Whether `name` may be given to the slide at position `claiming`, or to a
/// new slide where `claiming` is `None`: not if it is empty, and not if the
/// slide that bears it is another one.
pub open spec fn name_verdict(name: Seq<char>, claiming: Option<usize>, slides: Seq<SlideView>)
    -> Result<(), NameError> {
    if name.len() == 0 {
        Err(NameError::Empty)
    } else {
        match first_named(slide_names(slides), name) {
            None => Ok(()),
            Some(i) => if claiming == Some(i as usize) {
                Ok(())
            } else {
                Err(NameError::Taken)
            },
        }
    }
}

/// Says whether `name` may be given to the slide at position
/// `entity_claiming_name`, or to a new slide.
pub fn validate_name(
    name: &str,
    entity_claiming_name: Option<usize>,
    slides: &Vec<Slide>,
) -> (verdict: Result<(), NameError>)
    ensures
        verdict == name_verdict(name@, entity_claiming_name, slide_views(slides@)),
{
    if name.is_empty() {
        return Err(NameError::Empty);
    }
    match get_slide_entity_by_name(name, slides) {
        None => Ok(()),
        Some(e) => {
            let claimed = match entity_claiming_name {
                Some(c) => c == e,
                None => false,
            };
            if claimed {
                Ok(())
            } else {
                Err(NameError::Taken)
            }
        },
    }
}

/// Whether one of the slide's actions leads to `name`.
pub open spec fn refers_to(slide: SlideView, name: Seq<char>) -> bool {
    exists|j: int| 0 <= j < slide.actions.len() && (#[trigger] slide.actions[j]).target_slide == name
}

/// The names of the slides that have an action leading to `name`, in the order
/// of the slides.
pub open spec fn referrers(slides: Seq<SlideView>, name: Seq<char>) -> Seq<Seq<char>>
    decreases slides.len(),
{
    if slides.len() == 0 {
        Seq::<Seq<char>>::empty()
    } else if refers_to(slides.last(), name) {
        referrers(slides.drop_last(), name).push(slides.last().name)
    } else {
        referrers(slides.drop_last(), name)
    }
}

/// Says whether one of the slide's actions leads to `name`.
pub fn has_reference_to(slide: &Slide, name: &String) -> (found: bool)
    ensures
        found == refers_to(slide@, name@),
{
    let mut j: usize = 0;
    while j < slide.actions.len()
        invariant
            j <= slide.actions.len(),
            forall|k: int| 0 <= k < j ==> (#[trigger] slide@.actions[k]).target_slide != name@,
        decreases slide.actions.len() - j,
    {
        assert(slide@.actions[j as int] == slide.actions@[j as int]@);
        if slide.actions[j].target_slide == *name {
            return true;
        }
        j += 1;
    }
    false
}

/// The names of the slides that have an action leading to `name`.
pub fn slides_with_references(slides: &Vec<Slide>, name: &String) -> (names: Vec<String>)
    ensures
        string_views(names@) == referrers(slide_views(slides@), name@),
{
    let ghost views = slide_views(slides@);
    let mut names: Vec<String> = Vec::new();
    let mut i: usize = 0;
    assert(views.take(0) =~= Seq::<SlideView>::empty());
    assert(string_views(names@) =~= Seq::<Seq<char>>::empty());
    while i < slides.len()
        invariant
            i <= slides.len(),
            views == slide_views(slides@),
            string_views(names@) == referrers(views.take(i as int), name@),
        decreases slides.len() - i,
    {
        proof {
            assert(views.take(i + 1).drop_last() =~= views.take(i as int));
            assert(views.take(i + 1).last() == slides@[i as int]@);
        }
        if has_reference_to(&slides[i], name) {
            let ghost before = names@;
            names.push(slides[i].name.clone());
            assert(string_views(names@) =~= string_views(before).push(slides@[i as int]@.name));
        }
        i += 1;
    }
    assert(views.take(slides.len() as int) =~= views);
    names
}

/// What a rename dialog says of the name typed into it.
#[derive(Clone, Copy, Debug, PartialEq, Eq, Structural)]
pub enum RenameVerdict {
    /// The new name is empty.
    EmptyName,
    /// The new name differs from the old one and a resource bears it.
    NameTaken,
    /// The rename may be confirmed.
    Allowed,
}

/// Whether a rename of `old_name` to `new_name` may go ahead among resources
/// of the given names.
pub open spec fn rename_verdict(old_name: Seq<char>, new_name: Seq<char>, names: Seq<Seq<char>>)
    -> RenameVerdict {
    if new_name.len() == 0 {
        RenameVerdict::EmptyName
    } else if old_name != new_name && names.contains(new_name) {
        RenameVerdict::NameTaken
    } else {
        RenameVerdict::Allowed
    }
}

/// The names of a list of resources.
pub open spec fn resource_names<R: Crudable>(items: Seq<R::V>) -> Seq<Seq<char>> {
    items.map_values(|v: R::V| R::name_in(v))
}

/// A dialog that renames one resource.
pub struct RenameDialog<R> {
    pub old_name: String,
    pub new_name: String,
    pub phantom: PhantomData<R>,
}

impl<R: Crudable> RenameDialog<R> {
    /// A dialog for `res`, with its present name filled in as the new one.
    pub fn new_for(res: &R) -> (dialog: Self)
        ensures
            dialog.old_name@ == R::name_in(res@),
            dialog.new_name@ == R::name_in(res@),
    {
        Self { old_name: res.name(), new_name: res.name(), phantom: PhantomData }
    }

    /// Says whether the rename may be confirmed: not to an empty name, and
    /// not to a name that another resource bears.
    pub fn verdict(&self, resources: &Vec<R>) -> (verdict: RenameVerdict)
        ensures
            verdict == rename_verdict(
                self.old_name@,
                self.new_name@,
                resource_names::<R>(resource_views(resources@)),
            ),
    {
        let ghost names = resource_names::<R>(resource_views(resources@));
        if self.new_name.as_str().is_empty() {
            return RenameVerdict::EmptyName;
        }
        if self.old_name == self.new_name {
            return RenameVerdict::Allowed;
        }
        let mut i: usize = 0;
        while i < resources.len()
            invariant
                i <= resources.len(),
                names == resource_names::<R>(resource_views(resources@)),
                names.len() == resources.len(),
                self.new_name@.len() != 0,
                self.old_name@ != self.new_name@,
                forall|k: int| 0 <= k < i ==> names[k] != self.new_name@,
            decreases resources.len() - i,
        {
            assert(names[i as int] == R::name_in(resources@[i as int]@));
            if resources[i].name() == self.new_name {
                assert(names[i as int] == self.new_name@);
                return RenameVerdict::NameTaken;
            }
            i += 1;
        }
        RenameVerdict::Allowed
    }

    /// The notification to send when the author confirms: the rename, where it
    /// is allowed, and none where it is not.
    pub fn confirm(&self, resources: &Vec<R>) -> (event: Option<CrudEvent<R>>)
        ensures
            event is Some <==> rename_verdict(
                self.old_name@,
                self.new_name@,
                resource_names::<R>(resource_views(resources@)),
            ) == RenameVerdict::Allowed,
            event matches Some(e) ==> e@ == CrudEventView::<R::V>::Renamed(
                self.old_name@,
                self.new_name@,
            ),
    {
        match self.verdict(resources) {
            RenameVerdict::Allowed => Some(
                CrudEvent::Renamed(self.old_name.clone(), self.new_name.clone()),
            ),
            _ => None,
        }
    }
}

/// A dialog that deletes the slide it names.
pub struct DeleteSlideDialog(pub String);

impl DeleteSlideDialog {
    /// The notification to send when the author confirms: the deletion, if no
    /// slide has an action that leads to the slide, and otherwise the names
    /// of the slides that stand in the way.
    pub fn confirm(&self, slides: &Vec<Slide>) -> (outcome: Result<CrudEvent<Slide>, Vec<String>>)
        ensures
            match outcome {
                Ok(event) => referrers(slide_views(slides@), self.0@).len() == 0 && event@
                    == CrudEventView::<SlideView>::Deleted(self.0@),
                Err(names) => names.len() > 0 && string_views(names@) == referrers(
                    slide_views(slides@),
                    self.0@,
                ),
            },
    {
        let names = slides_with_references(slides, &self.0);
        if names.len() == 0 {
            Ok(CrudEvent::Deleted(self.0.clone()))
        } else {
            Err(names)
        }
    }
}

/// The prompt that makes a new slide.
#[derive(Debug)]
pub struct AddSlidePrompt {
    /// The name typed so far.
    pub name: String,
    /// What the prompt last had to say about it.
    pub info: String,
}

impl Default for AddSlidePrompt {
    fn default() -> (prompt: AddSlidePrompt)
        ensures
            prompt.name@.len() == 0,
            prompt.info@.len() == 0,
    {
        AddSlidePrompt { name: String::new(), info: String::new() }
    }
}

impl AddSlidePrompt {
    /// The author asked for the slide to be made. Where the name may be
    /// given, returns the notification that makes an empty slide of that
    /// name; where it may not, says why in `info` and returns none.
    pub fn create(&mut self, slides: &Vec<Slide>) -> (event: Option<CrudEvent<Slide>>)
        ensures
            final(self).name@ == old(self).name@,
            match name_verdict(old(self).name@, None, slide_views(slides@)) {
                Ok(_) => {
                    &&& final(self).info@ == old(self).info@
                    &&& event is Some
                    &&& event->0@ == CrudEventView::Created(
                        SlideView {
                            name: old(self).name@,
                            description: Seq::<char>::empty(),
                            background: Seq::<char>::empty(),
                            actions: Seq::empty(),
                        },
                    )
                },
                Err(e) => final(self).info@ == e.message_text() && event is None,
            },
    {
        match validate_name(self.name.as_str(), None, slides) {
            Err(e) => {
                self.info = String::from_str(e.message());
                None
            },
            Ok(_) => Some(CrudEvent::Created(Slide::new(self.name.clone()))),
        }
    }
}

/// Number of renderings for which an editor outlives a slide that has gone
/// missing.
pub const EDITOR_TTL: usize = 3;

/// The mathematical value of a [`SlideEditor`].
pub struct SlideEditorView {
    pub target: Seq<char>,
    pub ttl: usize,
}

/// An open editor: the name of the slide it edits, and how many more
/// renderings it survives without finding it.
#[derive(Debug)]
pub struct SlideEditor {
    pub target: String,
    pub ttl: usize,
}

impl View for SlideEditor {
    type V = SlideEditorView;

    open spec fn view(&self) -> SlideEditorView {
        SlideEditorView { target: self.target@, ttl: self.ttl }
    }
}

/// The values of a list of editors.
pub open spec fn editor_views(editors: Seq<SlideEditor>) -> Seq<SlideEditorView> {
    editors.map_values(|e: SlideEditor| e@)
}

/// The editors after one notification: a rename is followed by every editor
/// of the renamed slide.
pub open spec fn editors_notified(editors: Seq<SlideEditorView>, event: CrudEventView<SlideView>)
    -> Seq<SlideEditorView> {
    match event {
        CrudEventView::Renamed(old_name, new_name) => editors.map_values(
            |e: SlideEditorView| if e.target == old_name {
                SlideEditorView { target: new_name, ..e }
            } else {
                e
            },
        ),
        _ => editors,
    }
}

/// The editors after a batch of notifications, in order of arrival.
pub open spec fn editors_after(
    editors: Seq<SlideEditorView>,
    events: Seq<CrudEventView<SlideView>>,
) -> Seq<SlideEditorView>
    decreases events.len(),
{
    if events.len() == 0 {
        editors
    } else {
        editors_notified(editors_after(editors, events.drop_last()), events.last())
    }
}

impl SlideEditor {
    /// An editor for the slide called `slide_name`.
    pub fn new_for(slide_name: &str) -> (editor: SlideEditor)
        ensures
            editor@ == (SlideEditorView { target: slide_name@, ttl: EDITOR_TTL }),
    {
        SlideEditor { target: String::from_str(slide_name), ttl: EDITOR_TTL }
    }

    /// Makes the editors follow the renames among `events`, in order of
    /// arrival.
    pub fn handle_renames(editors: &mut Vec<SlideEditor>, events: &Vec<CrudEvent<Slide>>)
        ensures
            editor_views(final(editors)@) == editors_after(
                editor_views(old(editors)@),
                slide_event_views(events@),
            ),
    {
        let ghost views = slide_event_views(events@);
        let mut e: usize = 0;
        assert(views.take(0) =~= Seq::<CrudEventView<SlideView>>::empty());
        while e < events.len()
            invariant
                e <= events.len(),
                views == slide_event_views(events@),
                editor_views(editors@) == editors_after(
                    editor_views(old(editors)@),
                    views.take(e as int),
                ),
            decreases events.len() - e,
        {
            proof {
                assert(views.take(e + 1).drop_last() =~= views.take(e as int));
                assert(views.take(e + 1).last() == events@[e as int]@);
            }
            let ghost before = editors@;
            match &events[e] {
                CrudEvent::Renamed(old_name, new_name) => {
                    let mut i: usize = 0;
                    while i < editors.len()
                        invariant
                            i <= editors.len(),
                            editors.len() == before.len(),
                            forall|k: int|
                                0 <= k < i ==> (#[trigger] editors@[k])@ == (if before[k]@.target
                                    == old_name@ {
                                    SlideEditorView { target: new_name@, ..before[k]@ }
                                } else {
                                    before[k]@
                                }),
                            forall|k: int| i <= k < editors.len() ==> editors@[k] == before[k],
                        decreases editors.len() - i,
                    {
                        if editors[i].target == *old_name {
                            editors[i].target = new_name.clone();
                        }
                        i += 1;
                    }
                    assert(editor_views(editors@) =~= editors_notified(
                        editor_views(before),
                        events@[e as int]@,
                    ));
                },
                _ => {},
            }
            e += 1;
        }
        assert(views.take(events.len() as int) =~= views);
    }

    /// The editor was rendered and its slide was not there. While it has
    /// renderings left it uses one up and stays open; with none left it is to
    /// be closed. Returns whether to close it.
    pub fn slide_missing(&mut self) -> (close: bool)
        ensures
            final(self).target@ == old(self).target@,
            close == (old(self).ttl == 0),
            final(self).ttl == if old(self).ttl > 0 {
                (old(self).ttl - 1) as usize
            } else {
                0usize
            },
    {
        if self.ttl > 0 {
            self.ttl -= 1;
            false
        } else {
            true
        }
    }
}

/// The decimal digit for `d`.
pub open spec fn digit(d: nat) -> char {
    seq!['0', '1', '2', '3', '4', '5', '6', '7', '8', '9'][d as int]
}

/// `n` written in decimal, without leading zeros.
pub open spec fn decimal(n: nat) -> Seq<char>
    decreases n,
{
    if n < 10 {
        seq![digit(n)]
    } else {
        decimal(n / 10).push(digit(n % 10))
    }
}

/// The name made up for the `n`-th new slide: the stem of slide names and the
/// number.
pub open spec fn numbered_name(n: nat) -> Seq<char> {
    "slide"@ + decimal(n)
}

/// Number of made-up names that are tried for a new slide.
pub const MADE_UP_NAMES: u32 = 10000;

/// The decimal digit for `d`, as a string of length one.
fn digit_text(d: u32) -> (text: &'static str)
    requires
        d < 10,
    ensures
        text@ == seq![digit(d as nat)],
{
    proof {
        reveal_strlit("0");
        reveal_strlit("1");
        reveal_strlit("2");
        reveal_strlit("3");
        reveal_strlit("4");
        reveal_strlit("5");
        reveal_strlit("6");
        reveal_strlit("7");
        reveal_strlit("8");
        reveal_strlit("9");
    }
    let text = if d == 0 {
        "0"
    } else if d == 1 {
        "1"
    } else if d == 2 {
        "2"
    } else if d == 3 {
        "3"
    } else if d == 4 {
        "4"
    } else if d == 5 {
        "5"
    } else if d == 6 {
        "6"
    } else if d == 7 {
        "7"
    } else if d == 8 {
        "8"
    } else {
        "9"
    };
    assert(text@ =~= seq![digit(d as nat)]);
    text
}

/// Writes `n` in decimal at the end of `text`.
pub fn append_decimal(text: &mut String, n: u32)
    ensures
        final(text)@ == old(text)@ + decimal(n as nat),
    decreases n,
{
    if n >= 10 {
        append_decimal(text, n / 10);
    }
    let ghost before = text@;
    text.append(digit_text(n % 10));
    assert(text@ =~= old(text)@ + decimal(n as nat));
}

/// The name made up for the `n`-th new slide.
pub fn make_numbered_name(n: u32) -> (name: String)
    ensures
        name@ == numbered_name(n as nat),
{
    let mut name = String::from_str(Slide::default_name_prefix());
    append_decimal(&mut name, n);
    name
}

/// Whether `n` is the first number whose made-up name none of `names` bears.
pub open spec fn is_first_free(names: Seq<Seq<char>>, n: nat) -> bool {
    &&& !names.contains(numbered_name(n))
    &&& forall|m: nat| m < n ==> names.contains(#[trigger] numbered_name(m))
}

/// Says whether `name` is among `names`.
pub fn contains_name(names: &Vec<String>, name: &String) -> (found: bool)
    ensures
        found == string_views(names@).contains(name@),
{
    let ghost views = string_views(names@);
    let mut i: usize = 0;
    while i < names.len()
        invariant
            i <= names.len(),
            views == string_views(names@),
            forall|k: int| 0 <= k < i ==> views[k] != name@,
        decreases names.len() - i,
    {
        assert(views[i as int] == names@[i as int]@);
        if names[i] == *name {
            return true;
        }
        i += 1;
    }
    false
}

/// A name for a new slide: the first of the made-up names `slide0`,
/// `slide1`, and so on that none of `valid_slide_names` bears, or none if all
/// of the first `MADE_UP_NAMES` are taken.
pub fn fresh_slide_name(valid_slide_names: &Vec<String>) -> (name: Option<String>)
    ensures
        match name {
            Some(made) => exists|n: nat|
                n < MADE_UP_NAMES && is_first_free(string_views(valid_slide_names@), n) && made@
                    == #[trigger] numbered_name(n),
            None => forall|m: nat|
                m < MADE_UP_NAMES ==> string_views(valid_slide_names@).contains(
                    #[trigger] numbered_name(m),
                ),
        },
{
    let mut n: u32 = 0;
    while n < MADE_UP_NAMES
        invariant
            n <= MADE_UP_NAMES,
            forall|m: nat|
                m < n ==> string_views(valid_slide_names@).contains(#[trigger] numbered_name(m)),
        decreases MADE_UP_NAMES - n,
    {
        let candidate = make_numbered_name(n);
        if !contains_name(valid_slide_names, &candidate) {
            assert(is_first_free(string_views(valid_slide_names@), n as nat));
            return Some(candidate);
        }
        n += 1;
    }
    None
}

/// The test that an action passes when it is not among `removed`.
pub open spec fn not_among(removed: Seq<ActionView>) -> spec_fn(ActionView) -> bool {
    |a: ActionView| !removed.contains(a)
}

/// The test that an action passes when its value is not among `removed`.
pub open spec fn kept_action(removed: Seq<ActionView>) -> spec_fn(Action) -> bool {
    |a: Action| !removed.contains(a@)
}

/// Taking the values of a list of actions commutes with taking out those that
/// are among `removed`.
pub proof fn lemma_views_of_kept_actions(actions: Seq<Action>, removed: Seq<ActionView>)
    ensures
        action_views(actions.filter(kept_action(removed))) == action_views(actions).filter(
            not_among(removed),
        ),
    decreases actions.len(),
{
    let keep = kept_action(removed);
    let keep_view = not_among(removed);
    reveal(Seq::filter);
    if actions.len() > 0 {
        let front = actions.drop_last();
        lemma_views_of_kept_actions(front, removed);
        assert(action_views(actions).drop_last() =~= action_views(front));
        assert(action_views(actions).last() == actions.last()@);
        if keep(actions.last()) {
            assert(action_views(front.filter(keep).push(actions.last())) =~= action_views(
                front.filter(keep),
            ).push(actions.last()@));
        }
    } else {
        assert(action_views(actions.filter(keep)) =~= action_views(actions).filter(keep_view));
    }
}

/// Says whether an action equal to `action` is among `list`.
pub fn contains_action(list: &Vec<Action>, action: &Action) -> (found: bool)
    ensures
        found == action_views(list@).contains(action@),
{
    let ghost views = action_views(list@);
    let mut i: usize = 0;
    while i < list.len()
        invariant
            i <= list.len(),
            views == action_views(list@),
            forall|k: int| 0 <= k < i ==> views[k] != action@,
        decreases list.len() - i,
    {
        assert(views[i as int] == list@[i as int]@);
        if list[i].same_as(action) {
            return true;
        }
        i += 1;
    }
    false
}

/// Takes out of `actions` every action that equals one of `to_remove`, and
/// keeps the others in their order.
pub fn remove_actions(actions: &mut Vec<Action>, to_remove: &Vec<Action>)
    ensures
        action_views(final(actions)@) == action_views(old(actions)@).filter(
            not_among(action_views(to_remove@)),
        ),
{
    let ghost removed = action_views(to_remove@);
    let ghost keep = kept_action(removed);
    let ghost seen: int = 0;
    let mut i: usize = 0;
    proof {
        reveal(Seq::filter);
        assert(old(actions)@.take(0) =~= Seq::<Action>::empty());
        assert(old(actions)@.skip(0) =~= old(actions)@);
    }
    while i < actions.len()
        invariant
            0 <= seen <= old(actions)@.len(),
            removed == action_views(to_remove@),
            keep == kept_action(removed),
            i == old(actions)@.take(seen).filter(keep).len(),
            actions@ == old(actions)@.take(seen).filter(keep) + old(actions)@.skip(seen),
            actions.len() - i == old(actions)@.len() - seen,
        decreases actions.len() - i,
    {
        proof {
            reveal(Seq::filter);
            assert(old(actions)@.take(seen + 1).drop_last() =~= old(actions)@.take(seen));
            assert(old(actions)@.take(seen + 1).last() == old(actions)@[seen]);
            assert(actions@[i as int] == old(actions)@.skip(seen)[0]);
        }
        if contains_action(to_remove, &actions[i]) {
            let _ = actions.remove(i);
            assert(actions@ =~= old(actions)@.take(seen + 1).filter(keep) + old(actions)@.skip(
                seen + 1,
            ));
        } else {
            assert(actions@ =~= old(actions)@.take(seen + 1).filter(keep) + old(actions)@.skip(
                seen + 1,
            ));
            i += 1;
        }
        proof {
            seen = seen + 1;
        }
    }
    proof {
        assert(old(actions)@.take(seen) =~= old(actions)@);
        assert(actions@ =~= old(actions)@.filter(keep));
        lemma_views_of_kept_actions(old(actions)@, removed);
    }
}

/// The notification to send after an editing pass that turned `saved` into
/// `unsaved`: the update, if anything changed, and none if nothing did.
pub fn edit_outcome(saved: &Slide, unsaved: &Slide) -> (event: Option<CrudEvent<Slide>>)
    ensures
        event is Some <==> unsaved@ != saved@,
        event matches Some(e) ==> e@ == CrudEventView::Updated(unsaved@),
{
    if unsaved.same_as(saved) {
        None
    } else {
        Some(CrudEvent::Updated(unsaved.clone()))
    }
}

} // verus!
