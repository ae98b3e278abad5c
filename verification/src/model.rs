//! The content that is played: slides, the actions that link them, and the
//! notifications by which the editing side says what it changed.

use vstd::prelude::*;
use crate::images::{Background, BackgroundView};

verus! {

/// The values of a list of strings.
pub open spec fn string_views(strings: Seq<String>) -> Seq<Seq<char>> {
    strings.map_values(|s: String| s@)
}

/// The mathematical value of an [`Action`].
pub struct ActionView {
    pub text: Seq<char>,
    pub target_slide: Seq<char>,
}

/// A labelled link from one slide to another. The target need not exist: a
/// broken link is a state that can be shown, not an error.
#[derive(Debug, PartialEq, Eq)]
pub struct Action {
    pub text: String,
    pub target_slide: String,
}

impl View for Action {
    type V = ActionView;

    open spec fn view(&self) -> ActionView {
        ActionView { text: self.text@, target_slide: self.target_slide@ }
    }
}

impl Clone for Action {
    fn clone(&self) -> (copy: Action)
        ensures
            copy@ == self@,
    {
        Action { text: self.text.clone(), target_slide: self.target_slide.clone() }
    }
}

impl Action {
    /// Whether two actions have the same label and lead to the same slide.
    pub fn same_as(&self, other: &Action) -> (same: bool)
        ensures
            same == (self@ == other@),
    {
        self.text == other.text && self.target_slide == other.target_slide
    }
}

impl Default for Action {
    fn default() -> (action: Action)
        ensures
            action@.text.len() == 0,
            action@.target_slide.len() == 0,
    {
        Action { text: String::new(), target_slide: String::new() }
    }
}

/// The values of a list of actions.
pub open spec fn action_views(actions: Seq<Action>) -> Seq<ActionView> {
    actions.map_values(|a: Action| a@)
}

/// The mathematical value of a [`Slide`].
pub struct SlideView {
    pub name: Seq<char>,
    pub description: Seq<char>,
    pub background: Seq<char>,
    pub actions: Seq<ActionView>,
}

/// A named unit of the story: its text, the name of its background (empty
/// when it has none) and the choices it offers, in the order they are shown.
#[derive(Debug, PartialEq, Eq)]
pub struct Slide {
    pub name: String,
    pub description: String,
    pub background: String,
    pub actions: Vec<Action>,
}

impl View for Slide {
    type V = SlideView;

    open spec fn view(&self) -> SlideView {
        SlideView {
            name: self.name@,
            description: self.description@,
            background: self.background@,
            actions: action_views(self.actions@),
        }
    }
}

/// Copies a list of actions.
pub fn clone_actions(actions: &Vec<Action>) -> (copy: Vec<Action>)
    ensures
        action_views(copy@) == action_views(actions@),
{
    let mut copy: Vec<Action> = Vec::new();
    let mut i: usize = 0;
    while i < actions.len()
        invariant
            i <= actions.len(),
            copy.len() == i,
            forall|j: int| 0 <= j < i ==> copy@[j]@ == actions@[j]@,
        decreases actions.len() - i,
    {
        copy.push(actions[i].clone());
        i += 1;
    }
    assert(action_views(copy@) =~= action_views(actions@));
    copy
}

impl Clone for Slide {
    fn clone(&self) -> (copy: Slide)
        ensures
            copy@ == self@,
    {
        Slide {
            name: self.name.clone(),
            description: self.description.clone(),
            background: self.background.clone(),
            actions: clone_actions(&self.actions),
        }
    }
}

impl Slide {
    /// Whether two slides have the same name, text and background, and the
    /// same actions in the same order.
    pub fn same_as(&self, other: &Slide) -> (same: bool)
        ensures
            same == (self@ == other@),
    {
        if !(self.name == other.name && self.description == other.description && self.background
            == other.background) {
            return false;
        }
        if self.actions.len() != other.actions.len() {
            assert(self@.actions.len() != other@.actions.len());
            return false;
        }
        let mut i: usize = 0;
        while i < self.actions.len()
            invariant
                i <= self.actions.len(),
                self.actions.len() == other.actions.len(),
                forall|k: int| 0 <= k < i ==> self.actions@[k]@ == other.actions@[k]@,
            decreases self.actions.len() - i,
        {
            if !self.actions[i].same_as(&other.actions[i]) {
                assert(self@.actions[i as int] != other@.actions[i as int]);
                return false;
            }
            i += 1;
        }
        assert(self@.actions =~= other@.actions);
        true
    }

    /// A slide called `name`, with no text, no background and no actions.
    pub fn new(name: String) -> (slide: Slide)
        ensures
            slide@ == (SlideView {
                name: name@,
                description: Seq::<char>::empty(),
                background: Seq::<char>::empty(),
                actions: Seq::<ActionView>::empty(),
            }),
    {
        let slide = Slide {
            name,
            background: String::new(),
            description: String::new(),
            actions: Vec::new(),
        };
        assert(action_views(slide.actions@) =~= Seq::<ActionView>::empty());
        slide
    }
}

/// The values of a list of slides.
pub open spec fn slide_views(slides: Seq<Slide>) -> Seq<SlideView> {
    slides.map_values(|s: Slide| s@)
}

/// The names of a list of slides.
pub open spec fn slide_names(slides: Seq<SlideView>) -> Seq<Seq<char>> {
    slides.map_values(|s: SlideView| s.name)
}

/// Position of the first of `names` that equals `name`.
pub open spec fn first_named(names: Seq<Seq<char>>, name: Seq<char>) -> Option<int>
    decreases names.len(),
{
    if names.len() == 0 {
        None
    } else if names.first() == name {
        Some(0int)
    } else {
        match first_named(names.drop_first(), name) {
            Some(i) => Some(i + 1),
            None => None,
        }
    }
}

/// Whether `i` is the position of the first of `names` that equals `name`.
pub open spec fn is_first_named(names: Seq<Seq<char>>, name: Seq<char>, i: int) -> bool {
    &&& 0 <= i < names.len()
    &&& names[i] == name
    &&& forall|j: int| 0 <= j < i ==> names[j] != name
}

/// `first_named` finds the first match, and finds none only where there is
/// none.
pub proof fn lemma_first_named(names: Seq<Seq<char>>, name: Seq<char>)
    ensures
        match first_named(names, name) {
            Some(i) => is_first_named(names, name, i),
            None => forall|j: int| 0 <= j < names.len() ==> names[j] != name,
        },
    decreases names.len(),
{
    if names.len() > 0 && names.first() != name {
        let rest = names.drop_first();
        lemma_first_named(rest, name);
        assert(forall|j: int| 0 <= j < rest.len() ==> rest[j] == names[j + 1]);
        match first_named(rest, name) {
            Some(i) => {
                assert forall|j: int| 0 <= j < i + 1 implies names[j] != name by {
                    if j > 0 {
                        assert(rest[j - 1] == names[j]);
                    }
                }
            },
            None => {
                assert forall|j: int| 0 <= j < names.len() implies names[j] != name by {
                    if j > 0 {
                        assert(rest[j - 1] == names[j]);
                    }
                }
            },
        }
    }
}

/// The first match is the one `first_named` finds.
pub proof fn lemma_first_named_is(names: Seq<Seq<char>>, name: Seq<char>, i: int)
    requires
        is_first_named(names, name, i),
    ensures
        first_named(names, name) == Some(i),
{
    lemma_first_named(names, name);
}

/// Where no name matches, `first_named` finds none.
pub proof fn lemma_first_named_none(names: Seq<Seq<char>>, name: Seq<char>)
    requires
        forall|j: int| 0 <= j < names.len() ==> names[j] != name,
    ensures
        first_named(names, name) is None,
{
    lemma_first_named(names, name);
}

/// The slide called `name`: the first of that name, if any.
pub open spec fn slide_named(slides: Seq<SlideView>, name: Seq<char>) -> Option<SlideView> {
    match first_named(slide_names(slides), name) {
        Some(i) => Some(slides[i]),
        None => None,
    }
}

/// Finds the slide called `name`: the position of the first of that name.
pub fn find_slide(slides: &Vec<Slide>, name: &String) -> (found: Option<usize>)
    ensures
        match found {
            Some(i) => first_named(slide_names(slide_views(slides@)), name@) == Some(i as int) && i
                < slides.len(),
            None => first_named(slide_names(slide_views(slides@)), name@) is None,
        },
        found matches Some(i) ==> slide_named(slide_views(slides@), name@) == Some(slides@[i as int]@),
        found is None ==> slide_named(slide_views(slides@), name@) is None,
{
    let ghost names = slide_names(slide_views(slides@));
    let mut i: usize = 0;
    while i < slides.len()
        invariant
            i <= slides.len(),
            names == slide_names(slide_views(slides@)),
            names.len() == slides.len(),
            forall|j: int| 0 <= j < i ==> names[j] != name@,
        decreases slides.len() - i,
    {
        assert(names[i as int] == slides@[i as int].name@);
        if slides[i].name == *name {
            proof {
                lemma_first_named_is(names, name@, i as int);
            }
            return Some(i);
        }
        i += 1;
    }
    proof {
        lemma_first_named_none(names, name@);
    }
    None
}

/// The mathematical value of a [`CrudEvent`].
pub enum CrudEventView<V> {
    Created(V),
    Updated(V),
    Renamed(Seq<char>, Seq<char>),
    Deleted(Seq<char>),
}

/// What the editing side did to a resource: made it, replaced it, renamed it
/// from the first name to the second, or removed it.
#[derive(Debug, PartialEq, Eq)]
pub enum CrudEvent<R> {
    Created(R),
    Updated(R),
    Renamed(String, String),
    Deleted(String),
}

impl<R: Clone> Clone for CrudEvent<R> {
    fn clone(&self) -> (copy: Self)
        ensures
            self is Renamed || self is Deleted ==> copy == *self,
            self is Created ==> copy is Created,
            self is Updated ==> copy is Updated,
    {
        match self {
            CrudEvent::Created(resource) => CrudEvent::Created(resource.clone()),
            CrudEvent::Updated(resource) => CrudEvent::Updated(resource.clone()),
            CrudEvent::Renamed(old_name, new_name) => CrudEvent::Renamed(
                old_name.clone(),
                new_name.clone(),
            ),
            CrudEvent::Deleted(name) => CrudEvent::Deleted(name.clone()),
        }
    }
}

impl<R: View> View for CrudEvent<R> {
    type V = CrudEventView<R::V>;

    open spec fn view(&self) -> CrudEventView<R::V> {
        match self {
            CrudEvent::Created(r) => CrudEventView::Created(r@),
            CrudEvent::Updated(r) => CrudEventView::Updated(r@),
            CrudEvent::Renamed(old_name, new_name) => CrudEventView::Renamed(old_name@, new_name@),
            CrudEvent::Deleted(name) => CrudEventView::Deleted(name@),
        }
    }
}

/// The values of a list of notifications about slides.
pub open spec fn slide_event_views(events: Seq<CrudEvent<Slide>>) -> Seq<CrudEventView<SlideView>> {
    events.map_values(|e: CrudEvent<Slide>| e@)
}

/// `name` after a rename of `old_name` to `new_name`.
pub open spec fn name_renamed(name: Seq<char>, old_name: Seq<char>, new_name: Seq<char>) -> Seq<
    char,
> {
    if name == old_name {
        new_name
    } else {
        name
    }
}

/// A slide after a rename of `old_name` to `new_name`: it takes the new name
/// if it bore the old one.
pub open spec fn slide_renamed(slide: SlideView, old_name: Seq<char>, new_name: Seq<char>)
    -> SlideView {
    SlideView { name: name_renamed(slide.name, old_name, new_name), ..slide }
}

/// An action after a rename of `old_name` to `new_name`: its link follows the
/// slide.
pub open spec fn action_retargeted(action: ActionView, old_name: Seq<char>, new_name: Seq<char>)
    -> ActionView {
    ActionView {
        target_slide: name_renamed(action.target_slide, old_name, new_name),
        ..action
    }
}

/// A slide after its links were made to follow a rename.
pub open spec fn slide_retargeted(slide: SlideView, old_name: Seq<char>, new_name: Seq<char>)
    -> SlideView {
    SlideView {
        actions: slide.actions.map_values(
            |a: ActionView| action_retargeted(a, old_name, new_name),
        ),
        ..slide
    }
}

/// A slide after its background reference was made to follow the rename of a
/// background.
pub open spec fn slide_rebacked(slide: SlideView, old_name: Seq<char>, new_name: Seq<char>)
    -> SlideView {
    SlideView { background: name_renamed(slide.background, old_name, new_name), ..slide }
}

/// A rename carries a lookup with it. Where no name of the list is
/// `new_name`, looking up a name other than `new_name` before the rename finds
/// the same position as looking up the renamed name after it.
pub proof fn lemma_rename_keeps_position(
    names: Seq<Seq<char>>,
    name: Seq<char>,
    old_name: Seq<char>,
    new_name: Seq<char>,
)
    requires
        new_name == old_name || (name != new_name && forall|i: int|
            0 <= i < names.len() ==> names[i] != new_name),
    ensures
        first_named(
            names.map_values(|n: Seq<char>| name_renamed(n, old_name, new_name)),
            name_renamed(name, old_name, new_name),
        ) == first_named(names, name),
{
    let after = names.map_values(|n: Seq<char>| name_renamed(n, old_name, new_name));
    let wanted = name_renamed(name, old_name, new_name);
    assert forall|i: int| 0 <= i < names.len() implies (after[i] == wanted <==> names[i]
        == name) by {
        assert(after[i] == name_renamed(names[i], old_name, new_name));
    }
    lemma_first_named(names, name);
    match first_named(names, name) {
        Some(i) => {
            lemma_first_named_is(after, wanted, i);
        },
        None => {
            lemma_first_named_none(after, wanted);
        },
    }
}

/// A resource that is made, replaced, renamed and removed by name.
pub trait Crudable: View + Sized {
    /// The name in a value of the resource.
    spec fn name_in(v: Self::V) -> Seq<char>;

    /// A value of the resource under another name.
    spec fn under_name(v: Self::V, name: Seq<char>) -> Self::V;

    /// The name of the resource.
    fn name(&self) -> (name: String)
        ensures
            name@ == Self::name_in(self@),
    ;

    /// Gives the resource another name and leaves the rest of it alone.
    fn set_name(&mut self, new_name: String)
        ensures
            final(self)@ == Self::under_name(old(self)@, new_name@),
    ;

    /// The stem of the names that are made up for new resources of this kind.
    fn default_name_prefix() -> (prefix: &'static str)
    ;

    /// A copy of the resource.
    fn duplicate(&self) -> (copy: Self)
        ensures
            copy@ == self@,
    ;

    /// A rename touches the name and nothing else: the value under a name has
    /// that name, a value under its own name is itself, and of two renames in
    /// a row only the second shows.
    proof fn law_rename_touches_the_name_only(v: Self::V, first: Seq<char>, second: Seq<char>)
        ensures
            Self::name_in(Self::under_name(v, first)) == first,
            Self::under_name(v, Self::name_in(v)) == v,
            Self::under_name(Self::under_name(v, first), second) == Self::under_name(v, second),
    ;
}

impl Crudable for Slide {
    open spec fn name_in(v: SlideView) -> Seq<char> {
        v.name
    }

    open spec fn under_name(v: SlideView, name: Seq<char>) -> SlideView {
        SlideView { name, ..v }
    }

    fn name(&self) -> (name: String) {
        self.name.clone()
    }

    fn set_name(&mut self, new_name: String) {
        self.name = new_name;
    }

    fn default_name_prefix() -> (prefix: &'static str)
        ensures
            prefix@ == "slide"@,
    {
        "slide"
    }

    fn duplicate(&self) -> (copy: Slide) {
        self.clone()
    }

    proof fn law_rename_touches_the_name_only(v: SlideView, first: Seq<char>, second: Seq<char>) {
    }
}

/// The values of a list of resources.
pub open spec fn resource_views<R: View>(items: Seq<R>) -> Seq<R::V> {
    items.map_values(|r: R| r@)
}

/// The values of a list of notifications.
pub open spec fn event_views<R: View>(events: Seq<CrudEvent<R>>) -> Seq<CrudEventView<R::V>> {
    events.map_values(|e: CrudEvent<R>| e@)
}

/// The test that a value of a resource passes when its name is not `name`.
pub open spec fn named_otherwise<R: Crudable>(name: Seq<char>) -> spec_fn(R::V) -> bool {
    |x: R::V| R::name_in(x) != name
}

/// The test that a resource passes when its name is not `name`.
pub open spec fn kept_without<R: Crudable>(name: Seq<char>) -> spec_fn(R) -> bool {
    |r: R| R::name_in(r@) != name
}

/// The resources after one notification was applied. A created resource is
/// added at the end. An updated one replaces every resource of its name. A
/// rename gives every resource of the old name the new one. A deletion takes
/// out every resource of the name.
pub open spec fn event_applied<R: Crudable>(items: Seq<R::V>, event: CrudEventView<R::V>) -> Seq<
    R::V,
> {
    match event {
        CrudEventView::Created(v) => items.push(v),
        CrudEventView::Updated(v) => items.map_values(
            |x: R::V| if R::name_in(x) == R::name_in(v) {
                v
            } else {
                x
            },
        ),
        CrudEventView::Renamed(old_name, new_name) => items.map_values(
            |x: R::V| if R::name_in(x) == old_name {
                R::under_name(x, new_name)
            } else {
                x
            },
        ),
        CrudEventView::Deleted(name) => items.filter(named_otherwise::<R>(name)),
    }
}

/// The resources after a batch of notifications, applied in order of arrival.
pub open spec fn events_applied<R: Crudable>(
    items: Seq<R::V>,
    events: Seq<CrudEventView<R::V>>,
) -> Seq<R::V>
    decreases events.len(),
{
    if events.len() == 0 {
        items
    } else {
        event_applied::<R>(events_applied::<R>(items, events.drop_last()), events.last())
    }
}

/// Puts a copy of `resource` in place of every one of `items` that has its
/// name.
pub fn replace_named<R: Crudable>(items: &mut Vec<R>, resource: &R)
    ensures
        resource_views(final(items)@) == event_applied::<R>(
            resource_views(old(items)@),
            CrudEventView::Updated(resource@),
        ),
{
    let wanted = resource.name();
    let mut i: usize = 0;
    while i < items.len()
        invariant
            i <= items.len(),
            items.len() == old(items).len(),
            wanted@ == R::name_in(resource@),
            forall|j: int|
                0 <= j < i ==> (#[trigger] items@[j])@ == (if R::name_in(old(items)@[j]@)
                    == R::name_in(resource@) {
                    resource@
                } else {
                    old(items)@[j]@
                }),
            forall|j: int| i <= j < items.len() ==> items@[j] == old(items)@[j],
        decreases items.len() - i,
    {
        if items[i].name() == wanted {
            items[i] = resource.duplicate();
        }
        i += 1;
    }
    assert(resource_views(items@) =~= event_applied::<R>(
        resource_views(old(items)@),
        CrudEventView::Updated(resource@),
    ));
}

/// Gives every one of `items` called `old_name` the name `new_name`.
pub fn rename_named<R: Crudable>(items: &mut Vec<R>, old_name: &String, new_name: &String)
    ensures
        resource_views(final(items)@) == event_applied::<R>(
            resource_views(old(items)@),
            CrudEventView::Renamed(old_name@, new_name@),
        ),
{
    let mut i: usize = 0;
    while i < items.len()
        invariant
            i <= items.len(),
            items.len() == old(items).len(),
            forall|j: int|
                0 <= j < i ==> (#[trigger] items@[j])@ == (if R::name_in(old(items)@[j]@)
                    == old_name@ {
                    R::under_name(old(items)@[j]@, new_name@)
                } else {
                    old(items)@[j]@
                }),
            forall|j: int| i <= j < items.len() ==> items@[j] == old(items)@[j],
        decreases items.len() - i,
    {
        if items[i].name() == *old_name {
            items[i].set_name(new_name.clone());
        }
        i += 1;
    }
    assert(resource_views(items@) =~= event_applied::<R>(
        resource_views(old(items)@),
        CrudEventView::Renamed(old_name@, new_name@),
    ));
}

/// Taking the values of a list commutes with taking out the resources of a
/// name.
pub proof fn lemma_views_of_kept<R: Crudable>(items: Seq<R>, name: Seq<char>)
    ensures
        resource_views(items.filter(kept_without::<R>(name))) == resource_views(items).filter(
            named_otherwise::<R>(name),
        ),
    decreases items.len(),
{
    let keep = kept_without::<R>(name);
    let keep_view = named_otherwise::<R>(name);
    reveal(Seq::filter);
    if items.len() > 0 {
        let front = items.drop_last();
        lemma_views_of_kept::<R>(front, name);
        assert(resource_views(items).drop_last() =~= resource_views(front));
        assert(resource_views(items).last() == items.last()@);
        if keep(items.last()) {
            assert(resource_views(front.filter(keep).push(items.last())) =~= resource_views(
                front.filter(keep),
            ).push(items.last()@));
        }
    } else {
        assert(resource_views(items.filter(keep)) =~= resource_views(items).filter(keep_view));
    }
}

/// Takes out every one of `items` called `name`, and keeps the others in
/// their order.
pub fn remove_named<R: Crudable>(items: &mut Vec<R>, name: &String)
    ensures
        resource_views(final(items)@) == event_applied::<R>(
            resource_views(old(items)@),
            CrudEventView::Deleted(name@),
        ),
{
    let ghost keep = kept_without::<R>(name@);
    let ghost seen: int = 0;
    let mut i: usize = 0;
    proof {
        reveal(Seq::filter);
        assert(old(items)@.take(0) =~= Seq::<R>::empty());
        assert(old(items)@.skip(0) =~= old(items)@);
    }
    while i < items.len()
        invariant
            0 <= seen <= old(items)@.len(),
            keep == kept_without::<R>(name@),
            i == old(items)@.take(seen).filter(keep).len(),
            items@ == old(items)@.take(seen).filter(keep) + old(items)@.skip(seen),
            items.len() - i == old(items)@.len() - seen,
        decreases items.len() - i,
    {
        proof {
            reveal(Seq::filter);
            assert(old(items)@.take(seen + 1).drop_last() =~= old(items)@.take(seen));
            assert(old(items)@.take(seen + 1).last() == old(items)@[seen]);
            assert(items@[i as int] == old(items)@.skip(seen)[0]);
        }
        if items[i].name() == *name {
            let _ = items.remove(i);
            assert(items@ =~= old(items)@.take(seen + 1).filter(keep) + old(items)@.skip(seen + 1));
        } else {
            assert(items@ =~= old(items)@.take(seen + 1).filter(keep) + old(items)@.skip(seen + 1));
            i += 1;
        }
        proof {
            seen = seen + 1;
        }
    }
    proof {
        assert(old(items)@.take(seen) =~= old(items)@);
        assert(items@ =~= old(items)@.filter(keep));
        lemma_views_of_kept::<R>(old(items)@, name@);
    }
}

/// Applies one notification to `items`.
pub fn apply_event<R: Crudable>(items: &mut Vec<R>, event: &CrudEvent<R>)
    ensures
        resource_views(final(items)@) == event_applied::<R>(resource_views(old(items)@), event@),
{
    match event {
        CrudEvent::Created(resource) => {
            items.push(resource.duplicate());
            assert(resource_views(items@) =~= resource_views(old(items)@).push(resource@));
        },
        CrudEvent::Updated(resource) => {
            replace_named(items, resource);
        },
        CrudEvent::Renamed(old_name, new_name) => {
            rename_named(items, old_name, new_name);
        },
        CrudEvent::Deleted(name) => {
            remove_named(items, name);
        },
    }
}

/// Applies a batch of notifications to `items`, in order of arrival.
pub fn event_handler<R: Crudable>(events: &Vec<CrudEvent<R>>, items: &mut Vec<R>)
    ensures
        resource_views(final(items)@) == events_applied::<R>(
            resource_views(old(items)@),
            event_views(events@),
        ),
{
    let ghost views = event_views(events@);
    let mut i: usize = 0;
    assert(views.take(0) =~= Seq::<CrudEventView<R::V>>::empty());
    while i < events.len()
        invariant
            i <= events.len(),
            views == event_views(events@),
            resource_views(items@) == events_applied::<R>(
                resource_views(old(items)@),
                views.take(i as int),
            ),
        decreases events.len() - i,
    {
        proof {
            assert(views.take(i + 1).drop_last() =~= views.take(i as int));
            assert(views.take(i + 1).last() == events@[i as int]@);
        }
        apply_event(items, &events[i]);
        i += 1;
    }
    assert(views.take(events.len() as int) =~= views);
}

/// The slides after their links were made to follow one notification: a
/// rename redirects every link to the old name; nothing else touches a link.
pub open spec fn references_updated(slides: Seq<SlideView>, event: CrudEventView<SlideView>) -> Seq<
    SlideView,
> {
    match event {
        CrudEventView::Renamed(old_name, new_name) => slides.map_values(
            |s: SlideView| slide_retargeted(s, old_name, new_name),
        ),
        _ => slides,
    }
}

/// The slides after their links were made to follow a batch of
/// notifications, in order of arrival.
pub open spec fn all_references_updated(
    slides: Seq<SlideView>,
    events: Seq<CrudEventView<SlideView>>,
) -> Seq<SlideView>
    decreases events.len(),
{
    if events.len() == 0 {
        slides
    } else {
        references_updated(all_references_updated(slides, events.drop_last()), events.last())
    }
}

/// Redirects every one of `actions` that leads to `old_name` to `new_name`.
pub fn retarget_actions(actions: &mut Vec<Action>, old_name: &String, new_name: &String)
    ensures
        action_views(final(actions)@) == action_views(old(actions)@).map_values(
            |a: ActionView| action_retargeted(a, old_name@, new_name@),
        ),
{
    let mut j: usize = 0;
    while j < actions.len()
        invariant
            j <= actions.len(),
            actions.len() == old(actions).len(),
            forall|k: int|
                0 <= k < j ==> (#[trigger] actions@[k])@ == action_retargeted(
                    old(actions)@[k]@,
                    old_name@,
                    new_name@,
                ),
            forall|k: int| j <= k < actions.len() ==> actions@[k] == old(actions)@[k],
        decreases actions.len() - j,
    {
        if actions[j].target_slide == *old_name {
            actions[j].target_slide = new_name.clone();
        }
        j += 1;
    }
    assert(action_views(actions@) =~= action_views(old(actions)@).map_values(
        |a: ActionView| action_retargeted(a, old_name@, new_name@),
    ));
}

/// Makes the links of `slides` follow the renames among `events`: for each
/// rename, in order of arrival, every action that led to the old name leads to
/// the new one.
pub fn update_references(events: &Vec<CrudEvent<Slide>>, slides: &mut Vec<Slide>)
    ensures
        slide_views(final(slides)@) == all_references_updated(
            slide_views(old(slides)@),
            slide_event_views(events@),
        ),
{
    let ghost views = slide_event_views(events@);
    let mut e: usize = 0;
    assert(views.take(0) =~= Seq::<CrudEventView<SlideView>>::empty());
    while e < events.len()
        invariant
            e <= events.len(),
            views == slide_event_views(events@),
            slide_views(slides@) == all_references_updated(
                slide_views(old(slides)@),
                views.take(e as int),
            ),
        decreases events.len() - e,
    {
        proof {
            assert(views.take(e + 1).drop_last() =~= views.take(e as int));
            assert(views.take(e + 1).last() == events@[e as int]@);
        }
        let ghost before = slides@;
        match &events[e] {
            CrudEvent::Renamed(old_name, new_name) => {
                let mut i: usize = 0;
                while i < slides.len()
                    invariant
                        i <= slides.len(),
                        slides.len() == before.len(),
                        forall|k: int|
                            0 <= k < i ==> (#[trigger] slides@[k])@ == slide_retargeted(
                                before[k]@,
                                old_name@,
                                new_name@,
                            ),
                        forall|k: int| i <= k < slides.len() ==> slides@[k] == before[k],
                    decreases slides.len() - i,
                {
                    retarget_actions(&mut slides[i].actions, old_name, new_name);
                    i += 1;
                }
                assert(slide_views(slides@) =~= references_updated(
                    slide_views(before),
                    events@[e as int]@,
                ));
            },
            _ => {},
        }
        e += 1;
    }
    assert(views.take(events.len() as int) =~= views);
}

/// The slides after their background references were made to follow one
/// notification about backgrounds: a rename redirects every reference to the
/// old name.
pub open spec fn background_references_updated(
    slides: Seq<SlideView>,
    event: CrudEventView<BackgroundView>,
) -> Seq<SlideView> {
    match event {
        CrudEventView::Renamed(old_name, new_name) => slides.map_values(
            |s: SlideView| slide_rebacked(s, old_name, new_name),
        ),
        _ => slides,
    }
}

/// The slides after their background references were made to follow a batch
/// of notifications about backgrounds, in order of arrival.
pub open spec fn all_background_references_updated(
    slides: Seq<SlideView>,
    events: Seq<CrudEventView<BackgroundView>>,
) -> Seq<SlideView>
    decreases events.len(),
{
    if events.len() == 0 {
        slides
    } else {
        background_references_updated(
            all_background_references_updated(slides, events.drop_last()),
            events.last(),
        )
    }
}

/// Makes the background references of `slides` follow the renames among
/// `events`: for each rename, in order of arrival, every slide that named the
/// old background names the new one.
pub fn update_references_to_backgrounds(
    events: &Vec<CrudEvent<Background>>,
    slides: &mut Vec<Slide>,
)
    ensures
        slide_views(final(slides)@) == all_background_references_updated(
            slide_views(old(slides)@),
            event_views(events@),
        ),
{
    let ghost views = event_views(events@);
    let mut e: usize = 0;
    assert(views.take(0) =~= Seq::<CrudEventView<BackgroundView>>::empty());
    while e < events.len()
        invariant
            e <= events.len(),
            views == event_views(events@),
            slide_views(slides@) == all_background_references_updated(
                slide_views(old(slides)@),
                views.take(e as int),
            ),
        decreases events.len() - e,
    {
        proof {
            assert(views.take(e + 1).drop_last() =~= views.take(e as int));
            assert(views.take(e + 1).last() == events@[e as int]@);
        }
        let ghost before = slides@;
        match &events[e] {
            CrudEvent::Renamed(old_name, new_name) => {
                let mut i: usize = 0;
                while i < slides.len()
                    invariant
                        i <= slides.len(),
                        slides.len() == before.len(),
                        forall|k: int|
                            0 <= k < i ==> (#[trigger] slides@[k])@ == slide_rebacked(
                                before[k]@,
                                old_name@,
                                new_name@,
                            ),
                        forall|k: int| i <= k < slides.len() ==> slides@[k] == before[k],
                    decreases slides.len() - i,
                {
                    if slides[i].background == *old_name {
                        slides[i].background = new_name.clone();
                    }
                    i += 1;
                }
                assert(slide_views(slides@) =~= background_references_updated(
                    slide_views(before),
                    events@[e as int]@,
                ));
            },
            _ => {},
        }
        e += 1;
    }
    assert(views.take(events.len() as int) =~= views);
}

} // verus!
