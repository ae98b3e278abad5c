//! Names stay unique. Slides are found by name, so no two may bear the same
//! one; the dialogs only send notifications that keep it so.

use vstd::prelude::*;
use crate::editors::{RenameVerdict, name_verdict, rename_verdict, resource_names};
use crate::model::{
    CrudEventView,
    Crudable,
    Slide,
    SlideView,
    event_applied,
    first_named,
    lemma_first_named,
    named_otherwise,
    slide_names,
};

verus! {

/// Whether no two of `names` are the same.
pub open spec fn all_distinct(names: Seq<Seq<char>>) -> bool {
    forall|i: int, j: int| 0 <= i < j < names.len() ==> names[i] != names[j]
}

/// Whether no two of the resources bear the same name.
pub open spec fn names_unique<R: Crudable>(items: Seq<R::V>) -> bool {
    all_distinct(resource_names::<R>(items))
}

/// The names of slides, taken as resources or taken as slides, are the same
/// list.
pub proof fn lemma_slide_names(slides: Seq<SlideView>)
    ensures
        resource_names::<Slide>(slides) == slide_names(slides),
{
    assert(resource_names::<Slide>(slides) =~= slide_names(slides));
}

/// A slide that the prompt agrees to make keeps the names of the slides
/// unique: the prompt refuses a name that is in use.
pub proof fn law_created_slide_keeps_names_unique(slides: Seq<SlideView>, made: SlideView)
    requires
        names_unique::<Slide>(slides),
        name_verdict(made.name, None, slides) is Ok,
    ensures
        names_unique::<Slide>(event_applied::<Slide>(slides, CrudEventView::Created(made))),
{
    let after = event_applied::<Slide>(slides, CrudEventView::Created(made));
    let names = resource_names::<Slide>(slides);
    let names_after = resource_names::<Slide>(after);
    lemma_slide_names(slides);
    lemma_first_named(slide_names(slides), made.name);
    assert forall|i: int, j: int| 0 <= i < j < names_after.len() implies names_after[i]
        != names_after[j] by {
        assert(names_after[i] == names[i]);
        if j < names.len() {
            assert(names_after[j] == names[j]);
        }
    }
}

/// A rename that the dialog allows keeps the names unique: the dialog refuses
/// a new name that another resource bears.
pub proof fn law_allowed_rename_keeps_names_unique<R: Crudable>(
    items: Seq<R::V>,
    old_name: Seq<char>,
    new_name: Seq<char>,
)
    requires
        names_unique::<R>(items),
        rename_verdict(old_name, new_name, resource_names::<R>(items)) == RenameVerdict::Allowed,
    ensures
        names_unique::<R>(
            event_applied::<R>(items, CrudEventView::Renamed(old_name, new_name)),
        ),
{
    let after = event_applied::<R>(items, CrudEventView::Renamed(old_name, new_name));
    let names = resource_names::<R>(items);
    let names_after = resource_names::<R>(after);
    assert forall|i: int| 0 <= i < names.len() implies names_after[i] == (if names[i]
        == old_name {
        new_name
    } else {
        names[i]
    }) by {
        R::law_rename_touches_the_name_only(items[i], new_name, new_name);
    }
    assert forall|i: int, j: int| 0 <= i < j < names_after.len() implies names_after[i]
        != names_after[j] by {
        if old_name != new_name {
            assert(!names.contains(new_name));
            assert(names[i] != new_name);
            assert(names[j] != new_name);
        }
    }
}

/// An update keeps the names unique: it puts a resource in the place of the
/// one that bears its name.
pub proof fn law_update_keeps_names_unique<R: Crudable>(items: Seq<R::V>, updated: R::V)
    requires
        names_unique::<R>(items),
    ensures
        resource_names::<R>(event_applied::<R>(items, CrudEventView::Updated(updated)))
            == resource_names::<R>(items),
        names_unique::<R>(event_applied::<R>(items, CrudEventView::Updated(updated))),
{
    let after = event_applied::<R>(items, CrudEventView::Updated(updated));
    assert(resource_names::<R>(after) =~= resource_names::<R>(items));
}

/// Taking resources out keeps the names of the others unique.
pub proof fn law_deletion_keeps_names_unique<R: Crudable>(items: Seq<R::V>, name: Seq<char>)
    requires
        names_unique::<R>(items),
    ensures
        names_unique::<R>(event_applied::<R>(items, CrudEventView::Deleted(name))),
        !resource_names::<R>(event_applied::<R>(items, CrudEventView::Deleted(name))).contains(
            name,
        ),
    decreases items.len(),
{
    let keep = named_otherwise::<R>(name);
    let kept = items.filter(keep);
    let names = resource_names::<R>(items);
    let kept_names = resource_names::<R>(kept);
    reveal(Seq::filter);
    if items.len() > 0 {
        let front = items.drop_last();
        let front_names = resource_names::<R>(front);
        assert forall|i: int, j: int| 0 <= i < j < front_names.len() implies front_names[i]
            != front_names[j] by {
            assert(front_names[i] == names[i]);
            assert(front_names[j] == names[j]);
        }
        law_deletion_keeps_names_unique::<R>(front, name);
        let kept_front = front.filter(keep);
        let kept_front_names = resource_names::<R>(kept_front);
        if keep(items.last()) {
            assert(kept == kept_front.push(items.last()));
            assert forall|i: int, j: int| 0 <= i < j < kept_names.len() implies kept_names[i]
                != kept_names[j] by {
                assert(kept_names[i] == R::name_in(kept[i]));
                if j < kept_front.len() {
                    assert(kept_names[i] == kept_front_names[i]);
                    assert(kept_names[j] == kept_front_names[j]);
                } else {
                    assert(kept[j] == items.last());
                    assert(kept[i] == kept_front[i]);
                    assert(kept_front.contains(kept_front[i]));
                    front.lemma_filter_contains_rev(keep, kept_front[i]);
                    let at = choose|at: int| 0 <= at < front.len() && front[at] == kept_front[i];
                    assert(names[at] == R::name_in(front[at]));
                    assert(names[items.len() - 1] == R::name_in(items.last()));
                }
            }
            assert forall|i: int| 0 <= i < kept_names.len() implies kept_names[i] != name by {
                if i < kept_front.len() {
                    assert(kept_names[i] == kept_front_names[i]);
                    assert(kept_front_names.contains(kept_front_names[i]));
                } else {
                    assert(kept[i] == items.last());
                }
            }
        } else {
            assert(kept == kept_front);
        }
    } else {
        assert(kept_names =~= Seq::<Seq<char>>::empty());
    }
}

/// With unique names a lookup finds the one slide of the name: no other slide
/// bears it.
pub proof fn law_unique_names_find_the_only_slide(slides: Seq<SlideView>, name: Seq<char>, i: int)
    requires
        names_unique::<Slide>(slides),
        0 <= i < slides.len(),
        slides[i].name == name,
    ensures
        first_named(slide_names(slides), name) == Some(i),
        forall|j: int| 0 <= j < slides.len() && j != i ==> slides[j].name != name,
{
    lemma_slide_names(slides);
    let names = slide_names(slides);
    lemma_first_named(names, name);
    assert(names[i] == name);
    assert forall|j: int| 0 <= j < slides.len() && j != i implies slides[j].name != name by {
        assert(names[j] == slides[j].name);
        if j < i {
            assert(names[j] != names[i]);
        } else {
            assert(names[i] != names[j]);
        }
    }
}

} // verus!
