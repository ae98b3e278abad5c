//! Pointer hit-testing over the list of visible choices.
//!
//! Choices are laid out in a column: choice `i` sits `i` spacings below the
//! origin of the list. The pointer hovers the choice nearest to it among those
//! closer than the tolerance, and the first declared wins a tie.

use vstd::prelude::*;

verus! {

/// Spacing between successive choices, in layout units.
pub const CHOICE_SPACING: i32 = 30;

/// Distance below which the pointer counts as over a choice.
pub const HIT_TOLERANCE: i32 = 30;

/// Where the choices are drawn, in the coordinate space of the pointer.
#[derive(Clone, Copy, Debug)]
pub struct ChoiceLayout {
    /// Vertical position of the first choice.
    pub origin_y: i32,
    /// Vertical step from one choice down to the next.
    pub spacing: i32,
    /// Radius of the hit test.
    pub tolerance: i32,
}

impl ChoiceLayout {
    /// Vertical distance from the pointer to choice `i`.
    pub open spec fn distance(self, i: nat, pointer_y: int) -> int {
        let delta = self.origin_y - i * self.spacing - pointer_y;
        if delta < 0 {
            -delta
        } else {
            delta
        }
    }

    /// Whether the pointer is within tolerance of choice `i`.
    pub open spec fn hits(self, i: nat, pointer_y: int) -> bool {
        self.distance(i, pointer_y) < self.tolerance
    }

    /// Whether `i` is the hovered choice among the first `visible`: it is hit,
    /// no hit choice is nearer, and none as near comes before it.
    pub open spec fn is_nearest(self, visible: nat, pointer_y: int, i: nat) -> bool {
        &&& i < visible
        &&& self.hits(i, pointer_y)
        &&& forall|j: nat|
            j < visible && #[trigger] self.hits(j, pointer_y) ==> {
                ||| self.distance(i, pointer_y) < self.distance(j, pointer_y)
                ||| (self.distance(i, pointer_y) == self.distance(j, pointer_y) && i <= j)
            }
    }

    /// Whether the pointer is over none of the first `visible` choices.
    pub open spec fn misses_all(self, visible: nat, pointer_y: int) -> bool {
        forall|j: nat| j < visible ==> !#[trigger] self.hits(j, pointer_y)
    }

    /// The hovered choice, if any.
    pub open spec fn hovered(self, visible: nat, pointer_y: int, choice: Option<usize>) -> bool {
        match choice {
            Some(i) => self.is_nearest(visible, pointer_y, i as nat),
            None => self.misses_all(visible, pointer_y),
        }
    }

    /// The stock layout with its origin at `origin_y`.
    pub fn new(origin_y: i32) -> (layout: ChoiceLayout)
        ensures
            layout == (ChoiceLayout {
                origin_y,
                spacing: CHOICE_SPACING,
                tolerance: HIT_TOLERANCE,
            }),
    {
        ChoiceLayout { origin_y, spacing: CHOICE_SPACING, tolerance: HIT_TOLERANCE }
    }

    /// Vertical distance from the pointer to choice `i`.
    pub fn distance_to(&self, i: usize, pointer_y: i32) -> (d: i128)
        ensures
            d == self.distance(i as nat, pointer_y as int),
            d >= 0,
    {
        proof {
            assert(-0x1_0000_0000_0000_0000 * 0x8000_0000 <= i * self.spacing
                <= 0x1_0000_0000_0000_0000 * 0x8000_0000) by (nonlinear_arith)
                requires
                    0 <= i <= 0xffff_ffff_ffff_ffff,
                    -0x8000_0000 <= self.spacing < 0x8000_0000,
            ;
        }
        let offset: i128 = (i as i128) * (self.spacing as i128);
        let delta: i128 = self.origin_y as i128 - offset - pointer_y as i128;
        if delta < 0 {
            -delta
        } else {
            delta
        }
    }

    /// The choice that the pointer at `pointer_y` hovers among the first
    /// `visible`: the nearest of those within tolerance, the lowest index
    /// among equally near ones, or none if the pointer is within tolerance of
    /// none.
    pub fn hover_target(&self, visible: usize, pointer_y: i32) -> (choice: Option<usize>)
        ensures
            self.hovered(visible as nat, pointer_y as int, choice),
    {
        let mut best: Option<usize> = None;
        let mut best_distance: i128 = 0;
        let mut i: usize = 0;
        while i < visible
            invariant
                i <= visible,
                self.hovered(i as nat, pointer_y as int, best),
                best matches Some(b) ==> best_distance == self.distance(b as nat, pointer_y as int),
            decreases visible - i,
        {
            let d = self.distance_to(i, pointer_y);
            if d < self.tolerance as i128 {
                if best.is_none() || d < best_distance {
                    best = Some(i);
                    best_distance = d;
                }
            }
            i += 1;
        }
        best
    }
}

/// The hovered choice is determined: two choices cannot both be the nearest.
pub proof fn law_hover_unique(layout: ChoiceLayout, visible: nat, pointer_y: int, a: nat, b: nat)
    requires
        layout.is_nearest(visible, pointer_y, a),
        layout.is_nearest(visible, pointer_y, b),
    ensures
        a == b,
{
}

/// Of two choices at the same distance from the pointer, both within
/// tolerance, the one declared later is never the hovered one.
pub proof fn law_tie_resolves_to_lower_index(
    layout: ChoiceLayout,
    visible: nat,
    pointer_y: int,
    lower: nat,
    higher: nat,
    chosen: nat,
)
    requires
        lower < higher < visible,
        layout.hits(lower, pointer_y),
        layout.distance(lower, pointer_y) == layout.distance(higher, pointer_y),
        layout.is_nearest(visible, pointer_y, chosen),
    ensures
        chosen != higher,
        chosen <= lower || layout.distance(chosen, pointer_y) < layout.distance(lower, pointer_y),
{
}

/// When two choices tie for the least distance, the hovered choice is the
/// first of them.
pub proof fn law_nearest_tie_picks_first(
    layout: ChoiceLayout,
    visible: nat,
    pointer_y: int,
    lower: nat,
    higher: nat,
)
    requires
        lower < higher < visible,
        layout.hits(lower, pointer_y),
        layout.distance(lower, pointer_y) == layout.distance(higher, pointer_y),
        forall|j: nat|
            j < visible && j != lower && j != higher ==> layout.distance(lower, pointer_y)
                < #[trigger] layout.distance(j, pointer_y),
    ensures
        layout.is_nearest(visible, pointer_y, lower),
        !layout.is_nearest(visible, pointer_y, higher),
{
}

} // verus!
