use vstd::prelude::*;

verus! {

/// A point of the board, in whole board units measured from the board's top-left corner:
/// `x` grows to the right, `y` grows downwards.
#[derive(Clone, Copy, Debug, PartialEq, Eq, Structural)]
pub struct Point {
    pub x: i32,
    pub y: i32,
}

/// Whether `position` lies inside the rectangle with top-left corner `area.0` and
/// bottom-right corner `area.1`. The rectangle is closed: its border belongs to it.
pub open spec fn in_area(position: Point, area: (Point, Point)) -> bool {
    &&& area.0.x <= position.x <= area.1.x
    &&& area.0.y <= position.y <= area.1.y
}

/// Tests whether a point falls within a rectangle given by its two corners.
pub fn point_in_area(position: Point, area_to: (Point, Point)) -> (to: bool)
    ensures
        to == in_area(position, area_to),
{
    position.x >= area_to.0.x && position.x <= area_to.1.x && position.y >= area_to.0.y
        && position.y <= area_to.1.y
}

/// The least index at or after `from` whose rectangle contains `position`, if there is one.
pub open spec fn first_hit_from(areas: Seq<(Point, Point)>, position: Point, from: int) -> Option<
    int,
>
    decreases areas.len() - from,
{
    if from < 0 || from >= areas.len() {
        None
    } else if in_area(position, areas[from]) {
        Some(from)
    } else {
        first_hit_from(areas, position, from + 1)
    }
}

/// The first rectangle of `areas` that contains `position`, if any does.
pub open spec fn first_hit(areas: Seq<(Point, Point)>, position: Point) -> Option<int> {
    first_hit_from(areas, position, 0)
}

/// `first_hit_from` finds a rectangle exactly when one at or after `from` contains the
/// point, and the one it finds is the earliest of them.
pub proof fn lemma_first_hit_from(areas: Seq<(Point, Point)>, position: Point, from: int)
    requires
        0 <= from,
    ensures
        match first_hit_from(areas, position, from) {
            Some(j) => {
                &&& from <= j < areas.len()
                &&& in_area(position, areas[j])
                &&& forall|k: int| from <= k < j ==> !in_area(position, #[trigger] areas[k])
            },
            None => forall|k: int|
                from <= k < areas.len() ==> !in_area(position, #[trigger] areas[k]),
        },
    decreases areas.len() - from,
{
    if from < areas.len() && !in_area(position, areas[from]) {
        lemma_first_hit_from(areas, position, from + 1);
    }
}

/// The smallest rectangle's corners that a stack of slots is tested against before its
/// slots are: from the first slot's top-left corner to the last slot's bottom-right corner.
pub open spec fn bounding_box(slots: Seq<(Point, Point)>) -> (Point, Point)
    recommends
        slots.len() > 0,
{
    (slots[0].0, slots[slots.len() - 1].1)
}

/// The slot of a stack that a point selects: the first slot that contains the point,
/// provided the stack has slots and the point lies within the stack's bounding box.
pub open spec fn slot_hit(slots: Seq<(Point, Point)>, position: Point) -> Option<int> {
    if slots.len() > 0 && in_area(position, bounding_box(slots)) {
        first_hit(slots, position)
    } else {
        None
    }
}

/// The first stack at or after `from` in which the point selects a slot, with that slot.
pub open spec fn stack_hit_from(
    stacks: Seq<Seq<(Point, Point)>>,
    position: Point,
    from: int,
) -> Option<(int, int)>
    decreases stacks.len() - from,
{
    if from < 0 || from >= stacks.len() {
        None
    } else {
        match slot_hit(stacks[from], position) {
            Some(slot) => Some((from, slot)),
            None => stack_hit_from(stacks, position, from + 1),
        }
    }
}

/// The first stack in which the point selects a slot, with that slot.
pub open spec fn stack_hit(stacks: Seq<Seq<(Point, Point)>>, position: Point) -> Option<
    (int, int),
> {
    stack_hit_from(stacks, position, 0)
}

/// `stack_hit_from` finds a stack exactly when the point selects a slot in one at or after
/// `from`; it reports the earliest such stack and the slot selected there.
pub proof fn lemma_stack_hit_from(stacks: Seq<Seq<(Point, Point)>>, position: Point, from: int)
    requires
        0 <= from,
    ensures
        match stack_hit_from(stacks, position, from) {
            Some((i, j)) => {
                &&& from <= i < stacks.len()
                &&& slot_hit(stacks[i], position) == Some(j)
                &&& forall|k: int| from <= k < i ==> slot_hit(#[trigger] stacks[k], position) is None
            },
            None => forall|k: int|
                from <= k < stacks.len() ==> slot_hit(#[trigger] stacks[k], position) is None,
        },
    decreases stacks.len() - from,
{
    if from < stacks.len() && slot_hit(stacks[from], position) is None {
        lemma_stack_hit_from(stacks, position, from + 1);
    }
}

/// Whether the point lies within the bounding box of some stack that has slots.
pub open spec fn in_any_stack(stacks: Seq<Seq<(Point, Point)>>, position: Point) -> bool {
    exists|i: int|
        0 <= i < stacks.len() && (#[trigger] stacks[i]).len() > 0 && in_area(
            position,
            bounding_box(stacks[i]),
        )
}

/// Whether some rectangle of `areas` contains the point.
pub open spec fn in_any_area(areas: Seq<(Point, Point)>, position: Point) -> bool {
    exists|i: int| 0 <= i < areas.len() && in_area(position, #[trigger] areas[i])
}

/// Scans the rectangles in order and returns the index of the first that contains the point.
pub fn find_area(areas: &Vec<(Point, Point)>, position: Point) -> (found: Option<usize>)
    ensures
        match found {
            Some(i) => first_hit(areas@, position) == Some(i as int),
            None => first_hit(areas@, position) is None,
        },
{
    let mut i: usize = 0;
    while i < areas.len()
        invariant
            i <= areas.len(),
            first_hit(areas@, position) == first_hit_from(areas@, position, i as int),
        decreases areas.len() - i,
    {
        if point_in_area(position, areas[i]) {
            return Some(i);
        }
        i += 1;
    }
    None
}

/// Finds the slot of a stack that the point selects: none unless the stack has slots and
/// its bounding box contains the point, else the first slot that contains the point.
pub fn find_slot(slots: &Vec<(Point, Point)>, position: Point) -> (found: Option<usize>)
    ensures
        match found {
            Some(j) => slot_hit(slots@, position) == Some(j as int),
            None => slot_hit(slots@, position) is None,
        },
{
    if slots.len() == 0 {
        return None;
    }
    let first_card = slots[0].0;
    let last_card = slots[slots.len() - 1].1;
    if point_in_area(position, (first_card, last_card)) {
        find_area(slots, position)
    } else {
        None
    }
}

} // verus!
