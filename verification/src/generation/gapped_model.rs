//! The randomised Prim's algorithm on the grid of rooms and gaps as a state
//! machine on sequences, and what holds of every state that it can reach.

use vstd::prelude::*;
use crate::Point;
use crate::execution::Tile;
use crate::generation::grid::{rectangular, uniform_rows, with_cell};
use crate::generation::actual_prim_generator::GridCell;
use crate::generation::frontier::{lemma_swap_removed_keeps, swap_removed};
use crate::generation::paths::{adjacent, connected, open_cell, opens_kept};
use crate::generation::paths::{
    lemma_connected_by_step, lemma_connected_monotone, lemma_connected_symmetric,
    lemma_connected_to_itself, lemma_connected_transitive,
};
use crate::generation::tally::{count_in_row, count_in_rows};
use crate::generation::tally::{
    lemma_count_in_row_concat, lemma_count_in_row_none, lemma_count_in_row_update,
    lemma_count_in_rows_update,
};

verus! {

/// The point two columns to the left, wrapping round below zero.
pub open spec fn west(p: Point) -> Point {
    Point(p.0.wrapping_sub(2), p.1)
}

/// The point two columns to the right.
pub open spec fn east(p: Point) -> Point {
    Point((p.0 + 2) as usize, p.1)
}

/// The point two rows up, wrapping round below zero.
pub open spec fn north(p: Point) -> Point {
    Point(p.0, p.1.wrapping_sub(2))
}

/// The point two rows down.
pub open spec fn south(p: Point) -> Point {
    Point(p.0, (p.1 + 2) as usize)
}

/// The four points at distance two from `p` along one axis: west, east, north,
/// south.
pub open spec fn two_gapped(p: Point) -> Seq<Point> {
    seq![west(p), east(p), north(p), south(p)]
}

/// Whether `a` and `b` differ by exactly two along exactly one axis.
pub open spec fn two_apart(a: Point, b: Point) -> bool {
    ||| a.1 == b.1 && (a.0 + 2 == b.0 || b.0 + 2 == a.0)
    ||| a.0 == b.0 && (a.1 + 2 == b.1 || b.1 + 2 == a.1)
}

/// The point half way between `a` and `b`.
pub open spec fn midpoint(a: Point, b: Point) -> Point {
    Point(((a.0 + b.0) / 2) as usize, ((a.1 + b.1) / 2) as usize)
}

/// The maze that a working grid stands for, cell by cell.
pub open spec fn tiles_of(grid: Seq<Seq<GridCell>>) -> Seq<Seq<Tile>> {
    Seq::new(
        grid.len(),
        |y: int|
            Seq::new(
                grid[y].len(),
                |x: int|
                    match grid[y][x] {
                        GridCell::Passage => Tile::Passage,
                        GridCell::Wall => Tile::Wall,
                    },
            ),
    )
}

/// What the generator holds during a run: the number of rooms per row and per
/// column, the working grid, and the frontier.
pub struct GappedState {
    pub width: nat,
    pub height: nat,
    pub grid: Seq<Seq<GridCell>>,
    pub frontier: Seq<Point>,
}

impl GappedState {
    /// The number of columns of the working grid.
    pub open spec fn real_width(self) -> nat {
        2 * self.width + 1
    }

    /// The number of rows of the working grid.
    pub open spec fn real_height(self) -> nat {
        2 * self.height + 1
    }

    /// The working grid has its full size, and that size fits the machine.
    pub open spec fn built(self) -> bool {
        &&& self.real_width() <= usize::MAX
        &&& self.real_height() <= usize::MAX
        &&& rectangular(self.grid, self.real_width(), self.real_height())
    }

    /// Whether `p` lies inside the border of the working grid.
    pub open spec fn legal(self, p: Point) -> bool {
        0 < p.0 < self.real_width() - 1 && 0 < p.1 < self.real_height() - 1
    }

    /// Whether `p` is a room: a legal point with two odd coordinates.
    pub open spec fn is_room(self, p: Point) -> bool {
        self.legal(p) && p.0 % 2 == 1 && p.1 % 2 == 1
    }

    /// Whether `p` is a legal point whose cell is of the given kind.
    pub open spec fn holds(self, p: Point, kind: GridCell) -> bool {
        self.legal(p) && self.grid[p.1 as int][p.0 as int] == kind
    }

    /// `p` as a one-entry sequence if it is legal and of the given kind, else
    /// nothing.
    pub open spec fn entry(self, p: Point, kind: GridCell) -> Seq<Point> {
        if self.holds(p, kind) {
            seq![p]
        } else {
            seq![]
        }
    }

    /// The legal points of the given kind among the four points two away from
    /// `p`: west, east, north, south, in that order.
    pub open spec fn around(self, p: Point, kind: GridCell) -> Seq<Point> {
        self.entry(west(p), kind) + self.entry(east(p), kind) + self.entry(north(p), kind)
            + self.entry(south(p), kind)
    }

    /// The state after the frontier entry `pick` has been taken out and
    /// opened.
    ///
    /// The picked room becomes a passage. The walls among the rooms two away
    /// from it join the frontier. If any of the rooms two away from it are
    /// passages, the cell between it and the one of them at index `choice` is
    /// opened as well.
    pub open spec fn expanded(self, pick: int, choice: int) -> GappedState {
        let p = self.frontier[pick];
        let opened = GappedState {
            grid: with_cell(self.grid, p.0 as int, p.1 as int, GridCell::Passage),
            frontier: swap_removed(self.frontier, pick),
            ..self
        };
        let linked = opened.around(p, GridCell::Passage);
        let gap = midpoint(p, linked[choice]);
        GappedState {
            grid: if linked.len() == 0 {
                opened.grid
            } else {
                with_cell(opened.grid, gap.0 as int, gap.1 as int, GridCell::Passage)
            },
            frontier: opened.frontier + opened.around(p, GridCell::Wall),
            ..self
        }
    }

    /// Whether `choice` can stand for the second pick of a step on the
    /// frontier entry `pick`: it is an index into the passages around that
    /// entry, or there are none and it is zero.
    pub open spec fn choice_fits(self, pick: int, choice: int) -> bool {
        let linked = self.around(self.frontier[pick], GridCell::Passage);
        0 <= choice && (choice < linked.len() || (choice == 0 && linked.len() == 0))
    }

    /// The room in the top left corner, from which a run starts.
    pub open spec fn origin() -> Point {
        Point(1, 1)
    }

    /// Whether `p` is a passage already or has a passage among the rooms two
    /// away from it.
    pub open spec fn linkable(self, p: Point) -> bool {
        self.holds(p, GridCell::Passage) || self.around(p, GridCell::Passage).len() > 0
    }

    /// Whether `q`, if it is legal, is a passage or waits in the frontier.
    pub open spec fn reached(self, q: Point) -> bool {
        self.legal(q) ==> self.holds(q, GridCell::Passage) || self.frontier.contains(q)
    }

    /// Whether every legal point two away from `p` is a passage or waits in
    /// the frontier.
    pub open spec fn settled(self, p: Point) -> bool {
        &&& self.reached(west(p))
        &&& self.reached(east(p))
        &&& self.reached(north(p))
        &&& self.reached(south(p))
    }

    /// What holds of the state of a run from its first step to its last.
    ///
    /// The grid has its full size. Every frontier entry is a room that can be
    /// linked to a passage. The origin is a passage. Every passage lies inside
    /// the border, has an odd coordinate, and is connected to the origin. And
    /// every room that is a passage waits in the frontier or is settled.
    pub open spec fn sound(self) -> bool {
        &&& 1 <= self.width <= i32::MAX
        &&& 1 <= self.height <= i32::MAX
        &&& self.built()
        &&& forall|i: int|
            0 <= i < self.frontier.len() ==> self.is_room(#[trigger] self.frontier[i])
                && self.linkable(self.frontier[i])
        &&& self.holds(Self::origin(), GridCell::Passage)
        &&& forall|p: Point| #[trigger]
            open_cell(self.grid, p) ==> self.legal(p) && (p.0 % 2 == 1 || p.1 % 2 == 1)
                && connected(self.grid, p, Self::origin())
        &&& self.spread()
    }

    /// Every room that is a passage waits in the frontier or is settled.
    pub open spec fn spread(self) -> bool {
        forall|p: Point|
            self.is_room(p) && #[trigger] self.holds(p, GridCell::Passage)
                ==> self.frontier.contains(p) || self.settled(p)
    }

    /// The state a run starts from: the origin is a passage and the only
    /// frontier entry.
    pub open spec fn seeded(width: nat, height: nat) -> GappedState {
        GappedState {
            width,
            height,
            grid: with_cell(
                uniform_rows(2 * width + 1, 2 * height + 1, GridCell::Wall),
                1,
                1,
                GridCell::Passage,
            ),
            frontier: seq![Self::origin()],
        }
    }

    /// How many cells of the working grid are walls.
    pub open spec fn walls(self) -> nat {
        count_in_rows(self.grid, GridCell::Wall)
    }

    /// How many frontier entries are passages already.
    pub open spec fn stale(self) -> nat {
        count_in_row(self.frontier.map_values(|p: Point| self.holds(p, GridCell::Passage)), true)
    }
}

/// Whether `q` is one of the four points two away from `p`.
pub open spec fn gapped_from(p: Point, q: Point) -> bool {
    q == west(p) || q == east(p) || q == north(p) || q == south(p)
}

/// The state after the frontier entry `pick` has been taken out and its room
/// opened, before anything is linked or added.
pub open spec fn opened_at(st: GappedState, pick: int) -> GappedState {
    let p = st.frontier[pick];
    GappedState {
        grid: with_cell(st.grid, p.0 as int, p.1 as int, GridCell::Passage),
        frontier: swap_removed(st.frontier, pick),
        ..st
    }
}

/// The grid of `st` with the cell opened that lies between `p` and the passage
/// at index `choice` among the passages two away from `p`.
pub open spec fn linked_grid(st: GappedState, p: Point, choice: int) -> Seq<Seq<GridCell>> {
    let gap = midpoint(p, st.around(p, GridCell::Passage)[choice]);
    with_cell(st.grid, gap.0 as int, gap.1 as int, GridCell::Passage)
}

/// The state of a run for `width` x `height` rooms after the steps `steps`,
/// each a frontier pick and the choice of a passage to link to.
pub open spec fn grown_by(width: nat, height: nat, steps: Seq<(int, int)>) -> GappedState
    decreases steps.len(),
{
    if steps.len() == 0 {
        GappedState::seeded(width, height)
    } else {
        grown_by(width, height, steps.drop_last()).expanded(steps.last().0, steps.last().1)
    }
}

/// Whether each step of `steps` picks an entry of the frontier as it stands
/// when the step is made, and a choice that fits the pick.
pub open spec fn steps_fit(width: nat, height: nat, steps: Seq<(int, int)>) -> bool
    decreases steps.len(),
{
    steps.len() == 0 || {
        let before = grown_by(width, height, steps.drop_last());
        &&& steps_fit(width, height, steps.drop_last())
        &&& 0 <= steps.last().0 < before.frontier.len()
        &&& before.choice_fits(steps.last().0, steps.last().1)
    }
}

/// The cell between a point and a legal point two away from it lies in the
/// grid, and the two points differ by two along one axis.
pub proof fn lemma_gap_in_grid(st: GappedState, p: Point, q: Point)
    requires
        st.built(),
        p.0 + 2 <= usize::MAX,
        p.1 + 2 <= usize::MAX,
        st.legal(q),
        gapped_from(p, q),
    ensures
        two_apart(p, q),
        midpoint(p, q).0 < st.real_width(),
        midpoint(p, q).1 < st.real_height(),
{
}

/// Every entry of `around` is one of the four points two away, and is legal
/// and of the kind asked for.
pub proof fn lemma_around_entry(st: GappedState, p: Point, kind: GridCell, i: int)
    requires
        0 <= i < st.around(p, kind).len(),
    ensures
        st.holds(st.around(p, kind)[i], kind),
        gapped_from(p, st.around(p, kind)[i]),
{
    let a = st.entry(west(p), kind);
    let b = st.entry(east(p), kind);
    let c = st.entry(north(p), kind);
    let d = st.entry(south(p), kind);
    let all = st.around(p, kind);
    if i < a.len() {
        assert(all[i] == a[i]);
    } else if i < a.len() + b.len() {
        assert(all[i] == b[i - a.len()]);
    } else if i < a.len() + b.len() + c.len() {
        assert(all[i] == c[i - a.len() - b.len()]);
    } else {
        assert(all[i] == d[i - a.len() - b.len() - c.len()]);
    }
}

/// Each legal point of the kind asked for that is two away is an entry of
/// `around`.
pub proof fn lemma_around_has(st: GappedState, p: Point, kind: GridCell, q: Point)
    requires
        gapped_from(p, q),
        st.holds(q, kind),
    ensures
        st.around(p, kind).contains(q),
{
    let a = st.entry(west(p), kind);
    let b = st.entry(east(p), kind);
    let c = st.entry(north(p), kind);
    let d = st.entry(south(p), kind);
    let all = st.around(p, kind);
    if q == west(p) {
        assert(all[0] == q);
    } else if q == east(p) {
        assert(all[a.len() as int] == b[0]);
    } else if q == north(p) {
        assert(all[(a.len() + b.len()) as int] == c[0]);
    } else {
        assert(all[(a.len() + b.len() + c.len()) as int] == d[0]);
    }
}

/// A legal point two away from a room is a room again, the room is two away
/// from it in turn, and the cell between the two is legal, has an even
/// coordinate and touches both.
pub proof fn lemma_gapped_rooms(st: GappedState, p: Point, q: Point)
    requires
        st.built(),
        st.is_room(p),
        st.legal(q),
        gapped_from(p, q),
    ensures
        st.is_room(q),
        two_apart(p, q),
        gapped_from(q, p),
        st.legal(midpoint(p, q)),
        midpoint(p, q).0 % 2 == 0 || midpoint(p, q).1 % 2 == 0,
        midpoint(p, q).0 % 2 == 1 || midpoint(p, q).1 % 2 == 1,
        adjacent(p, midpoint(p, q)),
        adjacent(midpoint(p, q), q),
{
}

/// Opening a room changes nothing about the points two away from it.
pub proof fn lemma_opening_keeps_around(st: GappedState, pick: int, kind: GridCell)
    requires
        st.built(),
        0 <= pick < st.frontier.len(),
        st.is_room(st.frontier[pick]),
    ensures
        opened_at(st, pick).around(st.frontier[pick], kind) == st.around(st.frontier[pick], kind),
        opened_at(st, pick).built(),
{
    let p = st.frontier[pick];
    let opened = opened_at(st, pick);
    assert forall|q: Point| q != p implies opened.holds(q, kind) == st.holds(q, kind) by {}
}

/// Opening the picked room changes nothing around it, and a step only ever
/// opens the picked room and, at most, the cell between it and the chosen
/// passage.
proof fn lemma_step_facts(st: GappedState, pick: int, choice: int)
    requires
        st.sound(),
        0 <= pick < st.frontier.len(),
        st.choice_fits(pick, choice),
    ensures
        ({
            let p = st.frontier[pick];
            let next = st.expanded(pick, choice);
            let linked = st.around(p, GridCell::Passage);
            let gap = midpoint(p, linked[choice]);
            &&& next.width == st.width
            &&& next.height == st.height
            &&& next.built()
            &&& next.frontier == swap_removed(st.frontier, pick) + st.around(p, GridCell::Wall)
            &&& next.holds(p, GridCell::Passage)
            &&& linked.len() > 0 ==> {
                &&& st.holds(linked[choice], GridCell::Passage)
                &&& next.holds(gap, GridCell::Passage)
                &&& st.legal(gap)
                &&& gap.0 % 2 == 0 || gap.1 % 2 == 0
                &&& gap.0 % 2 == 1 || gap.1 % 2 == 1
                &&& adjacent(p, gap)
                &&& adjacent(gap, linked[choice])
            }
            &&& forall|q: Point| #[trigger]
                st.holds(q, GridCell::Passage) ==> next.holds(q, GridCell::Passage)
            &&& forall|q: Point| #[trigger]
                next.holds(q, GridCell::Passage) ==> st.holds(q, GridCell::Passage) || q == p || (
                linked.len() > 0 && q == gap)
        }),
{
    let p = st.frontier[pick];
    let opened = GappedState {
        grid: with_cell(st.grid, p.0 as int, p.1 as int, GridCell::Passage),
        frontier: swap_removed(st.frontier, pick),
        ..st
    };
    assert(st.is_room(p));
    assert forall|q: Point, kind: GridCell| q != p implies opened.holds(q, kind) == st.holds(
        q,
        kind,
    ) by {}
    assert(opened.around(p, GridCell::Passage) == st.around(p, GridCell::Passage));
    assert(opened.around(p, GridCell::Wall) == st.around(p, GridCell::Wall));
    let linked = st.around(p, GridCell::Passage);
    if linked.len() > 0 {
        lemma_around_entry(st, p, GridCell::Passage, choice);
        lemma_gapped_rooms(st, p, linked[choice]);
    }
}

/// After a step every frontier entry is a room that can be linked.
proof fn lemma_step_frontier(st: GappedState, pick: int, choice: int)
    requires
        st.sound(),
        0 <= pick < st.frontier.len(),
        st.choice_fits(pick, choice),
    ensures
        ({
            let next = st.expanded(pick, choice);
            forall|i: int|
                0 <= i < next.frontier.len() ==> next.is_room(#[trigger] next.frontier[i])
                    && next.linkable(next.frontier[i])
        }),
{
    lemma_step_facts(st, pick, choice);
    let p = st.frontier[pick];
    let next = st.expanded(pick, choice);
    let rest = swap_removed(st.frontier, pick);
    let fresh = st.around(p, GridCell::Wall);
    assert forall|i: int| 0 <= i < next.frontier.len() implies next.is_room(
        #[trigger] next.frontier[i],
    ) && next.linkable(next.frontier[i]) by {
        let f = next.frontier[i];
        if i < rest.len() {
            assert(f == rest[i]);
            let j = if i == pick {
                st.frontier.len() - 1
            } else {
                i
            };
            assert(f == st.frontier[j]);
            assert(st.is_room(f) && st.linkable(f));
            if !st.holds(f, GridCell::Passage) {
                let near = st.around(f, GridCell::Passage)[0];
                lemma_around_entry(st, f, GridCell::Passage, 0);
                assert(next.holds(near, GridCell::Passage));
                lemma_around_has(next, f, GridCell::Passage, near);
            }
        } else {
            assert(f == fresh[i - rest.len()]);
            lemma_around_entry(st, p, GridCell::Wall, i - rest.len());
            lemma_gapped_rooms(st, p, f);
            lemma_around_has(next, f, GridCell::Passage, p);
        }
    }
}

/// After a step every passage lies inside the border, has an odd coordinate
/// and is connected to the origin.
proof fn lemma_step_connected(st: GappedState, pick: int, choice: int)
    requires
        st.sound(),
        0 <= pick < st.frontier.len(),
        st.choice_fits(pick, choice),
    ensures
        ({
            let next = st.expanded(pick, choice);
            forall|p: Point| #[trigger]
                open_cell(next.grid, p) ==> next.legal(p) && (p.0 % 2 == 1 || p.1 % 2 == 1)
                    && connected(next.grid, p, GappedState::origin())
        }),
{
    lemma_step_facts(st, pick, choice);
    let p = st.frontier[pick];
    let next = st.expanded(pick, choice);
    let linked = st.around(p, GridCell::Passage);
    let gap = midpoint(p, linked[choice]);
    let origin = GappedState::origin();
    assert(st.is_room(p) && st.linkable(p));
    assert forall|q: Point| open_cell(st.grid, q) implies open_cell(next.grid, q) by {
        assert(st.holds(q, GridCell::Passage));
        assert(next.holds(q, GridCell::Passage));
    }
    assert(opens_kept(st.grid, next.grid));
    if linked.len() > 0 {
        let near = linked[choice];
        assert(open_cell(st.grid, near));
        lemma_connected_monotone(st.grid, next.grid, near, origin);
        assert(open_cell(next.grid, gap));
        lemma_connected_by_step(next.grid, gap, near, origin);
        assert(open_cell(next.grid, p));
        lemma_connected_by_step(next.grid, p, gap, origin);
    } else {
        assert(st.holds(p, GridCell::Passage));
    }
    assert forall|q: Point| #[trigger] open_cell(next.grid, q) implies next.legal(q) && (q.0 % 2 == 1
        || q.1 % 2 == 1) && connected(next.grid, q, origin) by {
        assert(next.grid[q.1 as int][q.0 as int] == GridCell::Passage);
        if q == p || (linked.len() > 0 && q == gap) {
            if linked.len() == 0 {
                assert(open_cell(st.grid, p));
                lemma_connected_monotone(st.grid, next.grid, p, origin);
            }
        } else {
            assert(open_cell(st.grid, q)) by {
                assert(next.grid[q.1 as int].len() == st.grid[q.1 as int].len());
            }
            assert(st.legal(q));
            assert(next.holds(q, GridCell::Passage));
            lemma_connected_monotone(st.grid, next.grid, q, origin);
        }
    }
}

/// After a step every room that is a passage waits in the frontier or is
/// settled.
proof fn lemma_step_settled(st: GappedState, pick: int, choice: int)
    requires
        st.sound(),
        0 <= pick < st.frontier.len(),
        st.choice_fits(pick, choice),
    ensures
        ({
            let next = st.expanded(pick, choice);
            forall|r: Point|
                next.is_room(r) && #[trigger] next.holds(r, GridCell::Passage)
                    ==> next.frontier.contains(r) || next.settled(r)
        }),
{
    lemma_step_facts(st, pick, choice);
    let p = st.frontier[pick];
    let next = st.expanded(pick, choice);
    let rest = swap_removed(st.frontier, pick);
    let fresh = st.around(p, GridCell::Wall);
    assert(st.is_room(p));
    assert forall|q: Point| q != p && st.frontier.contains(q) implies next.frontier.contains(
        q,
    ) by {
        lemma_swap_removed_keeps(st.frontier, pick, q);
        let j = choose|j: int| 0 <= j < rest.len() && rest[j] == q;
        assert(next.frontier[j] == q);
    }
    assert forall|q: Point| st.reached(q) implies next.reached(q) by {
        if st.legal(q) && !st.holds(q, GridCell::Passage) {
            assert(st.frontier.contains(q));
        }
    }
    assert forall|q: Point| gapped_from(p, q) implies next.reached(q) by {
        if st.legal(q) && !st.holds(q, GridCell::Passage) {
            assert(st.holds(q, GridCell::Wall));
            lemma_around_has(st, p, GridCell::Wall, q);
            let j = choose|j: int| 0 <= j < fresh.len() && fresh[j] == q;
            assert(next.frontier[rest.len() + j] == q);
        }
    }
    assert forall|r: Point|
        next.is_room(r) && #[trigger] next.holds(
            r,
            GridCell::Passage,
        ) implies next.frontier.contains(r) || next.settled(r) by {
        if r == p {
            assert(gapped_from(p, west(p)) && gapped_from(p, east(p)) && gapped_from(p, north(p))
                && gapped_from(p, south(p)));
        } else {
            assert(st.holds(r, GridCell::Passage));
            if st.frontier.contains(r) {
                assert(next.frontier.contains(r));
            } else {
                assert(st.settled(r));
            }
        }
    }
}

/// A step keeps a sound state sound.
pub proof fn lemma_expanded_is_sound(st: GappedState, pick: int, choice: int)
    requires
        st.sound(),
        0 <= pick < st.frontier.len(),
        st.choice_fits(pick, choice),
    ensures
        st.expanded(pick, choice).sound(),
{
    lemma_step_facts(st, pick, choice);
    lemma_step_frontier(st, pick, choice);
    lemma_step_connected(st, pick, choice);
    lemma_step_settled(st, pick, choice);
}

/// The state a run starts from is sound.
pub proof fn lemma_seeded_is_sound(width: nat, height: nat)
    requires
        1 <= width <= i32::MAX,
        1 <= height <= i32::MAX,
    ensures
        GappedState::seeded(width, height).sound(),
{
    let st = GappedState::seeded(width, height);
    let origin = GappedState::origin();
    assert(st.frontier[0] == origin);
    assert forall|p: Point| #[trigger] open_cell(st.grid, p) implies st.legal(p) && (p.0 % 2 == 1
        || p.1 % 2 == 1) && connected(st.grid, p, origin) by {
        assert(p == origin);
        lemma_connected_to_itself(st.grid, p);
    }
}

/// Each step brings the run closer to its end: it opens a wall, or else it
/// opens none and takes a frontier entry away that was a passage already.
pub proof fn lemma_expanded_is_smaller(st: GappedState, pick: int, choice: int)
    requires
        st.sound(),
        0 <= pick < st.frontier.len(),
        st.choice_fits(pick, choice),
    ensures
        st.expanded(pick, choice).walls() < st.walls() || (st.expanded(pick, choice).walls()
            == st.walls() && st.expanded(pick, choice).stale() < st.stale()),
{
    lemma_step_facts(st, pick, choice);
    let p = st.frontier[pick];
    let next = st.expanded(pick, choice);
    let opened = with_cell(st.grid, p.0 as int, p.1 as int, GridCell::Passage);
    let linked = st.around(p, GridCell::Passage);
    let gap = midpoint(p, linked[choice]);
    assert(st.is_room(p));
    lemma_count_in_rows_update(st.grid, p.0 as int, p.1 as int, GridCell::Passage, GridCell::Wall);
    if linked.len() > 0 {
        lemma_count_in_rows_update(
            opened,
            gap.0 as int,
            gap.1 as int,
            GridCell::Passage,
            GridCell::Wall,
        );
    }
    if next.walls() >= st.walls() {
        assert(st.grid[p.1 as int][p.0 as int] == GridCell::Passage);
        assert(opened =~~= st.grid);
        if linked.len() > 0 {
            assert(opened[gap.1 as int][gap.0 as int] == GridCell::Passage);
            assert(next.grid =~~= st.grid);
        }
        assert(next.grid == st.grid);
        let rest = swap_removed(st.frontier, pick);
        let fresh = st.around(p, GridCell::Wall);
        let marks = st.frontier.map_values(|q: Point| st.holds(q, GridCell::Passage));
        let rest_marks = rest.map_values(|q: Point| st.holds(q, GridCell::Passage));
        let fresh_marks = fresh.map_values(|q: Point| st.holds(q, GridCell::Passage));
        let next_marks = next.frontier.map_values(|q: Point| next.holds(q, GridCell::Passage));
        assert(next_marks =~= rest_marks + fresh_marks);
        assert forall|i: int| 0 <= i < fresh_marks.len() implies fresh_marks[i] != true by {
            lemma_around_entry(st, p, GridCell::Wall, i);
        }
        lemma_count_in_row_none(fresh_marks, true);
        lemma_count_in_row_concat(rest_marks, fresh_marks, true);
        let moved = marks.update(pick, marks.last());
        assert(rest_marks =~= moved.drop_last());
        lemma_count_in_row_update(marks, pick, marks.last(), true);
        assert(moved.last() == marks.last());
        assert(marks[pick] == true);
    }
}

/// When the frontier has run empty, a room that is a passage has passages at
/// all the legal points two away from it.
proof fn lemma_open_room_spreads(st: GappedState, room: Point, next: Point)
    requires
        st.spread(),
        st.frontier.len() == 0,
        st.is_room(room),
        st.holds(room, GridCell::Passage),
        gapped_from(room, next),
        st.legal(next),
    ensures
        st.holds(next, GridCell::Passage),
{
    assert(!st.frontier.contains(room));
    assert(!st.frontier.contains(next));
    assert(st.settled(room));
    assert(st.reached(next));
}

/// A room that is not in the first column has a room two to its left, and
/// one that is not in the first row has a room two above it.
proof fn lemma_room_before(st: GappedState, room: Point)
    requires
        st.is_room(room),
    ensures
        room.0 > 1 ==> st.is_room(Point((room.0 - 2) as usize, room.1)) && east(
            Point((room.0 - 2) as usize, room.1),
        ) == room,
        room.1 > 1 ==> st.is_room(Point(room.0, (room.1 - 2) as usize)) && south(
            Point(room.0, (room.1 - 2) as usize),
        ) == room,
        room.0 <= 1 && room.1 <= 1 ==> room == GappedState::origin(),
{
}

/// When the frontier has run empty, the passages have spread from the origin
/// to every room.
proof fn lemma_spread_reaches(st: GappedState, room: Point)
    requires
        st.spread(),
        st.holds(GappedState::origin(), GridCell::Passage),
        st.frontier.len() == 0,
        st.is_room(room),
    ensures
        st.holds(room, GridCell::Passage),
    decreases room.0 + room.1,
{
    lemma_room_before(st, room);
    if room.0 > 1 {
        let before = Point((room.0 - 2) as usize, room.1);
        lemma_spread_reaches(st, before);
        lemma_open_room_spreads(st, before, room);
    } else if room.1 > 1 {
        let before = Point(room.0, (room.1 - 2) as usize);
        lemma_spread_reaches(st, before);
        lemma_open_room_spreads(st, before, room);
    }
}

/// When the frontier has run empty, every room is a passage.
pub proof fn lemma_every_room_is_open(st: GappedState, room: Point)
    requires
        st.sound(),
        st.frontier.len() == 0,
        st.is_room(room),
    ensures
        st.holds(room, GridCell::Passage),
{
    lemma_spread_reaches(st, room);
}

/// In a sound state any two passages are connected.
pub proof fn lemma_passages_are_connected(st: GappedState, a: Point, b: Point)
    requires
        st.sound(),
        open_cell(st.grid, a),
        open_cell(st.grid, b),
    ensures
        connected(st.grid, a, b),
{
    let origin = GappedState::origin();
    lemma_connected_symmetric(st.grid, b, origin);
    lemma_connected_transitive(st.grid, a, origin, b);
}

/// The maze of a sound state has walls all along its border and at every
/// point with two even coordinates, and any two of its passages are
/// connected.
pub proof fn lemma_maze_of_sound_state(st: GappedState)
    requires
        st.sound(),
    ensures
        rectangular(tiles_of(st.grid), st.real_width(), st.real_height()),
        forall|x: int, y: int|
            0 <= x < st.real_width() && 0 <= y < st.real_height() ==> {
                let tile = #[trigger] tiles_of(st.grid)[y][x];
                &&& tile == Tile::Wall || tile == Tile::Passage
                &&& x == 0 || y == 0 || x == st.real_width() - 1 || y == st.real_height() - 1
                    ==> tile == Tile::Wall
                &&& x % 2 == 0 && y % 2 == 0 ==> tile == Tile::Wall
            },
        forall|a: Point, b: Point|
            open_cell(tiles_of(st.grid), a) && open_cell(tiles_of(st.grid), b) ==> #[trigger] connected(
                tiles_of(st.grid),
                a,
                b,
            ),
{
    let maze = tiles_of(st.grid);
    assert forall|x: int, y: int| 0 <= x < st.real_width() && 0 <= y < st.real_height() implies {
        let tile = #[trigger] tiles_of(st.grid)[y][x];
        &&& tile == Tile::Wall || tile == Tile::Passage
        &&& x == 0 || y == 0 || x == st.real_width() - 1 || y == st.real_height() - 1 ==> tile
            == Tile::Wall
        &&& x % 2 == 0 && y % 2 == 0 ==> tile == Tile::Wall
    } by {
        let p = Point(x as usize, y as usize);
        assert(st.grid[y].len() == st.real_width());
        if st.grid[y][x] == GridCell::Passage {
            assert(open_cell(st.grid, p));
        }
    }
    assert(opens_kept(st.grid, maze)) by {
        assert forall|p: Point| open_cell(st.grid, p) implies open_cell(maze, p) by {}
    }
    assert forall|a: Point, b: Point| open_cell(maze, a) && open_cell(maze, b) implies #[trigger] connected(
        maze,
        a,
        b,
    ) by {
        assert(open_cell(st.grid, a));
        assert(open_cell(st.grid, b));
        lemma_passages_are_connected(st, a, b);
        lemma_connected_monotone(st.grid, maze, a, b);
    }
}

/// In the maze of a finished run every room is a passage, and any room can be
/// reached from any other: whichever rooms are made the start and the finish
/// of the maze, the finish is a passage that the start is connected to.
pub proof fn lemma_rooms_are_joined(st: GappedState, start: Point, finish: Point)
    requires
        st.sound(),
        st.frontier.len() == 0,
        st.is_room(start),
        st.is_room(finish),
    ensures
        tiles_of(st.grid)[finish.1 as int][finish.0 as int] == Tile::Passage,
        connected(tiles_of(st.grid), start, finish),
{
    lemma_every_room_is_open(st, start);
    lemma_every_room_is_open(st, finish);
    lemma_maze_of_sound_state(st);
    assert(st.grid[start.1 as int].len() == st.real_width());
    assert(st.grid[finish.1 as int].len() == st.real_width());
    assert(open_cell(tiles_of(st.grid), start));
    assert(open_cell(tiles_of(st.grid), finish));
}

/// A run is fixed by its steps: two runs for the same options that make the
/// same picks and choices, one after the other, end in the same state and so
/// in the same maze.
pub proof fn lemma_same_steps_same_maze(
    width: nat,
    height: nat,
    first: Seq<(int, int)>,
    second: Seq<(int, int)>,
)
    requires
        first.len() == second.len(),
        forall|i: int| 0 <= i < first.len() ==> first[i] == second[i],
    ensures
        grown_by(width, height, first) == grown_by(width, height, second),
        tiles_of(grown_by(width, height, first).grid) == tiles_of(
            grown_by(width, height, second).grid,
        ),
{
    assert(first =~= second);
}

/// Every state that fitting steps lead to is sound.
pub proof fn lemma_run_is_sound(width: nat, height: nat, steps: Seq<(int, int)>)
    requires
        1 <= width <= i32::MAX,
        1 <= height <= i32::MAX,
        steps_fit(width, height, steps),
    ensures
        grown_by(width, height, steps).sound(),
        grown_by(width, height, steps).width == width,
        grown_by(width, height, steps).height == height,
    decreases steps.len(),
{
    if steps.len() == 0 {
        lemma_seeded_is_sound(width, height);
    } else {
        lemma_run_is_sound(width, height, steps.drop_last());
        lemma_expanded_is_sound(
            grown_by(width, height, steps.drop_last()),
            steps.last().0,
            steps.last().1,
        );
    }
}

} // verus!
