//! Walks through the open cells of a grid, and what it means for two cells
//! to be connected.

use vstd::prelude::*;
use crate::Point;
use crate::execution::TileType;

verus! {

/// Two points are adjacent when they differ by one step along one axis.
pub open spec fn adjacent(a: Point, b: Point) -> bool {
    ||| a.0 == b.0 && (a.1 + 1 == b.1 || b.1 + 1 == a.1)
    ||| a.1 == b.1 && (a.0 + 1 == b.0 || b.0 + 1 == a.0)
}

/// Whether `p` addresses a cell of `rows` whose tile does not block.
pub open spec fn open_cell<T: TileType>(rows: Seq<Seq<T>>, p: Point) -> bool {
    &&& p.1 < rows.len()
    &&& p.0 < rows[p.1 as int].len()
    &&& !rows[p.1 as int][p.0 as int].blocks()
}

/// A walk is a sequence of open cells in which each cell is adjacent to the
/// next.
pub open spec fn is_walk<T: TileType>(rows: Seq<Seq<T>>, walk: Seq<Point>) -> bool {
    &&& forall|i: int| 0 <= i < walk.len() ==> open_cell(rows, #[trigger] walk[i])
    &&& forall|i: int| 0 <= i < walk.len() - 1 ==> adjacent(#[trigger] walk[i], walk[i + 1])
}

/// Whether `walk` is a walk that starts at `a` and ends at `b`.
pub open spec fn walk_between<T: TileType>(
    rows: Seq<Seq<T>>,
    walk: Seq<Point>,
    a: Point,
    b: Point,
) -> bool {
    &&& walk.len() > 0
    &&& walk[0] == a
    &&& walk[walk.len() - 1] == b
    &&& is_walk(rows, walk)
}

/// `b` can be reached from `a` by single steps over open cells only.
pub open spec fn connected<T: TileType>(rows: Seq<Seq<T>>, a: Point, b: Point) -> bool {
    exists|walk: Seq<Point>| walk_between(rows, walk, a, b)
}

/// Every open cell of `before` is also open in `after`.
pub open spec fn opens_kept<T: TileType, U: TileType>(before: Seq<Seq<T>>, after: Seq<Seq<U>>) -> bool {
    forall|p: Point| open_cell(before, p) ==> open_cell(after, p)
}

/// An open cell is connected to itself.
pub proof fn lemma_connected_to_itself<T: TileType>(rows: Seq<Seq<T>>, a: Point)
    requires
        open_cell(rows, a),
    ensures
        connected(rows, a, a),
{
    let walk = seq![a];
    assert(walk_between(rows, walk, a, a));
}

/// Both ends of a walk are open cells.
pub proof fn lemma_connected_ends_are_open<T: TileType>(rows: Seq<Seq<T>>, a: Point, b: Point)
    requires
        connected(rows, a, b),
    ensures
        open_cell(rows, a),
        open_cell(rows, b),
{
    let walk = choose|walk: Seq<Point>| walk_between(rows, walk, a, b);
    assert(open_cell(rows, walk[0]));
    assert(open_cell(rows, walk[walk.len() - 1]));
}

/// A walk to another cell begins with a step to an open neighbour that the
/// rest of the walk starts from.
pub proof fn lemma_connected_first_step<T: TileType>(rows: Seq<Seq<T>>, a: Point, b: Point)
    requires
        connected(rows, a, b),
        a != b,
    ensures
        exists|c: Point| adjacent(a, c) && #[trigger] connected(rows, c, b),
{
    let walk = choose|walk: Seq<Point>| walk_between(rows, walk, a, b);
    let rest = walk.drop_first();
    assert(adjacent(walk[0], walk[0int + 1]));
    assert forall|i: int| 0 <= i < rest.len() implies open_cell(rows, #[trigger] rest[i]) by {
        assert(rest[i] == walk[i + 1]);
    }
    assert forall|i: int| 0 <= i < rest.len() - 1 implies adjacent(
        #[trigger] rest[i],
        rest[i + 1],
    ) by {
        assert(rest[i] == walk[i + 1]);
        assert(rest[i + 1] == walk[i + 1 + 1]);
        assert(adjacent(walk[i + 1], walk[i + 1 + 1]));
    }
    assert(rest[rest.len() - 1] == walk[walk.len() - 1]);
    assert(walk_between(rows, rest, walk[1], b));
    assert(connected(rows, walk[1], b));
}

/// A walk can be entered one step earlier: an open cell next to `a` reaches
/// whatever `a` reaches.
pub proof fn lemma_connected_by_step<T: TileType>(rows: Seq<Seq<T>>, c: Point, a: Point, b: Point)
    requires
        open_cell(rows, c),
        adjacent(c, a),
        connected(rows, a, b),
    ensures
        connected(rows, c, b),
{
    let tail = choose|walk: Seq<Point>| walk_between(rows, walk, a, b);
    let walk = seq![c] + tail;
    assert forall|i: int| 0 <= i < walk.len() implies open_cell(rows, #[trigger] walk[i]) by {
        if i > 0 {
            assert(walk[i] == tail[i - 1]);
        }
    }
    assert forall|i: int| 0 <= i < walk.len() - 1 implies adjacent(
        #[trigger] walk[i],
        walk[i + 1],
    ) by {
        assert(walk[i + 1] == tail[i]);
        if i > 0 {
            assert(walk[i] == tail[i - 1]);
        }
    }
    assert(walk[walk.len() - 1] == tail[tail.len() - 1]);
    assert(walk_between(rows, walk, c, b));
}

/// Walking is symmetric: a walk read backwards is a walk.
pub proof fn lemma_connected_symmetric<T: TileType>(rows: Seq<Seq<T>>, a: Point, b: Point)
    requires
        connected(rows, a, b),
    ensures
        connected(rows, b, a),
{
    let walk = choose|walk: Seq<Point>| walk_between(rows, walk, a, b);
    let back = Seq::new(walk.len(), |i: int| walk[walk.len() - 1 - i]);
    assert forall|i: int| 0 <= i < back.len() - 1 implies adjacent(
        #[trigger] back[i],
        back[i + 1],
    ) by {
        assert(adjacent(walk[walk.len() - 2 - i], walk[walk.len() - 2 - i + 1]));
    }
    assert(walk_between(rows, back, b, a));
}

/// Walks compose: if `a` reaches `b` and `b` reaches `c`, then `a` reaches `c`.
pub proof fn lemma_connected_transitive<T: TileType>(rows: Seq<Seq<T>>, a: Point, b: Point, c: Point)
    requires
        connected(rows, a, b),
        connected(rows, b, c),
    ensures
        connected(rows, a, c),
{
    let first = choose|walk: Seq<Point>| walk_between(rows, walk, a, b);
    let second = choose|walk: Seq<Point>| walk_between(rows, walk, b, c);
    let walk = first.drop_last() + second;
    let n = first.len() - 1;
    assert forall|i: int| 0 <= i < walk.len() implies open_cell(rows, #[trigger] walk[i]) by {
        if i < n {
            assert(walk[i] == first[i]);
        } else {
            assert(walk[i] == second[i - n]);
        }
    }
    assert forall|i: int| 0 <= i < walk.len() - 1 implies adjacent(
        #[trigger] walk[i],
        walk[i + 1],
    ) by {
        if i + 1 < n {
            assert(walk[i] == first[i]);
            assert(walk[i + 1] == first[i + 1]);
        } else if i < n {
            assert(walk[i] == first[i]);
            assert(walk[i + 1] == second[0]);
            assert(second[0] == first[i + 1]);
        } else {
            assert(walk[i] == second[i - n]);
            assert(walk[i + 1] == second[i - n + 1]);
        }
    }
    assert(walk[0] == a) by {
        if n > 0 {
            assert(walk[0] == first[0]);
        } else {
            assert(walk[0] == second[0]);
        }
    }
    assert(walk[walk.len() - 1] == second[second.len() - 1]);
    assert(walk_between(rows, walk, a, c));
}

/// Opening more cells breaks no walk.
pub proof fn lemma_connected_monotone<T: TileType, U: TileType>(
    before: Seq<Seq<T>>,
    after: Seq<Seq<U>>,
    a: Point,
    b: Point,
)
    requires
        opens_kept(before, after),
        connected(before, a, b),
    ensures
        connected(after, a, b),
{
    let walk = choose|walk: Seq<Point>| walk_between(before, walk, a, b);
    assert forall|i: int| 0 <= i < walk.len() implies open_cell(after, #[trigger] walk[i]) by {
        assert(open_cell(before, walk[i]));
    }
    assert(walk_between(after, walk, a, b));
}

} // verus!
