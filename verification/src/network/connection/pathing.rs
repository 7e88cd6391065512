//! Auto-walk: finding a path to a clicked tile with a breadth-first search.

use vstd::prelude::*;
use super::{Connection, ConnView};
use super::containers::sorry_packet;
use super::look::{screen_to_map, screen_to_map_pos};
use super::receive::PacketError;
use crate::io::{PacketReader, ReadExt, ReadError};
use crate::map::{GameMap, MapView, TileObject, object_id};
use crate::map::items::{blocks_movement, is_walkable};
use crate::map::position::{Position, direction_delta, spec_step};
use crate::player::{Direction, PlayerView};

verus! {

/// Whether an auto-walk may pass through `p`: no visible player stands there, and the
/// tile is on the map and holds nothing that blocks movement.
pub open spec fn passable(others: Seq<PlayerView>, map: MapView, p: Position) -> bool {
    &&& forall|i: int| 0 <= i < others.len() ==> #[trigger] others[i].position != p
    &&& map.visible_tile(p) is Some
    &&& forall|j: int| 0 <= j < map.visible_tile(p)->0.len() ==> !blocks_movement(object_id(#[trigger] map.visible_tile(p)->0[j]))
}

/// Whether a step in direction `d` from `p` keeps both coordinates non-negative.
pub open spec fn step_in_range(p: Position, d: Direction) -> bool {
    p.x + direction_delta(d).0 >= 0 && p.y + direction_delta(d).1 >= 0
}

/// Whether `path` leads from `from` to `dest`, each step keeping the coordinates
/// non-negative and every position before the last passable.
pub open spec fn valid_path(others: Seq<PlayerView>, map: MapView, from: Position, path: Seq<Direction>, dest: Position) -> bool
    decreases path.len(),
{
    if path.len() == 0 {
        from == dest
    } else {
        let next = spec_step(from, path[0]);
        &&& step_in_range(from, path[0])
        &&& (path.len() > 1 ==> passable(others, map, next))
        &&& valid_path(others, map, next, path.drop_first(), dest)
    }
}

/// Whether a clicked screen tile lies in the area an auto-walk accepts (x 2 to 14, y 2 to 10).
pub open spec fn in_click_area(screen: Position) -> bool {
    2 <= screen.x <= 14 && 2 <= screen.y <= 10
}

/// The order in which the search tries the neighbours of a tile: North, East, South, West.
pub open spec fn search_dir(k: int) -> Direction {
    if k == 0 {
        Direction::North
    } else if k == 1 {
        Direction::East
    } else if k == 2 {
        Direction::South
    } else {
        Direction::West
    }
}

/// A breadth-first search in progress: its nodes in the order they were added, and for
/// each node the index of the node it was reached from and the direction of that step
/// (the start node has parent 0 and direction South).
pub struct SearchTree {
    pub nodes: Seq<Position>,
    pub parents: Seq<usize>,
    pub dirs: Seq<Direction>,
}

/// The search after trying the neighbour of node `cur` in direction `d`: it is added,
/// reached from `cur`, when the step is open (see [`open_step`]) and the tile is not a
/// node yet.
pub open spec fn add_neighbor(
    others: Seq<PlayerView>,
    map: MapView,
    dest: Position,
    t: SearchTree,
    cur: int,
    d: Direction,
) -> SearchTree {
    let q = spec_step(t.nodes[cur], d);
    if open_step(others, map, dest, t.nodes[cur], d) && !t.nodes.contains(q) {
        SearchTree { nodes: t.nodes.push(q), parents: t.parents.push(cur as usize), dirs: t.dirs.push(d) }
    } else {
        t
    }
}

/// The search after trying the first `k` neighbours of node `cur` in the search order,
/// stopping as soon as the nodes number more than 400.
pub open spec fn expand_node(
    others: Seq<PlayerView>,
    map: MapView,
    dest: Position,
    t: SearchTree,
    cur: int,
    k: int,
) -> SearchTree
    decreases k,
{
    if k <= 0 {
        t
    } else {
        let prev = expand_node(others, map, dest, t, cur, k - 1);
        if prev.nodes.len() > 400 {
            prev
        } else {
            add_neighbor(others, map, dest, prev, cur, search_dir(k - 1))
        }
    }
}

/// The breadth-first search from node `head` of `t` on: each node in turn, until the
/// destination comes up or the nodes run out, has its neighbours added; the search
/// stops once the nodes number more than 400.
pub open spec fn search_run(
    others: Seq<PlayerView>,
    map: MapView,
    dest: Position,
    t: SearchTree,
    head: int,
) -> SearchTree
    decreases 400 - head,
{
    if head < 0 || head >= t.nodes.len() || t.nodes.len() > 400 || t.nodes[head] == dest {
        t
    } else {
        search_run(others, map, dest, expand_node(others, map, dest, t, head, 4), head + 1)
    }
}

/// The whole auto-walk search from `start` towards `dest`.
pub open spec fn searched_tree(others: Seq<PlayerView>, map: MapView, dest: Position, start: Position) -> SearchTree {
    search_run(others, map, dest, SearchTree { nodes: seq![start], parents: seq![0usize], dirs: seq![Direction::South] }, 0)
}

/// The tiles the auto-walk search from `start` towards `dest` adds before it stops.
pub open spec fn searched_tiles(others: Seq<PlayerView>, map: MapView, dest: Position, start: Position) -> Seq<Position> {
    searched_tree(others, map, dest, start).nodes
}

/// The directions from the start node to node `k` of a search, following the parents.
pub open spec fn tree_path(parents: Seq<usize>, dirs: Seq<Direction>, k: int) -> Seq<Direction>
    decreases k,
{
    if k <= 0 || k >= parents.len() || parents[k] >= k {
        Seq::empty()
    } else {
        tree_path(parents, dirs, parents[k] as int).push(dirs[k])
    }
}

/// The path the auto-walk search from `start` finds to `dest`: the steps to the node
/// holding `dest`, if the search added it, else none.
pub open spec fn searched_path(others: Seq<PlayerView>, map: MapView, dest: Position, start: Position) -> Seq<Direction> {
    let t = searched_tree(others, map, dest, start);
    if t.nodes.contains(dest) {
        tree_path(t.parents, t.dirs, choose|i: int| 0 <= i < t.nodes.len() && t.nodes[i] == dest)
    } else {
        Seq::empty()
    }
}

/// What an auto-walk request for the screen tile `screen` leaves: nothing changes for a
/// click outside the accepted area; otherwise the new path is a shortest one through
/// passable tiles to the clicked tile, found exactly when the clicked tile is not the
/// player's own and is among the tiles the search adds before it stops (see
/// [`searched_tiles`]), and always when a valid path exists and the search can reach at
/// most 400 tiles; it is the path along the search's parent links (see
/// [`searched_path`]). An empty path is refused in the status bar.
pub open spec fn auto_walk_outcome(c: ConnView, map: MapView, screen: Position, c2: ConnView) -> bool {
    let dest = screen_to_map(c.player.position, screen);
    let path = c2.path;
    if !in_click_area(screen) {
        c2 == c
    } else {
        &&& c2 == (ConnView {
            path,
            queued: if path.len() == 0 { c.queued.push(sorry_packet(c.ids)) } else { c.queued },
            ..c
        })
        &&& path.len() > 0 ==> valid_path(c.others, map, c.player.position, path, dest)
        &&& path.len() > 0 ==> no_shorter_path(c.others, map, c.player.position, dest, path.len() as int)
        &&& dest == c.player.position ==> path.len() == 0
        &&& path.len() > 0 <==> dest != c.player.position && searched_tiles(c.others, map, dest, c.player.position).contains(dest)
        &&& path == searched_path(c.others, map, dest, c.player.position)
        &&& (exists|p: Seq<Direction>| #[trigger] valid_path(c.others, map, c.player.position, p, dest))
            && dest != c.player.position
            && search_area(c.others, map, dest, c.player.position).finite()
            && search_area(c.others, map, dest, c.player.position).len() <= 400 ==> path.len() > 0
    }
}

/// Node `k` of the search hangs off an earlier node: one in-range step in direction
/// `d` from its parent, and it is the destination or passable.
pub open spec fn tree_edge(
    others: Seq<PlayerView>,
    map: MapView,
    dest: Position,
    nodes: Seq<Position>,
    parents: Seq<usize>,
    d: Direction,
    k: int,
) -> bool {
    &&& parents[k] < k
    &&& step_in_range(nodes[parents[k] as int], d)
    &&& nodes[k] == spec_step(nodes[parents[k] as int], d)
    &&& (nodes[k] == dest || passable(others, map, nodes[k]))
}

/// A step in range onto a tile that is passable (or the destination, when it is the
/// last step) extends a valid path backwards.
proof fn lemma_prepend_step(
    others: Seq<PlayerView>,
    map: MapView,
    from: Position,
    d: Direction,
    path: Seq<Direction>,
    dest: Position,
)
    requires
        step_in_range(from, d),
        path.len() > 0 ==> passable(others, map, spec_step(from, d)),
        valid_path(others, map, spec_step(from, d), path, dest),
    ensures
        valid_path(others, map, from, seq![d] + path, dest),
{
    let p2 = seq![d] + path;
    assert(p2[0] == d);
    assert(p2.drop_first() =~= path);
}

/// The search tree of the breadth-first search: node 0 is the start, every other node
/// is one in-range step from an earlier node and is the destination or passable, and no
/// position occurs twice.
pub open spec fn search_tree(
    others: Seq<PlayerView>,
    map: MapView,
    start: Position,
    dest: Position,
    nodes: Seq<Position>,
    parents: Seq<usize>,
    dirs: Seq<Direction>,
) -> bool {
    &&& nodes.len() >= 1
    &&& parents.len() == nodes.len()
    &&& dirs.len() == nodes.len()
    &&& nodes[0] == start
    &&& forall|k: int| 1 <= k < nodes.len() ==> {
        &&& #[trigger] parents[k] < k
        &&& step_in_range(nodes[parents[k] as int], dirs[k])
        &&& nodes[k] == spec_step(nodes[parents[k] as int], dirs[k])
        &&& (nodes[k] == dest || passable(others, map, nodes[k]))
    }
    &&& forall|a: int, b: int| 0 <= a < b < nodes.len() ==> nodes[a] != nodes[b]
}

/// Whether the search may step from `p` in direction `d`: the step keeps the
/// coordinates non-negative and leads to the destination or a passable tile.
pub open spec fn open_step(others: Seq<PlayerView>, map: MapView, dest: Position, p: Position, d: Direction) -> bool {
    step_in_range(p, d) && (spec_step(p, d) == dest || passable(others, map, spec_step(p, d)))
}

/// Whether `q` is a search node at depth at most `bound`.
pub open spec fn found_within(nodes: Seq<Position>, depth: Seq<int>, q: Position, bound: int) -> bool {
    exists|j: int| 0 <= j < nodes.len() && nodes[j] == q && depth[j] <= bound
}

/// Whether every open step from node `k` leads to a node at most one level deeper.
pub open spec fn expanded_node(
    others: Seq<PlayerView>,
    map: MapView,
    dest: Position,
    nodes: Seq<Position>,
    depth: Seq<int>,
    k: int,
) -> bool {
    forall|d: Direction| #[trigger] open_step(others, map, dest, nodes[k], d) ==> found_within(
        nodes,
        depth,
        spec_step(nodes[k], d),
        depth[k] + 1,
    )
}

/// The levels of the breadth-first search: node depths follow the parents and never
/// decrease along the node list; the first `exp` nodes are expanded (or are the
/// destination, which is never expanded); every parent is among them.
#[verifier::opaque]
pub open spec fn search_levels(
    others: Seq<PlayerView>,
    map: MapView,
    dest: Position,
    nodes: Seq<Position>,
    parents: Seq<usize>,
    depth: Seq<int>,
    exp: int,
) -> bool {
    &&& depth.len() == nodes.len()
    &&& parents.len() == nodes.len()
    &&& nodes.len() >= 1
    &&& depth[0] == 0
    &&& forall|k: int| 1 <= k < nodes.len() ==> #[trigger] depth[k] == depth[parents[k] as int] + 1
    &&& forall|i: int, j: int| 0 <= i <= j < nodes.len() ==> depth[i] <= depth[j]
    &&& 0 <= exp <= nodes.len()
    &&& forall|k: int| 0 <= k < exp ==> nodes[k] == dest || expanded_node(others, map, dest, nodes, depth, k)
    &&& forall|k: int| 1 <= k < nodes.len() ==> #[trigger] parents[k] <= exp
}

/// The position reached from `from` after the first `i` steps of `path`.
pub open spec fn walk_pos(from: Position, path: Seq<Direction>, i: int) -> Position
    decreases i,
{
    if i <= 0 || path.len() == 0 {
        from
    } else {
        walk_pos(spec_step(from, path[0]), path.drop_first(), i - 1)
    }
}

/// Whether no valid path from `from` to `dest` is shorter than `n` steps.
pub open spec fn no_shorter_path(others: Seq<PlayerView>, map: MapView, from: Position, dest: Position, n: int) -> bool {
    forall|p: Seq<Direction>| #[trigger] valid_path(others, map, from, p, dest) ==> p.len() >= n
}

/// The search starts with the start node alone, at depth 0, nothing expanded.
proof fn lemma_levels_start(others: Seq<PlayerView>, map: MapView, dest: Position, start: Position)
    ensures
        search_levels(others, map, dest, seq![start], seq![0usize], seq![0int], 0),
{
    reveal(search_levels);
}

/// Facts of the levels: depths follow parents, never decrease, and parents are expanded.
proof fn lemma_levels_facts(
    others: Seq<PlayerView>,
    map: MapView,
    dest: Position,
    nodes: Seq<Position>,
    parents: Seq<usize>,
    depth: Seq<int>,
    exp: int,
)
    requires
        search_levels(others, map, dest, nodes, parents, depth, exp),
    ensures
        depth.len() == nodes.len(),
        parents.len() == nodes.len(),
        nodes.len() >= 1,
        depth[0] == 0,
        0 <= exp <= nodes.len(),
        forall|k: int| 1 <= k < nodes.len() ==> #[trigger] depth[k] == depth[parents[k] as int] + 1,
        forall|i: int, j: int| 0 <= i <= j < nodes.len() ==> depth[i] <= depth[j],
        forall|k: int| 0 <= k < exp ==> nodes[k] == dest || expanded_node(others, map, dest, nodes, depth, k),
        forall|k: int| 1 <= k < nodes.len() ==> #[trigger] parents[k] <= exp,
{
    reveal(search_levels);
}

/// Adding the next neighbour of node `cur` (being expanded) keeps the levels.
proof fn lemma_levels_grow(
    others: Seq<PlayerView>,
    map: MapView,
    dest: Position,
    nodes: Seq<Position>,
    parents: Seq<usize>,
    depth: Seq<int>,
    cur: int,
    x: Position,
)
    requires
        search_levels(others, map, dest, nodes, parents, depth, cur),
        0 <= cur < nodes.len(),
        cur <= usize::MAX,
        forall|j: int| 0 <= j < nodes.len() ==> depth[j] <= depth[cur] + 1,
    ensures
        search_levels(others, map, dest, nodes.push(x), parents.push(cur as usize), depth.push(depth[cur] + 1), cur),
        forall|j: int| 0 <= j < nodes.len() + 1 ==> #[trigger] depth.push(depth[cur] + 1)[j] <= depth[cur] + 1,
{
    reveal(search_levels);
    let n1 = nodes.push(x);
    let p1 = parents.push(cur as usize);
    let d1 = depth.push(depth[cur] + 1);
    assert forall|k: int| 0 <= k < cur implies n1[k] == dest || expanded_node(others, map, dest, n1, d1, k) by {
        assert(n1[k] == nodes[k]);
        if nodes[k] != dest {
            lemma_expanded_grows(others, map, dest, nodes, depth, k, x, depth[cur] + 1);
        }
    }
    assert forall|k: int| 1 <= k < n1.len() implies #[trigger] d1[k] == d1[p1[k] as int] + 1 by {
        if k < nodes.len() {
            assert(p1[k] == parents[k]);
            assert(d1[k] == depth[k]);
            assert(parents[k] <= cur);
            assert(d1[parents[k] as int] == depth[parents[k] as int]);
        } else {
            assert(p1[k] == cur);
            assert(d1[cur] == depth[cur]);
        }
    }
    assert forall|k: int| 1 <= k < n1.len() implies #[trigger] p1[k] <= cur by {
        if k < nodes.len() {
            assert(p1[k] == parents[k]);
        }
    }
}

/// Marking node `cur` expanded (or, being the destination, done) keeps the levels.
proof fn lemma_levels_expand(
    others: Seq<PlayerView>,
    map: MapView,
    dest: Position,
    nodes: Seq<Position>,
    parents: Seq<usize>,
    depth: Seq<int>,
    cur: int,
)
    requires
        search_levels(others, map, dest, nodes, parents, depth, cur),
        0 <= cur < nodes.len(),
        nodes[cur] == dest || expanded_node(others, map, dest, nodes, depth, cur),
    ensures
        search_levels(others, map, dest, nodes, parents, depth, cur + 1),
{
    reveal(search_levels);
}

/// Whether `path` leads from `from` to `to` by open steps (see [`open_step`]) that never
/// go on from the destination.
pub open spec fn open_walk(
    others: Seq<PlayerView>,
    map: MapView,
    dest: Position,
    from: Position,
    path: Seq<Direction>,
    to: Position,
) -> bool
    decreases path.len(),
{
    if path.len() == 0 {
        from == to
    } else {
        &&& from != dest
        &&& open_step(others, map, dest, from, path[0])
        &&& open_walk(others, map, dest, spec_step(from, path[0]), path.drop_first(), to)
    }
}

/// The tiles a search from `start` towards `dest` can reach: those at the end of open
/// steps that never go on from the destination.
pub open spec fn search_area(others: Seq<PlayerView>, map: MapView, dest: Position, start: Position) -> Set<Position> {
    Set::new(|q: Position| exists|p: Seq<Direction>| #[trigger] open_walk(others, map, dest, start, p, q))
}

/// Every search node lies in the search area.
#[verifier::opaque]
pub open spec fn nodes_in_area(
    others: Seq<PlayerView>,
    map: MapView,
    dest: Position,
    start: Position,
    nodes: Seq<Position>,
) -> bool {
    forall|k: int| 0 <= k < nodes.len() ==> #[trigger] search_area(others, map, dest, start).contains(nodes[k])
}

/// One more open step extends an open walk.
proof fn lemma_open_walk_extend(
    others: Seq<PlayerView>,
    map: MapView,
    dest: Position,
    from: Position,
    p: Seq<Direction>,
    q: Position,
    d: Direction,
)
    requires
        open_walk(others, map, dest, from, p, q),
        q != dest,
        open_step(others, map, dest, q, d),
    ensures
        open_walk(others, map, dest, from, p.push(d), spec_step(q, d)),
    decreases p.len(),
{
    let p2 = p.push(d);
    let x = spec_step(q, d);
    if p.len() == 0 {
        assert(from == q);
        assert(p2[0] == d);
        assert(p2.drop_first() =~= Seq::<Direction>::empty());
        assert(open_walk(others, map, dest, spec_step(from, d), p2.drop_first(), x));
    } else {
        lemma_open_walk_extend(others, map, dest, spec_step(from, p[0]), p.drop_first(), q, d);
        assert(p2[0] == p[0]);
        assert(p2.drop_first() =~= p.drop_first().push(d));
        assert(open_walk(others, map, dest, spec_step(from, p2[0]), p2.drop_first(), x));
    }
}

/// The search starts inside its area.
proof fn lemma_area_start(others: Seq<PlayerView>, map: MapView, dest: Position, start: Position)
    ensures
        nodes_in_area(others, map, dest, start, seq![start]),
{
    reveal(nodes_in_area);
    assert(open_walk(others, map, dest, start, Seq::<Direction>::empty(), start));
    assert(search_area(others, map, dest, start).contains(start));
}

/// A node added by an open step from a node other than the destination is in the area.
proof fn lemma_area_grow(
    others: Seq<PlayerView>,
    map: MapView,
    dest: Position,
    start: Position,
    nodes: Seq<Position>,
    cur: int,
    d: Direction,
)
    requires
        nodes_in_area(others, map, dest, start, nodes),
        0 <= cur < nodes.len(),
        nodes[cur] != dest,
        open_step(others, map, dest, nodes[cur], d),
    ensures
        nodes_in_area(others, map, dest, start, nodes.push(spec_step(nodes[cur], d))),
{
    reveal(nodes_in_area);
    let area = search_area(others, map, dest, start);
    let x = spec_step(nodes[cur], d);
    assert(area.contains(nodes[cur]));
    let p = choose|p: Seq<Direction>| #[trigger] open_walk(others, map, dest, start, p, nodes[cur]);
    lemma_open_walk_extend(others, map, dest, start, p, nodes[cur], d);
    assert(area.contains(x));
    let n1 = nodes.push(x);
    assert forall|k: int| 0 <= k < n1.len() implies #[trigger] area.contains(n1[k]) by {
        if k < nodes.len() {
            assert(n1[k] == nodes[k]);
        }
    }
}

/// Distinct nodes inside an area of at most 400 tiles number at most 400.
proof fn lemma_area_bound(
    others: Seq<PlayerView>,
    map: MapView,
    dest: Position,
    start: Position,
    nodes: Seq<Position>,
)
    requires
        nodes_in_area(others, map, dest, start, nodes),
        forall|a: int, b: int| 0 <= a < b < nodes.len() ==> nodes[a] != nodes[b],
        search_area(others, map, dest, start).finite(),
        search_area(others, map, dest, start).len() <= 400,
    ensures
        nodes.len() <= 400,
{
    reveal(nodes_in_area);
    let area = search_area(others, map, dest, start);
    assert(nodes.no_duplicates()) by {
        assert forall|i: int, j: int| 0 <= i < nodes.len() && 0 <= j < nodes.len() && i != j implies nodes[i] != nodes[j] by {
            if i < j {
                assert(nodes[i] != nodes[j]);
            } else {
                assert(nodes[j] != nodes[i]);
            }
        }
    }
    nodes.unique_seq_to_set();
    assert(nodes.to_set().subset_of(area)) by {
        assert forall|q: Position| nodes.to_set().contains(q) implies area.contains(q) by {
            let k = choose|k: int| 0 <= k < nodes.len() && nodes[k] == q;
            assert(area.contains(nodes[k]));
        }
    }
    vstd::set_lib::lemma_len_subset(nodes.to_set(), area);
}

/// Positions along a valid path are nodes of a search whose nodes are all expanded.
proof fn lemma_closed_walk(
    others: Seq<PlayerView>,
    map: MapView,
    start: Position,
    dest: Position,
    nodes: Seq<Position>,
    parents: Seq<usize>,
    depth: Seq<int>,
    path: Seq<Direction>,
    i: int,
)
    requires
        search_levels(others, map, dest, nodes, parents, depth, nodes.len() as int),
        nodes[0] == start,
        forall|k: int| 0 <= k < nodes.len() ==> #[trigger] nodes[k] != dest,
        valid_path(others, map, start, path, dest),
        0 <= i <= path.len(),
    ensures
        exists|j: int| 0 <= j < nodes.len() && nodes[j] == walk_pos(start, path, i),
    decreases i,
{
    lemma_levels_facts(others, map, dest, nodes, parents, depth, nodes.len() as int);
    if i == 0 {
        assert(nodes[0] == walk_pos(start, path, 0));
    } else {
        lemma_closed_walk(others, map, start, dest, nodes, parents, depth, path, i - 1);
        let q = walk_pos(start, path, i - 1);
        let j = choose|j: int| 0 <= j < nodes.len() && nodes[j] == q;
        assert(nodes[j] != dest);
        assert(expanded_node(others, map, dest, nodes, depth, j));
        lemma_valid_path_steps(others, map, start, path, dest, i - 1);
        lemma_valid_path_steps(others, map, start, path, dest, i);
        assert(open_step(others, map, dest, nodes[j], path[i - 1]));
        let j2 = choose|j2: int| 0 <= j2 < nodes.len() && nodes[j2] == spec_step(nodes[j], path[i - 1]) && depth[j2] <= depth[j] + 1;
        assert(nodes[j2] == walk_pos(start, path, i));
    }
}

/// A search that expanded all its nodes without meeting the destination shows that no
/// valid path leads there.
proof fn lemma_closed_search(
    others: Seq<PlayerView>,
    map: MapView,
    start: Position,
    dest: Position,
    nodes: Seq<Position>,
    parents: Seq<usize>,
    depth: Seq<int>,
    path: Seq<Direction>,
)
    requires
        search_levels(others, map, dest, nodes, parents, depth, nodes.len() as int),
        nodes[0] == start,
        forall|k: int| 0 <= k < nodes.len() ==> #[trigger] nodes[k] != dest,
    ensures
        !valid_path(others, map, start, path, dest),
{
    if valid_path(others, map, start, path, dest) {
        lemma_closed_walk(others, map, start, dest, nodes, parents, depth, path, path.len() as int);
        lemma_valid_path_steps(others, map, start, path, dest, path.len() as int);
        let j = choose|j: int| 0 <= j < nodes.len() && nodes[j] == walk_pos(start, path, path.len() as int);
        assert(nodes[j] != dest);
    }
}

/// A node found stays found, at the same depth, when the search grows.
proof fn lemma_found_grows(nodes: Seq<Position>, depth: Seq<int>, q: Position, b: int, x: Position, dx: int)
    requires
        found_within(nodes, depth, q, b),
        depth.len() == nodes.len(),
    ensures
        found_within(nodes.push(x), depth.push(dx), q, b),
{
    let j = choose|j: int| 0 <= j < nodes.len() && nodes[j] == q && depth[j] <= b;
    assert(nodes.push(x)[j] == q && depth.push(dx)[j] <= b);
}

/// Expanded nodes stay expanded when the search grows.
proof fn lemma_expanded_grows(
    others: Seq<PlayerView>,
    map: MapView,
    dest: Position,
    nodes: Seq<Position>,
    depth: Seq<int>,
    k: int,
    x: Position,
    dx: int,
)
    requires
        0 <= k < nodes.len(),
        depth.len() == nodes.len(),
        expanded_node(others, map, dest, nodes, depth, k),
    ensures
        expanded_node(others, map, dest, nodes.push(x), depth.push(dx), k),
{
    assert forall|d: Direction| #[trigger] open_step(others, map, dest, nodes.push(x)[k], d) implies found_within(
        nodes.push(x),
        depth.push(dx),
        spec_step(nodes.push(x)[k], d),
        depth.push(dx)[k] + 1,
    ) by {
        assert(nodes.push(x)[k] == nodes[k]);
        assert(open_step(others, map, dest, nodes[k], d));
        lemma_found_grows(nodes, depth, spec_step(nodes[k], d), depth[k] + 1, x, dx);
    }
}

/// The positions along a valid path: each step is in range, every position before the
/// last is passable, and the last is the destination.
proof fn lemma_valid_path_steps(others: Seq<PlayerView>, map: MapView, from: Position, path: Seq<Direction>, dest: Position, i: int)
    requires
        valid_path(others, map, from, path, dest),
        0 <= i <= path.len(),
    ensures
        i < path.len() ==> step_in_range(walk_pos(from, path, i), path[i]),
        i < path.len() ==> walk_pos(from, path, i + 1) == spec_step(walk_pos(from, path, i), path[i]),
        0 < i < path.len() ==> passable(others, map, walk_pos(from, path, i)),
        i == path.len() ==> walk_pos(from, path, i) == dest,
    decreases i,
{
    if path.len() > 0 && i > 0 {
        lemma_valid_path_steps(others, map, spec_step(from, path[0]), path.drop_first(), dest, i - 1);
        if i < path.len() {
            assert(path.drop_first()[i - 1] == path[i]);
        }
    } else if path.len() > 0 {
        assert(walk_pos(spec_step(from, path[0]), path.drop_first(), 0) == spec_step(from, path[0]));
    }
}

/// Along a valid path, every position up to step `i` (before the level of the
/// destination's parent) is a search node at depth at most `i`.
proof fn lemma_path_in_search(
    others: Seq<PlayerView>,
    map: MapView,
    start: Position,
    dest: Position,
    nodes: Seq<Position>,
    parents: Seq<usize>,
    depth: Seq<int>,
    exp: int,
    idx: int,
    path: Seq<Direction>,
    i: int,
)
    requires
        search_levels(others, map, dest, nodes, parents, depth, exp),
        forall|a: int, b: int| 0 <= a < b < nodes.len() ==> nodes[a] != nodes[b],
        nodes[0] == start,
        1 <= idx < nodes.len(),
        nodes[idx] == dest,
        valid_path(others, map, start, path, dest),
        0 <= i <= path.len(),
        i <= depth[idx] - 1,
    ensures
        found_within(nodes, depth, walk_pos(start, path, i), i),
    decreases i,
{
    lemma_levels_facts(others, map, dest, nodes, parents, depth, exp);
    if i == 0 {
        assert(nodes[0] == walk_pos(start, path, 0) && depth[0] <= 0);
    } else {
        lemma_path_in_search(others, map, start, dest, nodes, parents, depth, exp, idx, path, i - 1);
        let q = walk_pos(start, path, i - 1);
        let j = choose|j: int| 0 <= j < nodes.len() && nodes[j] == q && depth[j] <= i - 1;
        let p = parents[idx] as int;
        assert(depth[idx] == depth[p] + 1);
        assert(j < p) by {
            if j >= p {
                assert(depth[p] <= depth[j]);
            }
        }
        assert(p <= exp);
        if nodes[j] == dest {
            assert(nodes[j] == nodes[idx]);
        }
        assert(expanded_node(others, map, dest, nodes, depth, j));
        lemma_valid_path_steps(others, map, start, path, dest, i - 1);
        lemma_valid_path_steps(others, map, start, path, dest, i);
        let d = path[i - 1];
        assert(open_step(others, map, dest, nodes[j], d));
    }
}

/// With the destination at node `idx`, no valid path is shorter than its depth.
proof fn lemma_search_optimal(
    others: Seq<PlayerView>,
    map: MapView,
    start: Position,
    dest: Position,
    nodes: Seq<Position>,
    parents: Seq<usize>,
    depth: Seq<int>,
    exp: int,
    idx: int,
)
    requires
        search_levels(others, map, dest, nodes, parents, depth, exp),
        forall|a: int, b: int| 0 <= a < b < nodes.len() ==> nodes[a] != nodes[b],
        nodes[0] == start,
        0 <= idx < nodes.len(),
        nodes[idx] == dest,
    ensures
        no_shorter_path(others, map, start, dest, depth[idx]),
{
    lemma_levels_facts(others, map, dest, nodes, parents, depth, exp);
    assert forall|path: Seq<Direction>| #[trigger] valid_path(others, map, start, path, dest) implies path.len() >= depth[idx] by {
        if idx > 0 && path.len() < depth[idx] {
            lemma_path_in_search(others, map, start, dest, nodes, parents, depth, exp, idx, path, path.len() as int);
            lemma_valid_path_steps(others, map, start, path, dest, path.len() as int);
            let j = choose|j: int| 0 <= j < nodes.len() && nodes[j] == dest && depth[j] <= path.len();
            if j != idx {
                if j < idx {
                    assert(nodes[j] != nodes[idx]);
                } else {
                    assert(nodes[idx] != nodes[j]);
                }
            }
        }
        if idx == 0 {
            assert(depth[idx] == 0);
        }
    }
}

/// Once the nodes number more than 400, trying further neighbours adds none.
proof fn lemma_expand_full(
    others: Seq<PlayerView>,
    map: MapView,
    dest: Position,
    t: SearchTree,
    cur: int,
    k: int,
    k2: int,
)
    requires
        0 <= k <= k2,
        k < k2 ==> expand_node(others, map, dest, t, cur, k).nodes.len() > 400,
    ensures
        expand_node(others, map, dest, t, cur, k2) == expand_node(others, map, dest, t, cur, k),
    decreases k2 - k,
{
    if k < k2 {
        lemma_expand_full(others, map, dest, t, cur, k, k2 - 1);
    }
}

/// The neighbour of `p` in direction `d`, if the step keeps the coordinates non-negative.
fn neighbor(p: Position, d: Direction) -> (r: Option<Position>)
    ensures
        r is Some <==> step_in_range(p, d),
        r matches Some(q) ==> q == spec_step(p, d),
{
    match d {
        Direction::North => if p.y == 0 {
            None
        } else {
            Some(Position { x: p.x, y: p.y - 1, z: p.z })
        },
        Direction::East => Some(Position { x: if p.x == 0xFFFF { 0 } else { p.x + 1 }, y: p.y, z: p.z }),
        Direction::South => Some(Position { x: p.x, y: if p.y == 0xFFFF { 0 } else { p.y + 1 }, z: p.z }),
        Direction::West => if p.x == 0 {
            None
        } else {
            Some(Position { x: p.x - 1, y: p.y, z: p.z })
        },
    }
}

/// The index of `p` among the search nodes.
fn find_node(nodes: &Vec<Position>, p: Position) -> (r: Option<usize>)
    ensures
        match r {
            Some(k) => k < nodes@.len() && nodes@[k as int] == p,
            None => forall|k: int| 0 <= k < nodes@.len() ==> nodes@[k] != p,
        },
{
    let mut i: usize = 0;
    while i < nodes.len()
        invariant
            i <= nodes@.len(),
            forall|k: int| 0 <= k < i ==> nodes@[k] != p,
        decreases nodes.len() - i,
    {
        if nodes[i] == p {
            return Some(i);
        }
        i = i + 1;
    }
    None
}

/// Whether every object of a stack lets players walk over it.
pub(crate) fn all_walkable(objs: &[TileObject]) -> (r: bool)
    ensures
        r == forall|j: int| 0 <= j < objs@.len() ==> !blocks_movement(object_id(#[trigger] objs@[j])),
{
    let mut i: usize = 0;
    while i < objs.len()
        invariant
            i <= objs@.len(),
            forall|j: int| 0 <= j < i ==> !blocks_movement(object_id(#[trigger] objs@[j])),
        decreases objs.len() - i,
    {
        let id = match objs[i] {
            TileObject::Ground(id) => id,
            TileObject::Item(id) => id,
        };
        if !is_walkable(id) {
            return false;
        }
        i = i + 1;
    }
    true
}

impl Connection {
    /// Whether an auto-walk may pass through `p`, see [`passable`].
    fn passable_tile(&self, map: &GameMap, p: Position) -> (r: bool)
        requires
            map.wf(),
        ensures
            r == passable(self.others(), map@, p),
    {
        if let Some(k) = self.other_at(p) {
            proof {
                crate::util::lemma_first_where_satisfies(self.others(), |q: PlayerView| q.position == p);
                assert(self.others()[k as int].position == p);
            }
            return false;
        }
        proof {
            assert forall|i: int| 0 <= i < self.others().len() implies #[trigger] self.others()[i].position != p by {
                if self.others()[i].position == p {
                    crate::util::lemma_first_where_some(self.others(), |q: PlayerView| q.position == p, i);
                }
            }
        }
        match map.get_tile_objects(p) {
            Some(objs) => {
                let r = all_walkable(objs);
                proof {
                    assert(map@.visible_tile(p)->0 == objs@);
                }
                r
            },
            None => false,
        }
    }

    /// Adds the neighbour of node `cur` in direction `d` to the search, unless it is out
    /// of range, already found, or (not being the destination) impassable.
    fn explore(
        &self,
        map: &GameMap,
        dest: Position,
        nodes: &mut Vec<Position>,
        parents: &mut Vec<usize>,
        dirs: &mut Vec<Direction>,
        cur: usize,
        d: Direction,
    )
        requires
            map.wf(),
            cur < old(nodes)@.len(),
            search_tree(self.others(), map@, self.player.position, dest, old(nodes)@, old(parents)@, old(dirs)@),
        ensures
            search_tree(self.others(), map@, self.player.position, dest, final(nodes)@, final(parents)@, final(dirs)@),
            (SearchTree { nodes: final(nodes)@, parents: final(parents)@, dirs: final(dirs)@ }) == add_neighbor(
                self.others(),
                map@,
                dest,
                SearchTree { nodes: old(nodes)@, parents: old(parents)@, dirs: old(dirs)@ },
                cur as int,
                d,
            ),
            final(nodes)@.len() == old(nodes)@.len() ==> {
                &&& final(nodes)@ == old(nodes)@
                &&& final(parents)@ == old(parents)@
                &&& final(dirs)@ == old(dirs)@
                &&& open_step(self.others(), map@, dest, old(nodes)@[cur as int], d) ==> exists|j: int|
                    0 <= j < old(nodes)@.len() && old(nodes)@[j] == spec_step(old(nodes)@[cur as int], d)
            },
            final(nodes)@.len() != old(nodes)@.len() ==> {
                &&& final(nodes)@ == old(nodes)@.push(spec_step(old(nodes)@[cur as int], d))
                &&& final(parents)@ == old(parents)@.push(cur)
                &&& final(dirs)@ == old(dirs)@.push(d)
                &&& open_step(self.others(), map@, dest, old(nodes)@[cur as int], d)
            },
    {
        let next = match neighbor(nodes[cur], d) {
            Some(q) => q,
            None => return,
        };
        if let Some(j) = find_node(nodes, next) {
            proof {
                assert(nodes@[j as int] == spec_step(nodes@[cur as int], d));
                assert(nodes@.contains(next));
            }
            return;
        }
        if next != dest && !self.passable_tile(map, next) {
            return;
        }
        let ghost n0 = nodes@;
        let ghost p0 = parents@;
        let ghost d0 = dirs@;
        proof {
            assert(!n0.contains(next));
        }
        nodes.push(next);
        parents.push(cur);
        dirs.push(d);
        proof {
            assert forall|k: int| 1 <= k < nodes@.len() implies {
                &&& #[trigger] parents@[k] < k
                &&& step_in_range(nodes@[parents@[k] as int], dirs@[k])
                &&& nodes@[k] == spec_step(nodes@[parents@[k] as int], dirs@[k])
                &&& (nodes@[k] == dest || passable(self.others(), map@, nodes@[k]))
            } by {
                if k < n0.len() {
                    assert(p0[k] < k);
                }
            }
        }
    }

    /// Computes the auto-walk path from the player to `dest` (empty when none is found).
    #[verifier::spinoff_prover]
    fn find_path(&self, map: &GameMap, dest: Position) -> (path: Vec<Direction>)
        requires
            map.wf(),
        ensures
            path@.len() > 0 ==> valid_path(self.others(), map@, self.player.position, path@, dest),
            path@.len() > 0 ==> no_shorter_path(self.others(), map@, self.player.position, dest, path@.len() as int),
            dest == self.player.position ==> path@.len() == 0,
            path@.len() > 0 <==> dest != self.player.position
                && searched_tiles(self.others(), map@, dest, self.player.position).contains(dest),
            path@ == searched_path(self.others(), map@, dest, self.player.position),
            (exists|p: Seq<Direction>| #[trigger] valid_path(self.others(), map@, self.player.position, p, dest))
                && dest != self.player.position
                && search_area(self.others(), map@, dest, self.player.position).finite()
                && search_area(self.others(), map@, dest, self.player.position).len() <= 400 ==> path@.len() > 0,
    {
        let start = self.player.position;
        let ghost others = self.others();
        let ghost m = map@;
        let mut nodes: Vec<Position> = Vec::new();
        let mut parents: Vec<usize> = Vec::new();
        let mut dirs: Vec<Direction> = Vec::new();
        nodes.push(start);
        parents.push(0);
        dirs.push(Direction::South);
        let ghost mut depth: Seq<int> = seq![0int];
        let ghost mut exp: int = 0;
        let ghost fin = searched_tree(others, m, dest, start);
        proof {
            lemma_levels_start(others, m, dest, start);
            lemma_area_start(others, m, dest, start);
            assert(nodes@ =~= seq![start]);
            assert(parents@ =~= seq![0usize]);
            assert(dirs@ =~= seq![Direction::South]);
        }
        let mut head: usize = 0;
        let mut done = false;
        while head < nodes.len() && !done
            invariant
                map.wf(),
                others == self.others(),
                m == map@,
                head <= nodes@.len() <= 404,
                !done ==> nodes@.len() <= 400,
                search_tree(others, m, start, dest, nodes@, parents@, dirs@),
                search_levels(others, m, dest, nodes@, parents@, depth, exp),
                depth.len() == nodes@.len(),
                exp <= head,
                !done ==> exp == head,
                nodes_in_area(others, m, dest, start, nodes@),
                done ==> nodes@.len() > 400 || exists|k: int| 0 <= k < nodes@.len() && nodes@[k] == dest,
                head < nodes@.len() ==> forall|j: int| 0 <= j < nodes@.len() ==> depth[j] <= depth[head as int] + 1,
                start == self.player.position,
                fin == searched_tree(others, m, dest, start),
                !done ==> search_run(others, m, dest, (SearchTree { nodes: nodes@, parents: parents@, dirs: dirs@ }), head as int) == fin,
                done ==> (SearchTree { nodes: nodes@, parents: parents@, dirs: dirs@ }) == fin,
            decreases 405 - head,
        {
            let cur = head;
            head = head + 1;
            let ghost t_start = (SearchTree { nodes: nodes@, parents: parents@, dirs: dirs@ });
            proof {
                assert(fin == search_run(others, m, dest, t_start, cur as int));
            }
            if nodes[cur] == dest {
                done = true;
                proof {
                    assert(nodes@[cur as int] == dest);
                    lemma_levels_expand(others, m, dest, nodes@, parents@, depth, cur as int);
                    exp = head as int;
                }
            } else {
                let order = [Direction::North, Direction::East, Direction::South, Direction::West];
                let mut k: usize = 0;
                while k < 4 && !done
                    invariant
                        map.wf(),
                        others == self.others(),
                        m == map@,
                        cur < nodes@.len(),
                        head == cur + 1,
                        head <= nodes@.len(),
                        !done ==> nodes@.len() <= 400,
                        nodes@.len() <= 404,
                        k <= 4,
                        order@ == seq![Direction::North, Direction::East, Direction::South, Direction::West],
                        nodes@[cur as int] != dest,
                        search_tree(others, m, start, dest, nodes@, parents@, dirs@),
                        search_levels(others, m, dest, nodes@, parents@, depth, exp),
                        depth.len() == nodes@.len(),
                        exp == cur,
                        nodes_in_area(others, m, dest, start, nodes@),
                        done ==> nodes@.len() > 400,
                        forall|j: int| 0 <= j < nodes@.len() ==> depth[j] <= depth[cur as int] + 1,
                        forall|q: int| 0 <= q < k ==> #[trigger] open_step(others, m, dest, nodes@[cur as int], order@[q])
                            ==> found_within(nodes@, depth, spec_step(nodes@[cur as int], order@[q]), depth[cur as int] + 1),
                        start == self.player.position,
                        (SearchTree { nodes: nodes@, parents: parents@, dirs: dirs@ }) == expand_node(others, m, dest, t_start, cur as int, k as int),
                        t_start.nodes.len() <= 400,
                    decreases 4 - k,
                {
                    let ghost n0 = nodes@;
                    let ghost p0 = parents@;
                    let ghost dep0 = depth;
                    let dk = order[k];
                    self.explore(map, dest, &mut nodes, &mut parents, &mut dirs, cur, dk);
                    proof {
                        let c = cur as int;
                        let nd = dep0[c] + 1;
                        if nodes@.len() != n0.len() {
                            let x = spec_step(n0[c], dk);
                            lemma_levels_grow(others, m, dest, n0, p0, dep0, c, x);
                            lemma_area_grow(others, m, dest, start, n0, c, dk);
                            depth = dep0.push(nd);
                            assert forall|q: int| 0 <= q < k + 1 && #[trigger] open_step(others, m, dest, nodes@[c], order@[q])
                                implies found_within(nodes@, depth, spec_step(nodes@[c], order@[q]), depth[c] + 1) by {
                                assert(nodes@[c] == n0[c]);
                                if q < k {
                                    lemma_found_grows(n0, dep0, spec_step(n0[c], order@[q]), nd, x, nd);
                                } else {
                                    assert(nodes@[n0.len() as int] == x && depth[n0.len() as int] == nd);
                                }
                            }
                        } else {
                            assert forall|q: int| 0 <= q < k + 1 && #[trigger] open_step(others, m, dest, nodes@[c], order@[q])
                                implies found_within(nodes@, depth, spec_step(nodes@[c], order@[q]), depth[c] + 1) by {
                                if q == k {
                                    let j = choose|j: int| 0 <= j < n0.len() && n0[j] == spec_step(n0[c], dk);
                                    assert(depth[j] <= depth[c] + 1);
                                }
                            }
                        }
                    }
                    proof {
                        assert(order@[k as int] == search_dir(k as int));
                    }
                    if nodes.len() > 400 {
                        done = true;
                    }
                    k = k + 1;
                }
                proof {
                    lemma_expand_full(others, m, dest, t_start, cur as int, k as int, 4);
                }
                if !done {
                    proof {
                        let c = cur as int;
                        assert forall|d: Direction| #[trigger] open_step(others, m, dest, nodes@[c], d) implies found_within(
                            nodes@,
                            depth,
                            spec_step(nodes@[c], d),
                            depth[c] + 1,
                        ) by {
                            match d {
                                Direction::North => assert(order@[0] == d),
                                Direction::East => assert(order@[1] == d),
                                Direction::South => assert(order@[2] == d),
                                Direction::West => assert(order@[3] == d),
                            }
                        }
                        assert(expanded_node(others, m, dest, nodes@, depth, c));
                        lemma_levels_expand(others, m, dest, nodes@, parents@, depth, c);
                        exp = head as int;
                    }
                }
            }
            proof {
                if nodes@.len() > 400 {
                    assert(search_run(others, m, dest, (SearchTree { nodes: nodes@, parents: parents@, dirs: dirs@ }), head as int) == (SearchTree { nodes: nodes@, parents: parents@, dirs: dirs@ }));
                }
                if head < nodes@.len() {
                    lemma_levels_facts(others, m, dest, nodes@, parents@, depth, exp);
                    assert forall|j: int| 0 <= j < nodes@.len() implies depth[j] <= depth[head as int] + 1 by {
                        assert(depth[cur as int] <= depth[head as int]);
                    }
                }
            }
        }
        proof {
            if !done {
                assert(search_run(others, m, dest, (SearchTree { nodes: nodes@, parents: parents@, dirs: dirs@ }), head as int) == (SearchTree { nodes: nodes@, parents: parents@, dirs: dirs@ }));
            }
            assert((SearchTree { nodes: nodes@, parents: parents@, dirs: dirs@ }) == fin);
        }
        let found = find_node(&nodes, dest);
        match found {
            Some(idx) => {
                proof {
                    lemma_search_optimal(others, m, start, dest, nodes@, parents@, depth, exp, idx as int);
                    lemma_levels_facts(others, m, dest, nodes@, parents@, depth, exp);
                    if dest == start {
                        assert(idx == 0);
                    }
                    assert forall|k: int| 1 <= k < nodes@.len() implies tree_edge(others, m, dest, nodes@, parents@, #[trigger] dirs@[k], k) by {
                        assert(parents@[k] < k);
                    }
                    assert forall|k: int| 0 <= k < idx implies #[trigger] nodes@[k] != dest by {
                        assert(nodes@[k] != nodes@[idx as int]);
                    }
                }
                let path = self.trace_back(map, dest, &nodes, &parents, &dirs, idx, Ghost(depth));
                proof {
                    assert(fin.nodes.contains(dest));
                    if idx != 0 {
                        assert(nodes@[0] != nodes@[idx as int]);
                        let pi = parents@[idx as int] as int;
                        assert(depth[idx as int] == depth[pi] + 1);
                        assert(depth[0] <= depth[pi]);
                    }
                }
                path
            },
            None => {
                proof {
                    assert(!fin.nodes.contains(dest));
                    let area = search_area(others, m, dest, start);
                    if (exists|p: Seq<Direction>| #[trigger] valid_path(others, m, start, p, dest)) && area.finite()
                        && area.len() <= 400 {
                        lemma_area_bound(others, m, dest, start, nodes@);
                        if !done {
                            let p = choose|p: Seq<Direction>| #[trigger] valid_path(others, m, start, p, dest);
                            assert forall|k: int| 0 <= k < nodes@.len() implies #[trigger] nodes@[k] != dest by {}
                            lemma_closed_search(others, m, start, dest, nodes@, parents@, depth, p);
                        }
                    }
                }
                Vec::new()
            },
        }
    }

    /// The directions from the start to node `idx`, following the parents back.
    #[verifier::spinoff_prover]
    fn trace_back(
        &self,
        map: &GameMap,
        dest: Position,
        nodes: &Vec<Position>,
        parents: &Vec<usize>,
        dirs: &Vec<Direction>,
        idx: usize,
        Ghost(depth): Ghost<Seq<int>>,
    ) -> (path: Vec<Direction>)
        requires
            idx < nodes@.len(),
            nodes@[idx as int] == dest,
            nodes@[0] == self.player.position,
            parents@.len() == nodes@.len(),
            dirs@.len() == nodes@.len(),
            forall|k: int| 1 <= k < nodes@.len() ==> tree_edge(self.others(), map@, dest, nodes@, parents@, #[trigger] dirs@[k], k),
            forall|k: int| 0 <= k < idx ==> #[trigger] nodes@[k] != dest,
            depth.len() == nodes@.len(),
            depth[0] == 0,
            forall|k: int| 1 <= k < nodes@.len() ==> #[trigger] depth[k] == depth[parents@[k] as int] + 1,
        ensures
            valid_path(self.others(), map@, self.player.position, path@, dest),
            path@.len() == depth[idx as int],
            idx == 0 ==> path@.len() == 0,
            path@ == tree_path(parents@, dirs@, idx as int),
    {
        let ghost others = self.others();
        let ghost m = map@;
        let mut path: Vec<Direction> = Vec::new();
        let mut cur = idx;
        proof {
            assert(tree_path(parents@, dirs@, idx as int) =~= tree_path(parents@, dirs@, idx as int) + path@);
        }
        while cur != 0
            invariant
                cur <= idx < nodes@.len(),
                nodes@[idx as int] == dest,
                others == self.others(),
                m == map@,
                parents@.len() == nodes@.len(),
                dirs@.len() == nodes@.len(),
                forall|k: int| 1 <= k < nodes@.len() ==> tree_edge(others, m, dest, nodes@, parents@, #[trigger] dirs@[k], k),
                forall|k: int| 0 <= k < idx ==> #[trigger] nodes@[k] != dest,
                depth.len() == nodes@.len(),
                forall|k: int| 1 <= k < nodes@.len() ==> #[trigger] depth[k] == depth[parents@[k] as int] + 1,
                path@.len() == 0 ==> cur == idx,
                path@.len() > 0 ==> cur < idx,
                path@.len() + depth[cur as int] == depth[idx as int],
                valid_path(others, m, nodes@[cur as int], path@, dest),
                tree_path(parents@, dirs@, idx as int) == tree_path(parents@, dirs@, cur as int) + path@,
            decreases cur,
        {
            let d = dirs[cur];
            let p = parents[cur];
            let ghost old_path = path@;
            proof {
                let c = cur as int;
                assert(tree_edge(others, m, dest, nodes@, parents@, dirs@[c], c));
                assert(depth[c] == depth[parents@[c] as int] + 1);
                if old_path.len() > 0 {
                    assert(nodes@[c] != dest);
                }
                lemma_prepend_step(others, m, nodes@[p as int], d, old_path, dest);
            }
            path.insert(0, d);
            proof {
                assert(path@ =~= seq![d] + old_path);
                let c = cur as int;
                assert(tree_path(parents@, dirs@, c) == tree_path(parents@, dirs@, p as int).push(d));
                assert(tree_path(parents@, dirs@, c) + old_path =~= tree_path(parents@, dirs@, p as int) + path@);
            }
            cur = p;
        }
        proof {
            assert(tree_path(parents@, dirs@, 0) + path@ =~= path@);
        }
        path
    }

    /// Handles an auto-walk request: the clicked screen tile (x 2 to 14, y 2 to 10) is
    /// turned into a map position and a path to it is searched breadth first, through
    /// passable tiles only (the destination itself may be impassable), stopping after
    /// 400 tiles. The path is walked one step per tick; without one, the player is told
    /// it is not possible.
    pub fn recv_auto_walk(&mut self, map: &GameMap, r: &mut PacketReader) -> (res: Result<(), PacketError>)
        requires
            map.wf(),
        ensures
            res is Ok <==> old(r).remaining().len() >= 2,
            res is Ok ==> final(r).remaining() == old(r).remaining().skip(2),
            res is Err ==> res == Err::<(), PacketError>(PacketError::Read(ReadError::UnexpectedEof))
                && final(self)@ == old(self)@,
            res is Ok ==> auto_walk_outcome(
                old(self)@,
                map@,
                Position { x: old(r).remaining()[0] as u16, y: old(r).remaining()[1] as u16, z: 7 },
                final(self)@,
            ),
            final(self).player == old(self).player,
            final(self).other_players == old(self).other_players,
    {
        let screen = match r.read_position() {
            Ok(p) => p,
            Err(e) => {
                proof {
                    assert(e == ReadError::UnexpectedEof);
                }
                return Err(PacketError::Read(e));
            },
        };
        if screen.x < 2 || screen.x > 14 || screen.y < 2 || screen.y > 10 {
            return Ok(());
        }
        let dest = screen_to_map_pos(self.player.position, screen);
        let path = self.find_path(map, dest);
        let empty = path.len() == 0;
        self.pending_path = path;
        if empty {
            self.enqueue_sorry();
        }
        Ok(())
    }
}

} // verus!
