//! World map - tile storage and spatial queries for Tibia 1.03.
//!
//! The map is built from a tile list exported from Remere's Map Editor (originally made
//! with Tibia 8.60 assets); tile and item ids are translated to Tibia 1.03 ids while it
//! is built ([`tile_id_map`], [`item_id_map`]). Each tile holds a stack of
//! [`TileObject`]s with the ground layer at index 0.

pub mod items;
pub mod position;

use vstd::prelude::*;
use std::collections::HashMap;
use position::Position;
use crate::util::{remove_first, remove_first_u16};

verus! {

broadcast use {vstd::std_specs::hash::group_hash_axioms, vstd::string::group_string_axioms};

/// An object that can occupy a position on a tile.
///
/// The ground layer is always index 0 in a tile's object list; items are stacked above
/// it. Tibia 1.03 has no NPCs or monsters - the only creatures in the game are players,
/// which are tracked separately from the tile objects.
#[derive(Debug, Copy, Clone, PartialEq, Eq, Structural)]
pub enum TileObject {
    Ground(u16),
    Item(u16),
}

/// The id carried by a tile object, ground or item.
pub open spec fn object_id(o: TileObject) -> u16 {
    match o {
        TileObject::Ground(id) => id,
        TileObject::Item(id) => id,
    }
}

/// A stack with `obj` inserted directly above the ground layer (or as the only object).
pub open spec fn insert_on_top(s: Seq<TileObject>, obj: TileObject) -> Seq<TileObject> {
    if s.len() == 0 {
        seq![obj]
    } else {
        s.insert(1, obj)
    }
}

/// A stack with its ground layer replaced (or pushed, if the stack is empty).
pub open spec fn with_ground(s: Seq<TileObject>, id: u16) -> Seq<TileObject> {
    if s.len() == 0 {
        seq![TileObject::Ground(id)]
    } else {
        s.update(0, TileObject::Ground(id))
    }
}

/// The key a position is stored under: X, Y and Z packed into one number.
pub open spec fn position_key(p: Position) -> u64 {
    ((p.x as u64) << 24u64) | ((p.y as u64) << 8u64) | (p.z as u64)
}

proof fn lemma_key_injective(p: Position, q: Position)
    ensures
        position_key(p) == position_key(q) ==> p == q,
{
    let (px, py, pz, qx, qy, qz) = (p.x, p.y, p.z, q.x, q.y, q.z);
    assert(((px as u64) << 24u64) | ((py as u64) << 8u64) | (pz as u64) == ((qx as u64) << 24u64)
        | ((qy as u64) << 8u64) | (qz as u64) ==> px == qx && py == qy && pz == qz) by (bit_vector);
}

fn key_of(p: Position) -> (k: u64)
    ensures
        k == position_key(p),
{
    ((p.x as u64) << 24u64) | ((p.y as u64) << 8u64) | (p.z as u64)
}

/// Finds the index of the first occurrence of `o` in `v`.
fn find_object(v: &Vec<TileObject>, o: TileObject) -> (r: Option<usize>)
    ensures
        match r {
            Some(i) => i < v@.len() && v@[i as int] == o && forall|j: int| 0 <= j < i ==> v@[j] != o,
            None => !v@.contains(o),
        },
{
    let mut i: usize = 0;
    while i < v.len()
        invariant
            i <= v@.len(),
            forall|j: int| 0 <= j < i ==> v@[j] != o,
        decreases v.len() - i,
    {
        if v[i] == o {
            return Some(i);
        }
        i = i + 1;
    }
    None
}

/// Internal tile representation - a stack of [`TileObject`]s where index 0 is the ground.
#[derive(Debug)]
struct Tile {
    objects: Vec<TileObject>,
}

/// The live world map, holding all tile and object state.
pub struct GameMap {
    pub respawn: Position,
    tiles: HashMap<u64, Tile>,
    /// Persistent contents of containers sitting on the map, keyed by their tile position.
    /// When a container on the ground is closed and reopened, contents are loaded from here.
    container_contents: HashMap<u64, Vec<u16>>,
    width: u16,
    height: u16,
    offset_x: u16,
    offset_y: u16,
}

/// The abstract content of a map: the object stacks and persisted container contents by
/// position, and the playable area as `(width, height, offset_x, offset_y)`.
pub struct MapView {
    pub tiles: vstd::map::Map<Position, Seq<TileObject>>,
    pub containers: vstd::map::Map<Position, Seq<u16>>,
    pub area: (u16, u16, u16, u16),
}

impl MapView {
    /// Whether `p` lies in the playable area (any floor).
    pub open spec fn in_bounds(self, p: Position) -> bool {
        let (w, h, ox, oy) = self.area;
        ox <= p.x < ox + w && oy <= p.y < oy + h
    }

    /// The map with the first item `id` removed from the stack at `pos`, if it holds one.
    pub open spec fn with_item_removed(self, pos: Position, id: u16) -> MapView {
        if self.tiles.contains_key(pos) && self.tiles[pos].contains(TileObject::Item(id)) {
            MapView { tiles: self.tiles.insert(pos, remove_first(self.tiles[pos], TileObject::Item(id))), ..self }
        } else {
            self
        }
    }

    /// The map with item `id` placed on top of the stack at `pos` (a new stack if none).
    pub open spec fn with_item_added(self, pos: Position, id: u16) -> MapView {
        let objs = if self.tiles.contains_key(pos) { self.tiles[pos] } else { Seq::empty() };
        MapView { tiles: self.tiles.insert(pos, insert_on_top(objs, TileObject::Item(id))), ..self }
    }

    /// The map with the contents of the container at `pos` set to `items`.
    pub open spec fn with_contents(self, pos: Position, items: Seq<u16>) -> MapView {
        MapView { containers: self.containers.insert(pos, items), ..self }
    }

    /// The map without saved contents for a container at `pos`.
    pub open spec fn without_contents(self, pos: Position) -> MapView {
        MapView { containers: self.containers.remove(pos), ..self }
    }

    /// The object stack at `p` if it lies in the playable area and is stored.
    pub open spec fn visible_tile(self, p: Position) -> Option<Seq<TileObject>> {
        if self.in_bounds(p) && self.tiles.contains_key(p) {
            Some(self.tiles[p])
        } else {
            None
        }
    }
}

impl View for GameMap {
    type V = MapView;

    open spec fn view(&self) -> MapView {
        MapView { tiles: self.tiles(), containers: self.contents(), area: self.area() }
    }
}

impl GameMap {
    /// The object stack stored at `p`, if any.
    pub closed spec fn tile(&self, p: Position) -> Option<Seq<TileObject>> {
        if self.tiles@.contains_key(position_key(p)) {
            Some(self.tiles@[position_key(p)].objects@)
        } else {
            None
        }
    }

    /// All object stacks, by position.
    pub open spec fn tiles(&self) -> vstd::map::Map<Position, Seq<TileObject>> {
        vstd::map::Map::new(|p: Position| self.tile(p) is Some, |p: Position| self.tile(p)->0)
    }

    /// All persisted container contents, by position.
    pub open spec fn contents(&self) -> vstd::map::Map<Position, Seq<u16>> {
        vstd::map::Map::new(|p: Position| self.container(p) is Some, |p: Position| self.container(p)->0)
    }

    /// The position new players start at.
    pub closed spec fn respawn_at(&self) -> Position {
        self.respawn
    }

    /// The persisted contents of the container at `p`, if any.
    pub closed spec fn container(&self, p: Position) -> Option<Seq<u16>> {
        if self.container_contents@.contains_key(position_key(p)) {
            Some(self.container_contents@[position_key(p)]@)
        } else {
            None
        }
    }

    /// The playable area: `width` by `height` tiles starting at `(offset_x, offset_y)`.
    pub closed spec fn area(&self) -> (u16, u16, u16, u16) {
        (self.width, self.height, self.offset_x, self.offset_y)
    }

    /// Whether `p` lies in the playable area (any floor).
    pub open spec fn in_bounds(&self, p: Position) -> bool {
        let (w, h, ox, oy) = self.area();
        ox <= p.x < ox + w && oy <= p.y < oy + h
    }

    /// The playable area fits in the coordinate range.
    pub open spec fn wf(&self) -> bool {
        let (w, h, ox, oy) = self.area();
        ox + w <= u16::MAX && oy + h <= u16::MAX
    }

    /// Creates a map with no tiles and no container contents.
    pub fn new(width: u16, height: u16, offset_x: u16, offset_y: u16, respawn: Position) -> (m: Self)
        requires
            offset_x + width <= u16::MAX,
            offset_y + height <= u16::MAX,
        ensures
            m.wf(),
            m.area() == (width, height, offset_x, offset_y),
            m.respawn_at() == respawn,
            forall|p: Position| m.tile(p) is None && m.container(p) is None,
    {
        GameMap {
            respawn,
            tiles: HashMap::new(),
            container_contents: HashMap::new(),
            width,
            height,
            offset_x,
            offset_y,
        }
    }

    fn take_tile(&mut self, pos: Position) -> (t: Vec<TileObject>)
        ensures
            t@ == match old(self).tile(pos) {
                Some(s) => s,
                None => Seq::empty(),
            },
            forall|q: Position| q != pos ==> final(self).tile(q) == old(self).tile(q),
            final(self).tile(pos) is None,
            forall|q: Position| final(self).container(q) == old(self).container(q),
            final(self).area() == old(self).area(),
            final(self).respawn_at() == old(self).respawn_at(),
    {
        let k = key_of(pos);
        let t = match self.tiles.remove(&k) {
            Some(tile) => tile.objects,
            None => Vec::new(),
        };
        proof {
            assert forall|q: Position| q != pos implies self.tile(q) == old(self).tile(q) by {
                lemma_key_injective(q, pos);
            }
        }
        t
    }

    fn put_tile(&mut self, pos: Position, objects: Vec<TileObject>)
        ensures
            final(self).tile(pos) == Some(objects@),
            forall|q: Position| q != pos ==> final(self).tile(q) == old(self).tile(q),
            forall|q: Position| final(self).container(q) == old(self).container(q),
            final(self).area() == old(self).area(),
            final(self).respawn_at() == old(self).respawn_at(),
    {
        let k = key_of(pos);
        self.tiles.insert(k, Tile { objects });
        proof {
            assert forall|q: Position| q != pos implies self.tile(q) == old(self).tile(q) by {
                lemma_key_injective(q, pos);
            }
        }
    }

    /// Builds the runtime map from the tiles of a map file.
    ///
    /// The load sequence is:
    /// 1. Fill the entire playable area with water (`0x000E`).
    /// 2. For each tile in the file, in order, translate its Tibia 8.60 ground id to a
    ///    Tibia 1.03 id and set it; ids without a translation fall back to water.
    /// 3. Translate the tile's items and add them in reverse order so the topmost item
    ///    ends up last in the object stack. Unrecognised items are skipped.
    pub fn load(
        tiles: &Vec<MapTile>,
        width: u16,
        height: u16,
        offset_x: u16,
        offset_y: u16,
        respawn: Position,
    ) -> (m: Self)
        requires
            offset_x + width <= u16::MAX,
            offset_y + height <= u16::MAX,
        ensures
            m.wf(),
            m.area() == (width, height, offset_x, offset_y),
            m.respawn_at() == respawn,
            m.tiles() == load_tiles(
                water_grid(width, height, offset_x, offset_y),
                tiles@.map_values(|t: MapTile| t@),
            ),
            forall|p: Position| m.container(p) is None,
    {
        let tile_map = tile_id_map();
        let item_map = item_id_map();
        let mut map = GameMap::new(width, height, offset_x, offset_y, respawn);
        proof {
            assert(map.tiles() =~= water_prefix(width, height, offset_x, offset_y, 0, 0));
        }

        // Fill the entire map with water first; tiles loaded from the file overwrite it.
        let mut x: u16 = 0;
        while x < width
            invariant
                x <= width,
                offset_x + width <= u16::MAX,
                offset_y + height <= u16::MAX,
                map.wf(),
                map.area() == (width, height, offset_x, offset_y),
                map.respawn_at() == respawn,
                forall|p: Position| map.container(p) is None,
                map.tiles() == water_prefix(width, height, offset_x, offset_y, x as int, 0),
            decreases width - x,
        {
            let mut y: u16 = 0;
            while y < height
                invariant
                    x < width,
                    y <= height,
                    offset_x + width <= u16::MAX,
                    offset_y + height <= u16::MAX,
                    map.wf(),
                    map.area() == (width, height, offset_x, offset_y),
                    map.respawn_at() == respawn,
                    forall|p: Position| map.container(p) is None,
                    map.tiles() == water_prefix(width, height, offset_x, offset_y, x as int, y as int),
                decreases height - y,
            {
                let pos = Position::new(x + offset_x, y + offset_y, 7);
                proof {
                    assert(!map.tiles().contains_key(pos));
                    assert(map.tile(pos) is None);
                    assert(with_ground(Seq::empty(), 0x000E) =~= seq![TileObject::Ground(water())]);
                }
                map.set_ground(pos, 0x000E);
                y = y + 1;
                proof {
                    assert(map.tiles() =~= water_prefix(width, height, offset_x, offset_y, x as int, y as int));
                }
            }
            x = x + 1;
            proof {
                assert(map.tiles() =~= water_prefix(width, height, offset_x, offset_y, x as int, 0));
            }
        }
        proof {
            assert(map.tiles() =~= water_grid(width, height, offset_x, offset_y));
        }

        let ghost views = tiles@.map_values(|t: MapTile| t@);
        let ghost grid = water_grid(width, height, offset_x, offset_y);
        let mut i: usize = 0;
        while i < tiles.len()
            invariant
                i <= tiles@.len(),
                views == tiles@.map_values(|t: MapTile| t@),
                tile_map@ == table_view(|k: u16| spec_tile_id(k)),
                item_map@ == table_view(|k: u16| spec_item_id(k)),
                map.wf(),
                map.area() == (width, height, offset_x, offset_y),
                map.respawn_at() == respawn,
                forall|p: Position| map.container(p) is None,
                map.tiles() == load_tiles(grid, views.take(i as int)),
            decreases tiles.len() - i,
        {
            let t = &tiles[i];
            let pos = Position::new(t.x, t.y, 7);
            match t.tileid {
                Some(tileid) => {
                    let base = match tile_map.get(&tileid) {
                        Some(g) => *g,
                        None => 0x000E,
                    };
                    map.set_ground(pos, base);
                },
                None => {},
            }
            let ghost m1 = map.tiles();
            let n = t.items.len();
            let mut j: usize = n;
            proof {
                assert(t.items@.subrange(n as int, n as int) =~= Seq::<u16>::empty());
                assert(translated_items(Seq::<u16>::empty()) =~= Seq::<TileObject>::empty());
            }
            while j > 0
                invariant
                    j <= n == t.items@.len(),
                    item_map@ == table_view(|k: u16| spec_item_id(k)),
                    map.wf(),
                    map.area() == (width, height, offset_x, offset_y),
                    map.respawn_at() == respawn,
                    forall|p: Position| map.container(p) is None,
                    map.tiles() == (if translated_items(t.items@.subrange(j as int, n as int)).len() == 0 {
                        m1
                    } else {
                        m1.insert(pos, stack_at(m1, pos) + translated_items(t.items@.subrange(j as int, n as int)))
                    }),
                decreases j,
            {
                j = j - 1;
                let id = t.items[j];
                let mapped = match item_map.get(&id) {
                    Some(v) => *v,
                    None => 0x0000,
                };
                proof {
                    assert(t.items@.subrange(j as int, n as int) =~= seq![id] + t.items@.subrange(j + 1, n as int));
                    lemma_translated_prepend(id, t.items@.subrange(j + 1, n as int));
                }
                proof {
                    assert(mapped == match spec_item_id(id) {
                        Some(v) => v,
                        None => 0u16,
                    });
                    assert(stack_at(map.tiles(), pos) == match map.tile(pos) {
                        Some(s) => s,
                        None => Seq::empty(),
                    });
                }
                let ghost before = map.tiles();
                let ghost tp = translated_items(t.items@.subrange(j + 1, n as int));
                let ghost tn = translated_items(t.items@.subrange(j as int, n as int));
                if mapped != 0x0000 {
                    map.add_item(pos, mapped);
                    proof {
                        assert(tn =~= tp.push(TileObject::Item(mapped)));
                        assert(stack_at(before, pos) =~= (if tp.len() == 0 {
                            stack_at(m1, pos)
                        } else {
                            stack_at(m1, pos) + tp
                        }));
                        assert(stack_at(before, pos).push(TileObject::Item(mapped)) =~= stack_at(m1, pos) + tn);
                        assert(map.tiles() =~= m1.insert(pos, stack_at(m1, pos) + tn));
                    }
                } else {
                    proof {
                        assert(tn =~= tp);
                    }
                }
                proof {
                    assert(map.tiles() =~= (if translated_items(t.items@.subrange(j as int, n as int)).len() == 0 {
                        m1
                    } else {
                        m1.insert(pos, stack_at(m1, pos) + translated_items(t.items@.subrange(j as int, n as int)))
                    }));
                }
            }
            proof {
                assert(t.items@.subrange(0, n as int) =~= t.items@);
                assert(views.take(i + 1).drop_last() =~= views.take(i as int));
                assert(views.take(i + 1).last() == t@);
                assert(map.tiles() =~= load_tile(load_tiles(grid, views.take(i as int)), t@));
            }
            i = i + 1;
        }
        proof {
            assert(views.take(tiles@.len() as int) =~= views);
        }
        map
    }

    /// Sets the ground layer (stack position 0) of the tile at `pos`.
    fn set_ground(&mut self, pos: Position, id: u16)
        ensures
            final(self).tiles() == old(self).tiles().insert(
                pos,
                with_ground(
                    match old(self).tile(pos) {
                        Some(s) => s,
                        None => Seq::empty(),
                    },
                    id,
                ),
            ),
            forall|q: Position| final(self).container(q) == old(self).container(q),
            final(self).area() == old(self).area(),
            final(self).respawn_at() == old(self).respawn_at(),
    {
        let mut objects = self.take_tile(pos);
        if objects.len() == 0 {
            objects.push(TileObject::Ground(id));
        } else {
            objects.set(0, TileObject::Ground(id));
        }
        proof {
            assert(objects@ =~= with_ground(
                match old(self).tile(pos) {
                    Some(s) => s,
                    None => Seq::empty(),
                },
                id,
            ));
        }
        self.put_tile(pos, objects);
        proof {
            assert(self.tiles() =~= old(self).tiles().insert(pos, objects@));
            assert(self.contents() =~= old(self).contents());
            assert(old(self)@.tiles.contains_key(pos) ==> old(self)@.tiles[pos] == old(self).tile(pos)->0);
        }
    }

    /// Appends an item on top of the ground layer at `pos`.
    fn add_item(&mut self, pos: Position, id: u16)
        ensures
            final(self).tiles() == old(self).tiles().insert(
                pos,
                match old(self).tile(pos) {
                    Some(s) => s,
                    None => Seq::empty(),
                }.push(TileObject::Item(id)),
            ),
            forall|q: Position| final(self).container(q) == old(self).container(q),
            final(self).area() == old(self).area(),
            final(self).respawn_at() == old(self).respawn_at(),
    {
        let mut objects = self.take_tile(pos);
        objects.push(TileObject::Item(id));
        self.put_tile(pos, objects);
        proof {
            assert(self.tiles() =~= old(self).tiles().insert(pos, objects@));
            assert(self.contents() =~= old(self).contents());
            assert(old(self)@.tiles.contains_key(pos) ==> old(self)@.tiles[pos] == old(self).tile(pos)->0);
        }
    }

    /// Returns the object stack for the tile at `pos`, if it is in bounds.
    ///
    /// Positions outside the map boundary return `None`.
    pub fn get_tile_objects(&self, pos: Position) -> (r: Option<&[TileObject]>)
        requires
            self.wf(),
        ensures
            match r {
                Some(s) => self.in_bounds(pos) && self.tile(pos) == Some(s@),
                None => !self.in_bounds(pos) || self.tile(pos) is None,
            },
            self@.visible_tile(pos) == match r {
                Some(s) => Some(s@),
                None => None::<Seq<TileObject>>,
            },
    {
        let in_bounds = pos.x >= self.offset_x && pos.x < self.offset_x + self.width && pos.y
            >= self.offset_y && pos.y < self.offset_y + self.height;
        if in_bounds {
            match self.tiles.get(&key_of(pos)) {
                Some(t) => Some(t.objects.as_slice()),
                None => None,
            }
        } else {
            None
        }
    }

    /// Removes the first item with `item_id` from the tile at `pos`.
    ///
    /// Returns `true` if an item was removed, `false` if none was found.
    pub fn remove_item(&mut self, pos: Position, item_id: u16) -> (removed: bool)
        ensures
            removed == (old(self).tile(pos) matches Some(s) && s.contains(TileObject::Item(item_id))),
            removed ==> final(self).tiles() == old(self).tiles().insert(
                pos,
                remove_first(old(self).tile(pos)->0, TileObject::Item(item_id)),
            ),
            !removed ==> final(self).tiles() == old(self).tiles(),
            forall|q: Position| final(self).container(q) == old(self).container(q),
            final(self).area() == old(self).area(),
            final(self).respawn_at() == old(self).respawn_at(),
            final(self)@ == old(self)@.with_item_removed(pos, item_id),
    {
        let k = key_of(pos);
        if !self.tiles.contains_key(&k) {
            return false;
        }
        let mut objects = self.take_tile(pos);
        let target = TileObject::Item(item_id);
        let removed = match find_object(&objects, target) {
            Some(idx) => {
                proof {
                    crate::util::lemma_remove_first_at(objects@, target, idx as int);
                }
                objects.remove(idx);
                true
            },
            None => false,
        };
        proof {
            if !removed {
                crate::util::lemma_remove_first_absent(objects@, target);
            }
        }
        self.put_tile(pos, objects);
        proof {
            assert(self.tiles() =~= old(self).tiles().insert(pos, objects@));
            if !removed {
                assert(old(self).tiles().insert(pos, objects@) =~= old(self).tiles());
            }
            assert(self.contents() =~= old(self).contents());
            assert(old(self)@.tiles.contains_key(pos));
            assert(old(self)@.tiles[pos] == old(self).tile(pos)->0);
        }
        removed
    }

    /// Places an item on top of the tile's stack at `pos`, creating the tile if needed.
    ///
    /// Used for drops, throws, and pushes - the item always ends up as the new topmost
    /// item, directly above the ground layer (the first item after the ground is the
    /// topmost one).
    pub fn add_item_to_tile(&mut self, pos: Position, item_id: u16)
        ensures
            final(self).tiles() == old(self).tiles().insert(
                pos,
                insert_on_top(
                    match old(self).tile(pos) {
                        Some(s) => s,
                        None => Seq::empty(),
                    },
                    TileObject::Item(item_id),
                ),
            ),
            forall|q: Position| final(self).container(q) == old(self).container(q),
            final(self).area() == old(self).area(),
            final(self).respawn_at() == old(self).respawn_at(),
            final(self)@ == old(self)@.with_item_added(pos, item_id),
    {
        let mut objects = self.take_tile(pos);
        let index: usize = if objects.len() == 0 { 0 } else { 1 };
        objects.insert(index, TileObject::Item(item_id));
        proof {
            assert(objects@ =~= insert_on_top(
                match old(self).tile(pos) {
                    Some(s) => s,
                    None => Seq::empty(),
                },
                TileObject::Item(item_id),
            ));
        }
        self.put_tile(pos, objects);
        proof {
            assert(self.tiles() =~= old(self).tiles().insert(pos, objects@));
            assert(self.contents() =~= old(self).contents());
            assert(old(self)@.tiles.contains_key(pos) ==> old(self)@.tiles[pos] == old(self).tile(pos)->0);
        }
    }

    /// Returns the persistent item list for a container at `pos`, if any.
    pub fn get_container_contents(&self, pos: Position) -> (r: Option<&Vec<u16>>)
        ensures
            match r {
                Some(v) => self.container(pos) == Some(v@),
                None => self.container(pos) is None,
            },
    {
        self.container_contents.get(&key_of(pos))
    }

    /// Saves the item list for a container at `pos` into persistent map state.
    pub fn set_container_contents(&mut self, pos: Position, items: Vec<u16>)
        ensures
            final(self).container(pos) == Some(items@),
            forall|q: Position| q != pos ==> final(self).container(q) == old(self).container(q),
            final(self).tiles() == old(self).tiles(),
            final(self).area() == old(self).area(),
            final(self).respawn_at() == old(self).respawn_at(),
            final(self)@ == old(self)@.with_contents(pos, items@),
    {
        self.container_contents.insert(key_of(pos), items);
        proof {
            assert forall|q: Position| q != pos implies self.container(q) == old(self).container(q) by {
                lemma_key_injective(q, pos);
            }
            assert(self.tiles() =~= old(self).tiles());
            assert(self.contents() =~= old(self).contents().insert(pos, items@));
        }
    }

    /// Removes and returns the persisted item list for a container at `pos`, if any.
    ///
    /// Used when a container is moved on the map - its contents must follow it to the
    /// new tile position rather than remaining keyed under the old one.
    pub fn take_container_contents(&mut self, pos: Position) -> (r: Option<Vec<u16>>)
        ensures
            match r {
                Some(v) => old(self).container(pos) == Some(v@),
                None => old(self).container(pos) is None,
            },
            final(self).container(pos) is None,
            forall|q: Position| q != pos ==> final(self).container(q) == old(self).container(q),
            final(self).tiles() == old(self).tiles(),
            final(self).area() == old(self).area(),
            final(self).respawn_at() == old(self).respawn_at(),
            final(self)@ == old(self)@.without_contents(pos),
            match r {
                Some(v) => old(self)@.containers.contains_key(pos) && old(self)@.containers[pos] == v@,
                None => !old(self)@.containers.contains_key(pos),
            },
    {
        let r = self.container_contents.remove(&key_of(pos));
        proof {
            assert forall|q: Position| q != pos implies self.container(q) == old(self).container(q) by {
                lemma_key_injective(q, pos);
            }
            assert(self.tiles() =~= old(self).tiles());
            assert(self.contents() =~= old(self).contents().remove(pos));
        }
        r
    }
}

/// One tile of a map file: its position, an optional Tibia 8.60 ground id and the
/// Tibia 8.60 ids of the items on it, bottom first.
#[derive(Debug)]
pub struct MapTile {
    pub x: u16,
    pub y: u16,
    pub tileid: Option<u16>,
    pub items: Vec<u16>,
}

/// The abstract content of a map-file tile.
pub struct MapTileView {
    pub x: u16,
    pub y: u16,
    pub tileid: Option<u16>,
    pub items: Seq<u16>,
}

impl View for MapTile {
    type V = MapTileView;

    open spec fn view(&self) -> MapTileView {
        MapTileView { x: self.x, y: self.y, tileid: self.tileid, items: self.items@ }
    }
}

/// The ground id water (`0x000E`), which fills every tile the map file does not set.
pub open spec fn water() -> u16 {
    0x000E
}

/// Every ground-floor tile of the playable area, covered in water.
pub open spec fn water_grid(w: u16, h: u16, ox: u16, oy: u16) -> vstd::map::Map<Position, Seq<TileObject>> {
    vstd::map::Map::new(
        |p: Position| p.z == 7 && ox <= p.x < ox + w && oy <= p.y < oy + h,
        |p: Position| seq![TileObject::Ground(water())],
    )
}

/// The objects stacked at `p` (none if there is no tile).
pub open spec fn stack_at(m: vstd::map::Map<Position, Seq<TileObject>>, p: Position) -> Seq<TileObject> {
    if m.contains_key(p) {
        m[p]
    } else {
        Seq::empty()
    }
}

/// The Tibia 1.03 items for a list of Tibia 8.60 item ids, topmost (last) first; unknown
/// ids are left out.
pub open spec fn translated_items(items: Seq<u16>) -> Seq<TileObject>
    decreases items.len(),
{
    if items.len() == 0 {
        Seq::empty()
    } else {
        let rest = translated_items(items.drop_last());
        match spec_item_id(items.last()) {
            Some(v) => if v != 0 {
                seq![TileObject::Item(v)] + rest
            } else {
                rest
            },
            None => rest,
        }
    }
}

/// The map after applying one map-file tile: its ground is translated (unknown ground
/// ids become water) and its known items are stacked on top, topmost first.
pub open spec fn load_tile(m: vstd::map::Map<Position, Seq<TileObject>>, t: MapTileView) -> vstd::map::Map<Position, Seq<TileObject>> {
    let pos = Position { x: t.x, y: t.y, z: 7 };
    let m1 = match t.tileid {
        Some(id) => m.insert(
            pos,
            with_ground(
                stack_at(m, pos),
                match spec_tile_id(id) {
                    Some(g) => g,
                    None => water(),
                },
            ),
        ),
        None => m,
    };
    let objs = translated_items(t.items);
    if objs.len() == 0 {
        m1
    } else {
        m1.insert(pos, stack_at(m1, pos) + objs)
    }
}

/// The map after applying a list of map-file tiles in order.
pub open spec fn load_tiles(m: vstd::map::Map<Position, Seq<TileObject>>, ts: Seq<MapTileView>) -> vstd::map::Map<Position, Seq<TileObject>>
    decreases ts.len(),
{
    if ts.len() == 0 {
        m
    } else {
        load_tile(load_tiles(m, ts.drop_last()), ts.last())
    }
}

proof fn lemma_translated_prepend(a: u16, t: Seq<u16>)
    ensures
        translated_items(seq![a] + t) == translated_items(t) + match spec_item_id(a) {
            Some(v) => if v != 0 { seq![TileObject::Item(v)] } else { Seq::empty() },
            None => Seq::empty(),
        },
    decreases t.len(),
{
    let s = seq![a] + t;
    if t.len() == 0 {
        assert(s.drop_last() =~= Seq::<u16>::empty());
        assert(s.last() == a);
        assert(translated_items(Seq::<u16>::empty()) =~= Seq::<TileObject>::empty());
        assert(translated_items(s) =~= translated_items(t) + match spec_item_id(a) {
            Some(v) => if v != 0 { seq![TileObject::Item(v)] } else { Seq::empty() },
            None => Seq::empty(),
        });
    } else {
        assert(s.drop_last() =~= seq![a] + t.drop_last());
        assert(s.last() == t.last());
        lemma_translated_prepend(a, t.drop_last());
        assert(translated_items(s) =~= translated_items(t) + match spec_item_id(a) {
            Some(v) => if v != 0 { seq![TileObject::Item(v)] } else { Seq::empty() },
            None => Seq::empty(),
        });
    }
}

/// The water-covered part of the playable area filled so far: all columns before `x`,
/// and the first `y` rows of column `x`.
spec fn water_prefix(w: u16, h: u16, ox: u16, oy: u16, x: int, y: int) -> vstd::map::Map<Position, Seq<TileObject>> {
    vstd::map::Map::new(
        |p: Position| p.z == 7 && oy <= p.y < oy + h && ox <= p.x && (p.x < ox + x || (p.x == ox + x && p.y < oy + y)),
        |p: Position| seq![TileObject::Ground(water())],
    )
}

/// The Tibia 1.03 tile id for a Tibia 8.60 tile id, if it has one.
pub open spec fn spec_tile_id(id: u16) -> Option<u16> {
    if 1016 <= id <= 1024 {
        Some((0x3313 + (id - 1016) * 0x0100) as u16)
    } else if 967 <= id <= 1015 {
        Some((0x0213 + (id - 967) * 0x0100) as u16)
    } else {
        match id {
            1284 => Some(0x011Bu16),
            4566 => Some(0x030Au16),
            4554 => Some(0x1040u16),
            351 => Some(0x010Au16),
            352 => Some(0xB20Au16),
            353 => Some(0x120Au16),
            405 => Some(0x000Cu16),
            406 => Some(0x010Cu16),
            4526 => Some(0x000Au16),
            424 => Some(0x1C0Cu16),
            104 => Some(0x020Au16),
            4405 => Some(0x050Au16),
            4608 => Some(0x000Eu16),
            280 => Some(0xB20Au16),
            100 => Some(0x0001u16),
            966 => Some(0x0013u16),
            965 => Some(0x0113u16),
            _ => None,
        }
    }
}

/// The Tibia 1.03 item id for a Tibia 8.60 item id, if it has one.
pub open spec fn spec_item_id(id: u16) -> Option<u16> {
    match id {
        2376 => Some(0x005Au16),
        2007 => Some(0x023Eu16),
        2561 => Some(0x0069u16),
        2693 => Some(0x0187u16),
        2692 => Some(0x0087u16),
        2689 => Some(0x0086u16),
        1207 => Some(0x0216u16),
        1208 => Some(0x0316u16),
        1027 => Some(0x0214u16),
        1028 => Some(0x0114u16),
        1030 => Some(0x0014u16),
        1035 => Some(0x0614u16),
        1636 => Some(0x020Cu16),
        2767 => Some(0x00A3u16),
        2702 => Some(0x03A0u16),
        1740 => Some(0x032Bu16),
        1771 => Some(0x042Du16),
        1481 => Some(0x0072u16),
        2555 => Some(0x0066u16),
        1987 => Some(0x013Du16),
        1774 => Some(0x052Du16),
        2047 => Some(0x0B41u16),
        1945 => Some(0x0033u16),
        1946 => Some(0x0133u16),
        17751 => Some(0x062Du16),
        1775 => Some(0x072Du16),
        1038 => Some(0x1114u16),
        1039 => Some(0x1014u16),
        1040 => Some(0x1314u16),
        1041 => Some(0x1414u16),
        2509 => Some(0x005Du16),
        1754 => Some(0x002Cu16),
        1755 => Some(0x012Cu16),
        1443 => Some(0x0023u16),
        2562 => Some(0x0369u16),
        2378 => Some(0x025Au16),
        2389 => Some(0x0D5Au16),
        2377 => Some(0x015Au16),
        2666 => Some(0x0282u16),
        1717 => Some(0x072Au16),
        1360 => Some(0x001Du16),
        1361 => Some(0x011Du16),
        1362 => Some(0x021Du16),
        1363 => Some(0x031Du16),
        2624 => Some(0x0077u16),
        2625 => Some(0x0177u16),
        2632 => Some(0x0277u16),
        2633 => Some(0x0377u16),
        2634 => Some(0x0477u16),
        2635 => Some(0x0577u16),
        2636 => Some(0x0677u16),
        2637 => Some(0x0777u16),
        2626 => Some(0x0877u16),
        2627 => Some(0x0977u16),
        2628 => Some(0x0A77u16),
        2629 => Some(0x0B77u16),
        2630 => Some(0x0C77u16),
        2631 => Some(0x0D77u16),
        2638 => Some(0x0E77u16),
        2639 => Some(0x0F77u16),
        _ => None,
    }
}

/// A translation table as a map from the ids it knows.
pub open spec fn table_view(f: spec_fn(u16) -> Option<u16>) -> vstd::map::Map<u16, u16> {
    vstd::map::Map::new(|k: u16| f(k) is Some, |k: u16| f(k)->0)
}

/// Maps Tibia 8.60 tile ids (from Remere's Map Editor / OTBM) to Tibia 1.03 tile ids.
///
/// Only tiles that existed in Tibia 1.03 are listed.
pub fn tile_id_map() -> (m: HashMap<u16, u16>)
    ensures
        m@ == table_view(|k: u16| spec_tile_id(k)),
{
    let mut m: HashMap<u16, u16> = HashMap::new();
    m.insert(1284, 0x011B); // a drawbridge
    m.insert(4566, 0x030A); // gravel
    m.insert(4554, 0x1040); // gravel (border)
    m.insert(351, 0x010A); // dirt floor
    m.insert(352, 0xB20A); // dirt floor
    m.insert(353, 0x120A); // dirt floor
    m.insert(405, 0x000C); // wooden floor
    m.insert(406, 0x010C); // white marble floor
    m.insert(4526, 0x000A); // grass
    m.insert(424, 0x1C0C); // a stone tile
    m.insert(104, 0x020A); // sand
    m.insert(4405, 0x050A); // rock soil
    m.insert(4608, 0x000E); // water
    m.insert(280, 0xB20A); // dirt floor (textured with lines)
    m.insert(100, 0x0001); // void
    m.insert(966, 0x0013); // chess board (black)
    m.insert(965, 0x0113); // chess board (white)

    // Tic-tac-toe board variants (9 tiles, ids 1016–1024).
    let mut i: u16 = 0;
    while i < 9
        invariant
            i <= 9,
            forall|k: u16| #[trigger] m@.contains_key(k) && 1016 <= k <= 1024 ==> k < 1016 + i,
            forall|k: u16| 1016 <= k < 1016 + i ==> #[trigger] m@.contains_key(k) && m@[k] == spec_tile_id(k)->0,
            forall|k: u16| !(1016 <= k <= 1024) ==> (#[trigger] m@.contains_key(k) <==> (spec_tile_id(k) is Some && !(967 <= k <= 1015))),
            forall|k: u16| !(1016 <= k <= 1024) && #[trigger] m@.contains_key(k) ==> m@[k] == spec_tile_id(k)->0,
        decreases 9 - i,
    {
        m.insert(1016 + i, 0x3313 + i * 0x0100);
        i = i + 1;
    }

    // Mill board variants (49 tiles, ids 967–1015).
    let mut i: u16 = 0;
    while i < 49
        invariant
            i <= 49,
            forall|k: u16| #[trigger] m@.contains_key(k) && 967 <= k <= 1015 ==> k < 967 + i,
            forall|k: u16| 967 <= k < 967 + i ==> #[trigger] m@.contains_key(k) && m@[k] == spec_tile_id(k)->0,
            forall|k: u16| !(967 <= k <= 1015) ==> (#[trigger] m@.contains_key(k) <==> spec_tile_id(k) is Some),
            forall|k: u16| !(967 <= k <= 1015) && #[trigger] m@.contains_key(k) ==> m@[k] == spec_tile_id(k)->0,
        decreases 49 - i,
    {
        m.insert(967 + i, 0x0213 + i * 0x0100);
        i = i + 1;
    }
    proof {
        assert(m@ =~= table_view(|k: u16| spec_tile_id(k)));
    }
    m
}

/// Maps Tibia 8.60 item ids (from Remere's Map Editor / OTBM) to Tibia 1.03 item ids.
///
/// Only items that existed in Tibia 1.03 are listed.
pub fn item_id_map() -> (m: HashMap<u16, u16>)
    ensures
        m@ == table_view(|k: u16| spec_item_id(k)),
{
    let mut m: HashMap<u16, u16> = HashMap::new();
    m.insert(2376, 0x005A); // a sword
    m.insert(2007, 0x023E); // a bottle
    m.insert(2561, 0x0069); // a baking tray
    m.insert(2693, 0x0187); // a lump of dough
    m.insert(2692, 0x0087); // flour
    m.insert(2689, 0x0086); // bread
    m.insert(1207, 0x0216); // an archway
    m.insert(1208, 0x0316); // an archway
    m.insert(1027, 0x0214); // a brick wall
    m.insert(1028, 0x0114); // a brick wall
    m.insert(1030, 0x0014); // a brick wall
    m.insert(1035, 0x0614); // a brick wall
    m.insert(1636, 0x020C); // a passthrough
    m.insert(2767, 0x00A3); // a bush
    m.insert(2702, 0x03A0); // a willow
    m.insert(1740, 0x032B); // a chest
    m.insert(1771, 0x042D); // a beer cask
    m.insert(1481, 0x0072); // a coal basin
    m.insert(2555, 0x0066); // an anvil
    m.insert(1987, 0x013D); // a bag
    m.insert(1774, 0x052D); // a barrel
    m.insert(2047, 0x0B41); // a candlestick
    m.insert(1945, 0x0033); // a lever
    m.insert(1946, 0x0133); // a lever
    m.insert(17751, 0x062D); // a trough of water
    m.insert(1775, 0x072D); // a trough
    m.insert(1038, 0x1114); // a framework wall
    m.insert(1039, 0x1014); // a framework wall
    m.insert(1040, 0x1314); // a framework wall
    m.insert(1041, 0x1414); // a framework wall
    m.insert(2509, 0x005D); // a steel shield
    m.insert(1754, 0x002C); // a bed
    m.insert(1755, 0x012C); // a bed
    m.insert(1443, 0x0023); // a knight statue
    m.insert(2562, 0x0369); // a pot
    m.insert(2378, 0x025A); // a battle axe
    m.insert(2389, 0x0D5A); // a spear
    m.insert(2377, 0x015A); // a two-handed sword
    m.insert(2666, 0x0282); // meat
    m.insert(1717, 0x072A); // a chest of drawers
    m.insert(1360, 0x001D); // a fountain
    m.insert(1361, 0x011D); // a fountain
    m.insert(1362, 0x021D); // a fountain
    m.insert(1363, 0x031D); // a fountain
    m.insert(2624, 0x0077); // a black token
    m.insert(2625, 0x0177); // a white token
    m.insert(2632, 0x0277); // a black pawn
    m.insert(2633, 0x0377); // a black castle
    m.insert(2634, 0x0477); // a black knight
    m.insert(2635, 0x0577); // a black bishop
    m.insert(2636, 0x0677); // a black queen
    m.insert(2637, 0x0777); // a black king
    m.insert(2626, 0x0877); // a white pawn
    m.insert(2627, 0x0977); // a white castle
    m.insert(2628, 0x0A77); // a white knight
    m.insert(2629, 0x0B77); // a white bishop
    m.insert(2630, 0x0C77); // a white queen
    m.insert(2631, 0x0D77); // a white king
    m.insert(2638, 0x0E77); // a tic-tac-toe token
    m.insert(2639, 0x0F77); // a tic-tac-toe token
    proof {
        assert(m@ =~= table_view(|k: u16| spec_item_id(k)));
    }
    m
}

/// Placing an item on a stored stack and then removing that item gives the map back.
pub proof fn lemma_add_then_remove(m: MapView, pos: Position, id: u16)
    requires
        m.tiles.contains_key(pos),
    ensures
        m.with_item_added(pos, id).with_item_removed(pos, id) == m,
{
    let s = m.tiles[pos];
    let x = TileObject::Item(id);
    let t = insert_on_top(s, x);
    assert(t.contains(x)) by {
        if s.len() == 0 {
            assert(t[0] == x);
        } else {
            assert(t[1] == x);
        }
    }
    assert(remove_first(t, x) == s) by {
        if s.len() == 0 {
            assert(t.drop_first() =~= s);
        } else if s[0] == x {
            assert(t.drop_first() =~= s);
        } else {
            let u = t.drop_first();
            assert(u =~= seq![x] + s.drop_first());
            assert(u[0] == x);
            assert(remove_first(u, x) == u.drop_first());
            assert(u.drop_first() =~= s.drop_first());
            assert(t[0] == s[0]);
            assert(remove_first(t, x) == seq![t[0]] + remove_first(u, x));
            assert(seq![s[0]] + s.drop_first() =~= s);
        }
    }
    let m1 = m.with_item_added(pos, id);
    assert(m1.tiles[pos] == t);
    assert(m1.with_item_removed(pos, id).tiles =~= m.tiles);
}

/// Saved container contents read back as saved, and saving at one position leaves the
/// others alone.
pub proof fn lemma_contents_round_trip(m: MapView, pos: Position, items: Seq<u16>, q: Position)
    ensures
        m.with_contents(pos, items).containers.contains_key(pos),
        m.with_contents(pos, items).containers[pos] == items,
        q != pos ==> m.with_contents(pos, items).containers.contains_key(q) == m.containers.contains_key(q),
        q != pos ==> m.with_contents(pos, items).containers[q] == m.containers[q],
        !m.with_contents(pos, items).without_contents(pos).containers.contains_key(pos),
{
}

/// Saved contents at `pos` stay as they are while contents at another position are
/// saved or taken and while items are placed on or removed from any tile, so a later
/// take at `pos` gives back what was saved there, and leaves nothing saved at `pos`.
pub proof fn lemma_contents_kept(m: MapView, pos: Position, q: Position, items: Seq<u16>, t: Position, id: u16)
    requires
        q != pos,
    ensures
        m.with_contents(q, items).containers.contains_key(pos) == m.containers.contains_key(pos),
        m.with_contents(q, items).containers[pos] == m.containers[pos],
        m.without_contents(q).containers.contains_key(pos) == m.containers.contains_key(pos),
        m.without_contents(q).containers[pos] == m.containers[pos],
        m.with_item_added(t, id).containers == m.containers,
        m.with_item_removed(t, id).containers == m.containers,
        !m.without_contents(pos).containers.contains_key(pos),
{
}

/// The item table knows 60 Tibia 8.60 item ids, and each maps to a non-zero Tibia 1.03
/// id that has a name.
#[verifier::spinoff_prover]
#[verifier::rlimit(100)]
pub proof fn lemma_item_table()
    ensures
        forall|k: u16| #[trigger] spec_item_id(k) is Some ==> spec_item_id(k)->0 != 0 && items::spec_item_name(spec_item_id(k)->0) != "unknown"@,
        table_view(|k: u16| spec_item_id(k)).dom().len() == 60,
{
    let ids = set![2376u16, 2007, 2561, 2693, 2692, 2689, 1207, 1208, 1027, 1028, 1030, 1035, 1636, 2767, 2702, 1740, 1771, 1481, 2555, 1987, 1774, 2047, 1945, 1946, 17751, 1775, 1038, 1039, 1040, 1041, 2509, 1754, 1755, 1443, 2562, 2378, 2389, 2377, 2666, 1717, 1360, 1361, 1362, 1363, 2624, 2625, 2632, 2633, 2634, 2635, 2636, 2637, 2626, 2627, 2628, 2629, 2630, 2631, 2638, 2639];
    assert(items::spec_item_name(20) == "a brick wall"@);
    assert(items::spec_item_name(20) != "unknown"@) by {
        reveal_strlit("unknown");
        reveal_strlit("a brick wall");
        assert("a brick wall"@[0] != "unknown"@[0]);
    }
    assert(items::spec_item_name(29) == "a fountain"@);
    assert(items::spec_item_name(29) != "unknown"@) by {
        reveal_strlit("unknown");
        reveal_strlit("a fountain");
        assert("a fountain"@[0] != "unknown"@[0]);
    }
    assert(items::spec_item_name(35) == "a knight statue"@);
    assert(items::spec_item_name(35) != "unknown"@) by {
        reveal_strlit("unknown");
        reveal_strlit("a knight statue");
        assert("a knight statue"@[0] != "unknown"@[0]);
    }
    assert(items::spec_item_name(44) == "a bed"@);
    assert(items::spec_item_name(44) != "unknown"@) by {
        reveal_strlit("unknown");
        reveal_strlit("a bed");
        assert("a bed"@[0] != "unknown"@[0]);
    }
    assert(items::spec_item_name(51) == "a lever"@);
    assert(items::spec_item_name(51) != "unknown"@) by {
        reveal_strlit("unknown");
        reveal_strlit("a lever");
        assert("a lever"@[0] != "unknown"@[0]);
    }
    assert(items::spec_item_name(90) == "a sword"@);
    assert(items::spec_item_name(90) != "unknown"@) by {
        reveal_strlit("unknown");
        reveal_strlit("a sword");
        assert("a sword"@[0] != "unknown"@[0]);
    }
    assert(items::spec_item_name(93) == "a steel shield"@);
    assert(items::spec_item_name(93) != "unknown"@) by {
        reveal_strlit("unknown");
        reveal_strlit("a steel shield");
        assert("a steel shield"@[0] != "unknown"@[0]);
    }
    assert(items::spec_item_name(102) == "an anvil"@);
    assert(items::spec_item_name(102) != "unknown"@) by {
        reveal_strlit("unknown");
        reveal_strlit("an anvil");
        assert("an anvil"@[0] != "unknown"@[0]);
    }
    assert(items::spec_item_name(105) == "a baking tray"@);
    assert(items::spec_item_name(105) != "unknown"@) by {
        reveal_strlit("unknown");
        reveal_strlit("a baking tray");
        assert("a baking tray"@[0] != "unknown"@[0]);
    }
    assert(items::spec_item_name(114) == "a coal basin"@);
    assert(items::spec_item_name(114) != "unknown"@) by {
        reveal_strlit("unknown");
        reveal_strlit("a coal basin");
        assert("a coal basin"@[0] != "unknown"@[0]);
    }
    assert(items::spec_item_name(119) == "a black token"@);
    assert(items::spec_item_name(119) != "unknown"@) by {
        reveal_strlit("unknown");
        reveal_strlit("a black token");
        assert("a black token"@[0] != "unknown"@[0]);
    }
    assert(items::spec_item_name(134) == "bread"@);
    assert(items::spec_item_name(134) != "unknown"@) by {
        reveal_strlit("unknown");
        reveal_strlit("bread");
        assert("bread"@[0] != "unknown"@[0]);
    }
    assert(items::spec_item_name(135) == "flour"@);
    assert(items::spec_item_name(135) != "unknown"@) by {
        reveal_strlit("unknown");
        reveal_strlit("flour");
        assert("flour"@[0] != "unknown"@[0]);
    }
    assert(items::spec_item_name(163) == "a bush"@);
    assert(items::spec_item_name(163) != "unknown"@) by {
        reveal_strlit("unknown");
        reveal_strlit("a bush");
        assert("a bush"@[0] != "unknown"@[0]);
    }
    assert(items::spec_item_name(276) == "a brick wall"@);
    assert(items::spec_item_name(276) != "unknown"@) by {
        reveal_strlit("unknown");
        reveal_strlit("a brick wall");
        assert("a brick wall"@[0] != "unknown"@[0]);
    }
    assert(items::spec_item_name(285) == "a fountain"@);
    assert(items::spec_item_name(285) != "unknown"@) by {
        reveal_strlit("unknown");
        reveal_strlit("a fountain");
        assert("a fountain"@[0] != "unknown"@[0]);
    }
    assert(items::spec_item_name(300) == "a bed"@);
    assert(items::spec_item_name(300) != "unknown"@) by {
        reveal_strlit("unknown");
        reveal_strlit("a bed");
        assert("a bed"@[0] != "unknown"@[0]);
    }
    assert(items::spec_item_name(307) == "a lever"@);
    assert(items::spec_item_name(307) != "unknown"@) by {
        reveal_strlit("unknown");
        reveal_strlit("a lever");
        assert("a lever"@[0] != "unknown"@[0]);
    }
    assert(items::spec_item_name(317) == "a bag"@);
    assert(items::spec_item_name(317) != "unknown"@) by {
        reveal_strlit("unknown");
        reveal_strlit("a bag");
        assert("a bag"@[0] != "unknown"@[0]);
    }
    assert(items::spec_item_name(346) == "a two-handed sword"@);
    assert(items::spec_item_name(346) != "unknown"@) by {
        reveal_strlit("unknown");
        reveal_strlit("a two-handed sword");
        assert("a two-handed sword"@[0] != "unknown"@[0]);
    }
    assert(items::spec_item_name(375) == "a white token"@);
    assert(items::spec_item_name(375) != "unknown"@) by {
        reveal_strlit("unknown");
        reveal_strlit("a white token");
        assert("a white token"@[0] != "unknown"@[0]);
    }
    assert(items::spec_item_name(391) == "a lump of dough"@);
    assert(items::spec_item_name(391) != "unknown"@) by {
        reveal_strlit("unknown");
        reveal_strlit("a lump of dough");
        assert("a lump of dough"@[0] != "unknown"@[0]);
    }
    assert(items::spec_item_name(524) == "a passthrough"@);
    assert(items::spec_item_name(524) != "unknown"@) by {
        reveal_strlit("unknown");
        reveal_strlit("a passthrough");
        assert("a passthrough"@[0] != "unknown"@[0]);
    }
    assert(items::spec_item_name(532) == "a brick wall"@);
    assert(items::spec_item_name(532) != "unknown"@) by {
        reveal_strlit("unknown");
        reveal_strlit("a brick wall");
        assert("a brick wall"@[0] != "unknown"@[0]);
    }
    assert(items::spec_item_name(534) == "an archway"@);
    assert(items::spec_item_name(534) != "unknown"@) by {
        reveal_strlit("unknown");
        reveal_strlit("an archway");
        assert("an archway"@[0] != "unknown"@[0]);
    }
    assert(items::spec_item_name(541) == "a fountain"@);
    assert(items::spec_item_name(541) != "unknown"@) by {
        reveal_strlit("unknown");
        reveal_strlit("a fountain");
        assert("a fountain"@[0] != "unknown"@[0]);
    }
    assert(items::spec_item_name(574) == "a bottle"@);
    assert(items::spec_item_name(574) != "unknown"@) by {
        reveal_strlit("unknown");
        reveal_strlit("a bottle");
        assert("a bottle"@[0] != "unknown"@[0]);
    }
    assert(items::spec_item_name(602) == "a battle axe"@);
    assert(items::spec_item_name(602) != "unknown"@) by {
        reveal_strlit("unknown");
        reveal_strlit("a battle axe");
        assert("a battle axe"@[0] != "unknown"@[0]);
    }
    assert(items::spec_item_name(631) == "a black pawn"@);
    assert(items::spec_item_name(631) != "unknown"@) by {
        reveal_strlit("unknown");
        reveal_strlit("a black pawn");
        assert("a black pawn"@[0] != "unknown"@[0]);
    }
    assert(items::spec_item_name(642) == "meat"@);
    assert(items::spec_item_name(642) != "unknown"@) by {
        reveal_strlit("unknown");
        reveal_strlit("meat");
        assert("meat"@[0] != "unknown"@[0]);
    }
    assert(items::spec_item_name(790) == "an archway"@);
    assert(items::spec_item_name(790) != "unknown"@) by {
        reveal_strlit("unknown");
        reveal_strlit("an archway");
        assert("an archway"@[0] != "unknown"@[0]);
    }
    assert(items::spec_item_name(797) == "a fountain"@);
    assert(items::spec_item_name(797) != "unknown"@) by {
        reveal_strlit("unknown");
        reveal_strlit("a fountain");
        assert("a fountain"@[0] != "unknown"@[0]);
    }
    assert(items::spec_item_name(811) == "a chest"@);
    assert(items::spec_item_name(811) != "unknown"@) by {
        reveal_strlit("unknown");
        reveal_strlit("a chest");
        assert("a chest"@[0] != "unknown"@[0]);
    }
    assert(items::spec_item_name(873) == "a pot"@);
    assert(items::spec_item_name(873) != "unknown"@) by {
        reveal_strlit("unknown");
        reveal_strlit("a pot");
        assert("a pot"@[0] != "unknown"@[0]);
    }
    assert(items::spec_item_name(887) == "a black castle"@);
    assert(items::spec_item_name(887) != "unknown"@) by {
        reveal_strlit("unknown");
        reveal_strlit("a black castle");
        assert("a black castle"@[0] != "unknown"@[0]);
    }
    assert(items::spec_item_name(928) == "a willow"@);
    assert(items::spec_item_name(928) != "unknown"@) by {
        reveal_strlit("unknown");
        reveal_strlit("a willow");
        assert("a willow"@[0] != "unknown"@[0]);
    }
    assert(items::spec_item_name(1069) == "a beer cask"@);
    assert(items::spec_item_name(1069) != "unknown"@) by {
        reveal_strlit("unknown");
        reveal_strlit("a beer cask");
        assert("a beer cask"@[0] != "unknown"@[0]);
    }
    assert(items::spec_item_name(1143) == "a black knight"@);
    assert(items::spec_item_name(1143) != "unknown"@) by {
        reveal_strlit("unknown");
        reveal_strlit("a black knight");
        assert("a black knight"@[0] != "unknown"@[0]);
    }
    assert(items::spec_item_name(1325) == "a barrel"@);
    assert(items::spec_item_name(1325) != "unknown"@) by {
        reveal_strlit("unknown");
        reveal_strlit("a barrel");
        assert("a barrel"@[0] != "unknown"@[0]);
    }
    assert(items::spec_item_name(1399) == "a black bishop"@);
    assert(items::spec_item_name(1399) != "unknown"@) by {
        reveal_strlit("unknown");
        reveal_strlit("a black bishop");
        assert("a black bishop"@[0] != "unknown"@[0]);
    }
    assert(items::spec_item_name(1556) == "a brick wall"@);
    assert(items::spec_item_name(1556) != "unknown"@) by {
        reveal_strlit("unknown");
        reveal_strlit("a brick wall");
        assert("a brick wall"@[0] != "unknown"@[0]);
    }
    assert(items::spec_item_name(1581) == "a trough of water"@);
    assert(items::spec_item_name(1581) != "unknown"@) by {
        reveal_strlit("unknown");
        reveal_strlit("a trough of water");
        assert("a trough of water"@[0] != "unknown"@[0]);
    }
    assert(items::spec_item_name(1655) == "a black queen"@);
    assert(items::spec_item_name(1655) != "unknown"@) by {
        reveal_strlit("unknown");
        reveal_strlit("a black queen");
        assert("a black queen"@[0] != "unknown"@[0]);
    }
    assert(items::spec_item_name(1834) == "a chest of drawers"@);
    assert(items::spec_item_name(1834) != "unknown"@) by {
        reveal_strlit("unknown");
        reveal_strlit("a chest of drawers");
        assert("a chest of drawers"@[0] != "unknown"@[0]);
    }
    assert(items::spec_item_name(1837) == "a trough"@);
    assert(items::spec_item_name(1837) != "unknown"@) by {
        reveal_strlit("unknown");
        reveal_strlit("a trough");
        assert("a trough"@[0] != "unknown"@[0]);
    }
    assert(items::spec_item_name(1911) == "a black king"@);
    assert(items::spec_item_name(1911) != "unknown"@) by {
        reveal_strlit("unknown");
        reveal_strlit("a black king");
        assert("a black king"@[0] != "unknown"@[0]);
    }
    assert(items::spec_item_name(2167) == "a white pawn"@);
    assert(items::spec_item_name(2167) != "unknown"@) by {
        reveal_strlit("unknown");
        reveal_strlit("a white pawn");
        assert("a white pawn"@[0] != "unknown"@[0]);
    }
    assert(items::spec_item_name(2423) == "a white castle"@);
    assert(items::spec_item_name(2423) != "unknown"@) by {
        reveal_strlit("unknown");
        reveal_strlit("a white castle");
        assert("a white castle"@[0] != "unknown"@[0]);
    }
    assert(items::spec_item_name(2679) == "a white knight"@);
    assert(items::spec_item_name(2679) != "unknown"@) by {
        reveal_strlit("unknown");
        reveal_strlit("a white knight");
        assert("a white knight"@[0] != "unknown"@[0]);
    }
    assert(items::spec_item_name(2881) == "a candlestick"@);
    assert(items::spec_item_name(2881) != "unknown"@) by {
        reveal_strlit("unknown");
        reveal_strlit("a candlestick");
        assert("a candlestick"@[0] != "unknown"@[0]);
    }
    assert(items::spec_item_name(2935) == "a white bishop"@);
    assert(items::spec_item_name(2935) != "unknown"@) by {
        reveal_strlit("unknown");
        reveal_strlit("a white bishop");
        assert("a white bishop"@[0] != "unknown"@[0]);
    }
    assert(items::spec_item_name(3191) == "a white queen"@);
    assert(items::spec_item_name(3191) != "unknown"@) by {
        reveal_strlit("unknown");
        reveal_strlit("a white queen");
        assert("a white queen"@[0] != "unknown"@[0]);
    }
    assert(items::spec_item_name(3418) == "a spear"@);
    assert(items::spec_item_name(3418) != "unknown"@) by {
        reveal_strlit("unknown");
        reveal_strlit("a spear");
        assert("a spear"@[0] != "unknown"@[0]);
    }
    assert(items::spec_item_name(3447) == "a white king"@);
    assert(items::spec_item_name(3447) != "unknown"@) by {
        reveal_strlit("unknown");
        reveal_strlit("a white king");
        assert("a white king"@[0] != "unknown"@[0]);
    }
    assert(items::spec_item_name(3703) == "a tic-tac-toe token"@);
    assert(items::spec_item_name(3703) != "unknown"@) by {
        reveal_strlit("unknown");
        reveal_strlit("a tic-tac-toe token");
        assert("a tic-tac-toe token"@[0] != "unknown"@[0]);
    }
    assert(items::spec_item_name(3959) == "a tic-tac-toe token"@);
    assert(items::spec_item_name(3959) != "unknown"@) by {
        reveal_strlit("unknown");
        reveal_strlit("a tic-tac-toe token");
        assert("a tic-tac-toe token"@[0] != "unknown"@[0]);
    }
    assert(items::spec_item_name(4116) == "a framework wall"@);
    assert(items::spec_item_name(4116) != "unknown"@) by {
        reveal_strlit("unknown");
        reveal_strlit("a framework wall");
        assert("a framework wall"@[0] != "unknown"@[0]);
    }
    assert(items::spec_item_name(4372) == "a framework wall"@);
    assert(items::spec_item_name(4372) != "unknown"@) by {
        reveal_strlit("unknown");
        reveal_strlit("a framework wall");
        assert("a framework wall"@[0] != "unknown"@[0]);
    }
    assert(items::spec_item_name(4884) == "a framework wall"@);
    assert(items::spec_item_name(4884) != "unknown"@) by {
        reveal_strlit("unknown");
        reveal_strlit("a framework wall");
        assert("a framework wall"@[0] != "unknown"@[0]);
    }
    assert(items::spec_item_name(5140) == "a framework wall"@);
    assert(items::spec_item_name(5140) != "unknown"@) by {
        reveal_strlit("unknown");
        reveal_strlit("a framework wall");
        assert("a framework wall"@[0] != "unknown"@[0]);
    }
    assert(table_view(|k: u16| spec_item_id(k)).dom() =~= ids);
    assert(ids.len() == 60);
}

/// The tile table knows 75 Tibia 8.60 tile ids, and each maps to a non-zero Tibia 1.03
/// id that has a name.
#[verifier::spinoff_prover]
#[verifier::rlimit(100)]
pub proof fn lemma_tile_table()
    ensures
        forall|k: u16| #[trigger] spec_tile_id(k) is Some ==> spec_tile_id(k)->0 != 0 && items::spec_item_name(spec_tile_id(k)->0) != "unknown"@,
        table_view(|k: u16| spec_tile_id(k)).dom().len() == 75,
{
    let ids = set![1284u16, 4566, 4554, 351, 352, 353, 405, 406, 4526, 424, 104, 4405, 4608, 280, 100, 966, 965, 1016, 1017, 1018, 1019, 1020, 1021, 1022, 1023, 1024, 967, 968, 969, 970, 971, 972, 973, 974, 975, 976, 977, 978, 979, 980, 981, 982, 983, 984, 985, 986, 987, 988, 989, 990, 991, 992, 993, 994, 995, 996, 997, 998, 999, 1000, 1001, 1002, 1003, 1004, 1005, 1006, 1007, 1008, 1009, 1010, 1011, 1012, 1013, 1014, 1015];
    assert(items::spec_item_name(1) == "void"@);
    assert(items::spec_item_name(1) != "unknown"@) by {
        reveal_strlit("unknown");
        reveal_strlit("void");
        assert("void"@[0] != "unknown"@[0]);
    }
    assert(items::spec_item_name(10) == "grass"@);
    assert(items::spec_item_name(10) != "unknown"@) by {
        reveal_strlit("unknown");
        reveal_strlit("grass");
        assert("grass"@[0] != "unknown"@[0]);
    }
    assert(items::spec_item_name(12) == "wooden floor"@);
    assert(items::spec_item_name(12) != "unknown"@) by {
        reveal_strlit("unknown");
        reveal_strlit("wooden floor");
        assert("wooden floor"@[0] != "unknown"@[0]);
    }
    assert(items::spec_item_name(14) == "water"@);
    assert(items::spec_item_name(14) != "unknown"@) by {
        reveal_strlit("unknown");
        reveal_strlit("water");
        assert("water"@[0] != "unknown"@[0]);
    }
    assert(items::spec_item_name(19) == "a chess board"@);
    assert(items::spec_item_name(19) != "unknown"@) by {
        reveal_strlit("unknown");
        reveal_strlit("a chess board");
        assert("a chess board"@[0] != "unknown"@[0]);
    }
    assert(items::spec_item_name(266) == "dirt floor"@);
    assert(items::spec_item_name(266) != "unknown"@) by {
        reveal_strlit("unknown");
        reveal_strlit("dirt floor");
        assert("dirt floor"@[0] != "unknown"@[0]);
    }
    assert(items::spec_item_name(268) == "white marble floor"@);
    assert(items::spec_item_name(268) != "unknown"@) by {
        reveal_strlit("unknown");
        reveal_strlit("white marble floor");
        assert("white marble floor"@[0] != "unknown"@[0]);
    }
    assert(items::spec_item_name(275) == "a chess board"@);
    assert(items::spec_item_name(275) != "unknown"@) by {
        reveal_strlit("unknown");
        reveal_strlit("a chess board");
        assert("a chess board"@[0] != "unknown"@[0]);
    }
    assert(items::spec_item_name(283) == "a drawbridge"@);
    assert(items::spec_item_name(283) != "unknown"@) by {
        reveal_strlit("unknown");
        reveal_strlit("a drawbridge");
        assert("a drawbridge"@[0] != "unknown"@[0]);
    }
    assert(items::spec_item_name(522) == "sand"@);
    assert(items::spec_item_name(522) != "unknown"@) by {
        reveal_strlit("unknown");
        reveal_strlit("sand");
        assert("sand"@[0] != "unknown"@[0]);
    }
    assert(items::spec_item_name(531) == "a mill board"@);
    assert(items::spec_item_name(531) != "unknown"@) by {
        reveal_strlit("unknown");
        reveal_strlit("a mill board");
        assert("a mill board"@[0] != "unknown"@[0]);
    }
    assert(items::spec_item_name(778) == "gravel"@);
    assert(items::spec_item_name(778) != "unknown"@) by {
        reveal_strlit("unknown");
        reveal_strlit("gravel");
        assert("gravel"@[0] != "unknown"@[0]);
    }
    assert(items::spec_item_name(787) == "a mill board"@);
    assert(items::spec_item_name(787) != "unknown"@) by {
        reveal_strlit("unknown");
        reveal_strlit("a mill board");
        assert("a mill board"@[0] != "unknown"@[0]);
    }
    assert(items::spec_item_name(1043) == "a mill board"@);
    assert(items::spec_item_name(1043) != "unknown"@) by {
        reveal_strlit("unknown");
        reveal_strlit("a mill board");
        assert("a mill board"@[0] != "unknown"@[0]);
    }
    assert(items::spec_item_name(1290) == "rock soil"@);
    assert(items::spec_item_name(1290) != "unknown"@) by {
        reveal_strlit("unknown");
        reveal_strlit("rock soil");
        assert("rock soil"@[0] != "unknown"@[0]);
    }
    assert(items::spec_item_name(1299) == "a mill board"@);
    assert(items::spec_item_name(1299) != "unknown"@) by {
        reveal_strlit("unknown");
        reveal_strlit("a mill board");
        assert("a mill board"@[0] != "unknown"@[0]);
    }
    assert(items::spec_item_name(1555) == "a mill board"@);
    assert(items::spec_item_name(1555) != "unknown"@) by {
        reveal_strlit("unknown");
        reveal_strlit("a mill board");
        assert("a mill board"@[0] != "unknown"@[0]);
    }
    assert(items::spec_item_name(1811) == "a mill board"@);
    assert(items::spec_item_name(1811) != "unknown"@) by {
        reveal_strlit("unknown");
        reveal_strlit("a mill board");
        assert("a mill board"@[0] != "unknown"@[0]);
    }
    assert(items::spec_item_name(2067) == "a mill board"@);
    assert(items::spec_item_name(2067) != "unknown"@) by {
        reveal_strlit("unknown");
        reveal_strlit("a mill board");
        assert("a mill board"@[0] != "unknown"@[0]);
    }
    assert(items::spec_item_name(2323) == "a mill board"@);
    assert(items::spec_item_name(2323) != "unknown"@) by {
        reveal_strlit("unknown");
        reveal_strlit("a mill board");
        assert("a mill board"@[0] != "unknown"@[0]);
    }
    assert(items::spec_item_name(2579) == "a mill board"@);
    assert(items::spec_item_name(2579) != "unknown"@) by {
        reveal_strlit("unknown");
        reveal_strlit("a mill board");
        assert("a mill board"@[0] != "unknown"@[0]);
    }
    assert(items::spec_item_name(2835) == "a mill board"@);
    assert(items::spec_item_name(2835) != "unknown"@) by {
        reveal_strlit("unknown");
        reveal_strlit("a mill board");
        assert("a mill board"@[0] != "unknown"@[0]);
    }
    assert(items::spec_item_name(3091) == "a mill board"@);
    assert(items::spec_item_name(3091) != "unknown"@) by {
        reveal_strlit("unknown");
        reveal_strlit("a mill board");
        assert("a mill board"@[0] != "unknown"@[0]);
    }
    assert(items::spec_item_name(3347) == "a mill board"@);
    assert(items::spec_item_name(3347) != "unknown"@) by {
        reveal_strlit("unknown");
        reveal_strlit("a mill board");
        assert("a mill board"@[0] != "unknown"@[0]);
    }
    assert(items::spec_item_name(3603) == "a mill board"@);
    assert(items::spec_item_name(3603) != "unknown"@) by {
        reveal_strlit("unknown");
        reveal_strlit("a mill board");
        assert("a mill board"@[0] != "unknown"@[0]);
    }
    assert(items::spec_item_name(3859) == "a mill board"@);
    assert(items::spec_item_name(3859) != "unknown"@) by {
        reveal_strlit("unknown");
        reveal_strlit("a mill board");
        assert("a mill board"@[0] != "unknown"@[0]);
    }
    assert(items::spec_item_name(4115) == "a mill board"@);
    assert(items::spec_item_name(4115) != "unknown"@) by {
        reveal_strlit("unknown");
        reveal_strlit("a mill board");
        assert("a mill board"@[0] != "unknown"@[0]);
    }
    assert(items::spec_item_name(4160) == "grass"@);
    assert(items::spec_item_name(4160) != "unknown"@) by {
        reveal_strlit("unknown");
        reveal_strlit("grass");
        assert("grass"@[0] != "unknown"@[0]);
    }
    assert(items::spec_item_name(4371) == "a mill board"@);
    assert(items::spec_item_name(4371) != "unknown"@) by {
        reveal_strlit("unknown");
        reveal_strlit("a mill board");
        assert("a mill board"@[0] != "unknown"@[0]);
    }
    assert(items::spec_item_name(4618) == "dirt floor"@);
    assert(items::spec_item_name(4618) != "unknown"@) by {
        reveal_strlit("unknown");
        reveal_strlit("dirt floor");
        assert("dirt floor"@[0] != "unknown"@[0]);
    }
    assert(items::spec_item_name(4627) == "a mill board"@);
    assert(items::spec_item_name(4627) != "unknown"@) by {
        reveal_strlit("unknown");
        reveal_strlit("a mill board");
        assert("a mill board"@[0] != "unknown"@[0]);
    }
    assert(items::spec_item_name(4883) == "a mill board"@);
    assert(items::spec_item_name(4883) != "unknown"@) by {
        reveal_strlit("unknown");
        reveal_strlit("a mill board");
        assert("a mill board"@[0] != "unknown"@[0]);
    }
    assert(items::spec_item_name(5139) == "a mill board"@);
    assert(items::spec_item_name(5139) != "unknown"@) by {
        reveal_strlit("unknown");
        reveal_strlit("a mill board");
        assert("a mill board"@[0] != "unknown"@[0]);
    }
    assert(items::spec_item_name(5395) == "a mill board"@);
    assert(items::spec_item_name(5395) != "unknown"@) by {
        reveal_strlit("unknown");
        reveal_strlit("a mill board");
        assert("a mill board"@[0] != "unknown"@[0]);
    }
    assert(items::spec_item_name(5651) == "a mill board"@);
    assert(items::spec_item_name(5651) != "unknown"@) by {
        reveal_strlit("unknown");
        reveal_strlit("a mill board");
        assert("a mill board"@[0] != "unknown"@[0]);
    }
    assert(items::spec_item_name(5907) == "a mill board"@);
    assert(items::spec_item_name(5907) != "unknown"@) by {
        reveal_strlit("unknown");
        reveal_strlit("a mill board");
        assert("a mill board"@[0] != "unknown"@[0]);
    }
    assert(items::spec_item_name(6163) == "a mill board"@);
    assert(items::spec_item_name(6163) != "unknown"@) by {
        reveal_strlit("unknown");
        reveal_strlit("a mill board");
        assert("a mill board"@[0] != "unknown"@[0]);
    }
    assert(items::spec_item_name(6419) == "a mill board"@);
    assert(items::spec_item_name(6419) != "unknown"@) by {
        reveal_strlit("unknown");
        reveal_strlit("a mill board");
        assert("a mill board"@[0] != "unknown"@[0]);
    }
    assert(items::spec_item_name(6675) == "a mill board"@);
    assert(items::spec_item_name(6675) != "unknown"@) by {
        reveal_strlit("unknown");
        reveal_strlit("a mill board");
        assert("a mill board"@[0] != "unknown"@[0]);
    }
    assert(items::spec_item_name(6931) == "a mill board"@);
    assert(items::spec_item_name(6931) != "unknown"@) by {
        reveal_strlit("unknown");
        reveal_strlit("a mill board");
        assert("a mill board"@[0] != "unknown"@[0]);
    }
    assert(items::spec_item_name(7180) == "a stone tile"@);
    assert(items::spec_item_name(7180) != "unknown"@) by {
        reveal_strlit("unknown");
        reveal_strlit("a stone tile");
        assert("a stone tile"@[0] != "unknown"@[0]);
    }
    assert(items::spec_item_name(7187) == "a mill board"@);
    assert(items::spec_item_name(7187) != "unknown"@) by {
        reveal_strlit("unknown");
        reveal_strlit("a mill board");
        assert("a mill board"@[0] != "unknown"@[0]);
    }
    assert(items::spec_item_name(7443) == "a mill board"@);
    assert(items::spec_item_name(7443) != "unknown"@) by {
        reveal_strlit("unknown");
        reveal_strlit("a mill board");
        assert("a mill board"@[0] != "unknown"@[0]);
    }
    assert(items::spec_item_name(7699) == "a mill board"@);
    assert(items::spec_item_name(7699) != "unknown"@) by {
        reveal_strlit("unknown");
        reveal_strlit("a mill board");
        assert("a mill board"@[0] != "unknown"@[0]);
    }
    assert(items::spec_item_name(7955) == "a mill board"@);
    assert(items::spec_item_name(7955) != "unknown"@) by {
        reveal_strlit("unknown");
        reveal_strlit("a mill board");
        assert("a mill board"@[0] != "unknown"@[0]);
    }
    assert(items::spec_item_name(8211) == "a mill board"@);
    assert(items::spec_item_name(8211) != "unknown"@) by {
        reveal_strlit("unknown");
        reveal_strlit("a mill board");
        assert("a mill board"@[0] != "unknown"@[0]);
    }
    assert(items::spec_item_name(8467) == "a mill board"@);
    assert(items::spec_item_name(8467) != "unknown"@) by {
        reveal_strlit("unknown");
        reveal_strlit("a mill board");
        assert("a mill board"@[0] != "unknown"@[0]);
    }
    assert(items::spec_item_name(8723) == "a mill board"@);
    assert(items::spec_item_name(8723) != "unknown"@) by {
        reveal_strlit("unknown");
        reveal_strlit("a mill board");
        assert("a mill board"@[0] != "unknown"@[0]);
    }
    assert(items::spec_item_name(8979) == "a mill board"@);
    assert(items::spec_item_name(8979) != "unknown"@) by {
        reveal_strlit("unknown");
        reveal_strlit("a mill board");
        assert("a mill board"@[0] != "unknown"@[0]);
    }
    assert(items::spec_item_name(9235) == "a mill board"@);
    assert(items::spec_item_name(9235) != "unknown"@) by {
        reveal_strlit("unknown");
        reveal_strlit("a mill board");
        assert("a mill board"@[0] != "unknown"@[0]);
    }
    assert(items::spec_item_name(9491) == "a mill board"@);
    assert(items::spec_item_name(9491) != "unknown"@) by {
        reveal_strlit("unknown");
        reveal_strlit("a mill board");
        assert("a mill board"@[0] != "unknown"@[0]);
    }
    assert(items::spec_item_name(9747) == "a mill board"@);
    assert(items::spec_item_name(9747) != "unknown"@) by {
        reveal_strlit("unknown");
        reveal_strlit("a mill board");
        assert("a mill board"@[0] != "unknown"@[0]);
    }
    assert(items::spec_item_name(10003) == "a mill board"@);
    assert(items::spec_item_name(10003) != "unknown"@) by {
        reveal_strlit("unknown");
        reveal_strlit("a mill board");
        assert("a mill board"@[0] != "unknown"@[0]);
    }
    assert(items::spec_item_name(10259) == "a mill board"@);
    assert(items::spec_item_name(10259) != "unknown"@) by {
        reveal_strlit("unknown");
        reveal_strlit("a mill board");
        assert("a mill board"@[0] != "unknown"@[0]);
    }
    assert(items::spec_item_name(10515) == "a mill board"@);
    assert(items::spec_item_name(10515) != "unknown"@) by {
        reveal_strlit("unknown");
        reveal_strlit("a mill board");
        assert("a mill board"@[0] != "unknown"@[0]);
    }
    assert(items::spec_item_name(10771) == "a mill board"@);
    assert(items::spec_item_name(10771) != "unknown"@) by {
        reveal_strlit("unknown");
        reveal_strlit("a mill board");
        assert("a mill board"@[0] != "unknown"@[0]);
    }
    assert(items::spec_item_name(11027) == "a mill board"@);
    assert(items::spec_item_name(11027) != "unknown"@) by {
        reveal_strlit("unknown");
        reveal_strlit("a mill board");
        assert("a mill board"@[0] != "unknown"@[0]);
    }
    assert(items::spec_item_name(11283) == "a mill board"@);
    assert(items::spec_item_name(11283) != "unknown"@) by {
        reveal_strlit("unknown");
        reveal_strlit("a mill board");
        assert("a mill board"@[0] != "unknown"@[0]);
    }
    assert(items::spec_item_name(11539) == "a mill board"@);
    assert(items::spec_item_name(11539) != "unknown"@) by {
        reveal_strlit("unknown");
        reveal_strlit("a mill board");
        assert("a mill board"@[0] != "unknown"@[0]);
    }
    assert(items::spec_item_name(11795) == "a mill board"@);
    assert(items::spec_item_name(11795) != "unknown"@) by {
        reveal_strlit("unknown");
        reveal_strlit("a mill board");
        assert("a mill board"@[0] != "unknown"@[0]);
    }
    assert(items::spec_item_name(12051) == "a mill board"@);
    assert(items::spec_item_name(12051) != "unknown"@) by {
        reveal_strlit("unknown");
        reveal_strlit("a mill board");
        assert("a mill board"@[0] != "unknown"@[0]);
    }
    assert(items::spec_item_name(12307) == "a mill board"@);
    assert(items::spec_item_name(12307) != "unknown"@) by {
        reveal_strlit("unknown");
        reveal_strlit("a mill board");
        assert("a mill board"@[0] != "unknown"@[0]);
    }
    assert(items::spec_item_name(12563) == "a mill board"@);
    assert(items::spec_item_name(12563) != "unknown"@) by {
        reveal_strlit("unknown");
        reveal_strlit("a mill board");
        assert("a mill board"@[0] != "unknown"@[0]);
    }
    assert(items::spec_item_name(12819) == "a mill board"@);
    assert(items::spec_item_name(12819) != "unknown"@) by {
        reveal_strlit("unknown");
        reveal_strlit("a mill board");
        assert("a mill board"@[0] != "unknown"@[0]);
    }
    assert(items::spec_item_name(13075) == "a tic-tac-toe board"@);
    assert(items::spec_item_name(13075) != "unknown"@) by {
        reveal_strlit("unknown");
        reveal_strlit("a tic-tac-toe board");
        assert("a tic-tac-toe board"@[0] != "unknown"@[0]);
    }
    assert(items::spec_item_name(13331) == "a tic-tac-toe board"@);
    assert(items::spec_item_name(13331) != "unknown"@) by {
        reveal_strlit("unknown");
        reveal_strlit("a tic-tac-toe board");
        assert("a tic-tac-toe board"@[0] != "unknown"@[0]);
    }
    assert(items::spec_item_name(13587) == "a tic-tac-toe board"@);
    assert(items::spec_item_name(13587) != "unknown"@) by {
        reveal_strlit("unknown");
        reveal_strlit("a tic-tac-toe board");
        assert("a tic-tac-toe board"@[0] != "unknown"@[0]);
    }
    assert(items::spec_item_name(13843) == "a tic-tac-toe board"@);
    assert(items::spec_item_name(13843) != "unknown"@) by {
        reveal_strlit("unknown");
        reveal_strlit("a tic-tac-toe board");
        assert("a tic-tac-toe board"@[0] != "unknown"@[0]);
    }
    assert(items::spec_item_name(14099) == "a tic-tac-toe board"@);
    assert(items::spec_item_name(14099) != "unknown"@) by {
        reveal_strlit("unknown");
        reveal_strlit("a tic-tac-toe board");
        assert("a tic-tac-toe board"@[0] != "unknown"@[0]);
    }
    assert(items::spec_item_name(14355) == "a tic-tac-toe board"@);
    assert(items::spec_item_name(14355) != "unknown"@) by {
        reveal_strlit("unknown");
        reveal_strlit("a tic-tac-toe board");
        assert("a tic-tac-toe board"@[0] != "unknown"@[0]);
    }
    assert(items::spec_item_name(14611) == "a tic-tac-toe board"@);
    assert(items::spec_item_name(14611) != "unknown"@) by {
        reveal_strlit("unknown");
        reveal_strlit("a tic-tac-toe board");
        assert("a tic-tac-toe board"@[0] != "unknown"@[0]);
    }
    assert(items::spec_item_name(14867) == "a tic-tac-toe board"@);
    assert(items::spec_item_name(14867) != "unknown"@) by {
        reveal_strlit("unknown");
        reveal_strlit("a tic-tac-toe board");
        assert("a tic-tac-toe board"@[0] != "unknown"@[0]);
    }
    assert(items::spec_item_name(15123) == "a tic-tac-toe board"@);
    assert(items::spec_item_name(15123) != "unknown"@) by {
        reveal_strlit("unknown");
        reveal_strlit("a tic-tac-toe board");
        assert("a tic-tac-toe board"@[0] != "unknown"@[0]);
    }
    assert(items::spec_item_name(45578) == "dirt floor"@);
    assert(items::spec_item_name(45578) != "unknown"@) by {
        reveal_strlit("unknown");
        reveal_strlit("dirt floor");
        assert("dirt floor"@[0] != "unknown"@[0]);
    }
    assert(table_view(|k: u16| spec_tile_id(k)).dom() =~= ids);
    assert(ids.len() == 75);
}

} // verus!
