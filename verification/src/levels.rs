//! Carving a generated layout into a level.

use vstd::prelude::*;
use core::ops::Range;
use rand::rngs::StdRng;
use crate::corridor::LCorridor;
use crate::corridor::lemma_corridor_cells;
use crate::dim::Dim;
use crate::dim::HasDim;
use crate::generators::ConfigError;
use crate::generators::Gen;
use crate::generators::lemma_pool_cells;
use crate::generators::Level;
use crate::generators::LevelGenStrategy;
use crate::generators::MonsterGeneratorParam;
use crate::generators::monsters_placed;
use crate::generators::pool;
use crate::generators::RoomGenStrategy;
use crate::level_data::HasWall;
use crate::level_data::LevelInfo;
use crate::level_data::TileType;
use crate::pos::Pos;
use crate::pos::PosCollection;
use crate::races::all_monsters;
use crate::races::monster_templates;
use crate::room::lemma_room_contains_center_and_corners;
use crate::room::lemma_room_positions;
use crate::room::lemma_separate_rooms;
use crate::room::lemma_wall_ring_cells;
use crate::room::Room;

verus! {

/// Sets every cell of `cells` to `tile` and leaves the rest of the level as
/// it was.
pub fn paint(map: &mut LevelInfo, cells: &Vec<Pos>, tile: TileType)
    requires
        forall|k: int| 0 <= k < cells@.len() ==> old(map).has(#[trigger] cells@[k]),
    ensures
        final(map).spec_dim() == old(map).spec_dim(),
        forall|q: Pos|
            old(map).has(q) ==> #[trigger] final(map).at(q) == if cells@.contains(q) {
                tile
            } else {
                old(map).at(q)
            },
{
    let mut i: usize = 0;
    while i < cells.len()
        invariant
            i <= cells.len(),
            map.spec_dim() == old(map).spec_dim(),
            forall|k: int| 0 <= k < cells@.len() ==> old(map).has(#[trigger] cells@[k]),
            forall|q: Pos|
                old(map).has(q) ==> #[trigger] map.at(q) == if cells@.subrange(0, i as int).contains(
                    q,
                ) {
                    tile
                } else {
                    old(map).at(q)
                },
        decreases cells.len() - i,
    {
        let ghost before = *map;
        let c = cells[i];
        map.set(c, tile);
        proof {
            let done = cells@.subrange(0, i as int);
            let next = cells@.subrange(0, i + 1);
            assert(next =~= done.push(c));
            assert forall|q: Pos| old(map).has(q) implies #[trigger] map.at(q) == if next.contains(
                q,
            ) {
                tile
            } else {
                old(map).at(q)
            } by {
                if q == c {
                    assert(next[i as int] == c);
                } else {
                    assert(map.at(q) == before.at(q));
                    if done.contains(q) {
                        let k = choose|k: int| 0 <= k < done.len() && done[k] == q;
                        assert(next[k] == q);
                    }
                    if next.contains(q) {
                        let k = choose|k: int| 0 <= k < next.len() && next[k] == q;
                        assert(done[k] == q);
                    }
                }
            }
        }
        i += 1;
    }
    assert(cells@.subrange(0, cells@.len() as int) =~= cells@);
}

/// Turns every cell of `positions` into open floor.
pub fn dig<P>(map: &mut LevelInfo, positions: &P) where P: PosCollection
    requires
        forall|p: Pos| positions.positions().contains(p) ==> old(map).has(p),
    ensures
        final(map).spec_dim() == old(map).spec_dim(),
        forall|q: Pos|
            old(map).has(q) ==> #[trigger] final(map).at(q) == if positions.positions().contains(
                q,
            ) {
                TileType::Ground
            } else {
                old(map).at(q)
            },
{
    let cells = positions.iter_pos();
    assert forall|k: int| 0 <= k < cells@.len() implies map.has(#[trigger] cells@[k]) by {
        assert(positions.positions().contains(cells@[k]));
    }
    paint(map, &cells, TileType::Ground);
}

/// Turns every wall cell of `stru` into room wall.
pub fn put_walls<P>(map: &mut LevelInfo, stru: &P) where P: HasWall
    requires
        stru.ringed(),
        forall|p: Pos| stru.wall_ring().contains(p) ==> old(map).has(p),
    ensures
        final(map).spec_dim() == old(map).spec_dim(),
        forall|q: Pos|
            old(map).has(q) ==> #[trigger] final(map).at(q) == if stru.wall_ring().contains(q) {
                TileType::RoomWall
            } else {
                old(map).at(q)
            },
{
    let cells = stru.walls();
    assert forall|k: int| 0 <= k < cells@.len() implies map.has(#[trigger] cells@[k]) by {
        assert(stru.wall_ring().contains(cells@[k]));
    }
    paint(map, &cells, TileType::RoomWall);
}

impl Room {
    /// Turns every cell of the room into open floor.
    pub fn dig(&self, level: &mut LevelInfo)
        requires
            self.wf(),
            old(level).has(self.to),
        ensures
            final(level).spec_dim() == old(level).spec_dim(),
            forall|q: Pos|
                old(level).has(q) ==> #[trigger] final(level).at(q) == if self.spec_contains(q) {
                    TileType::Ground
                } else {
                    old(level).at(q)
                },
    {
        proof {
            assert forall|p: Pos| self.positions().contains(p) implies level.has(p) by {
                lemma_room_positions(*self, p);
            }
            assert forall|q: Pos| self.positions().contains(q) == self.spec_contains(q) by {
                lemma_room_positions(*self, q);
            }
        }
        dig(level, self);
    }
}

/// Whether `p` lies in one of the first `n` of `rooms`.
pub open spec fn in_room(rooms: Seq<Room>, n: int, p: Pos) -> bool {
    exists|i: int| 0 <= i < n && (#[trigger] rooms[i]).spec_contains(p)
}

/// Whether `p` is a wall cell of one of the first `n` of `rooms`.
pub open spec fn on_wall(rooms: Seq<Room>, n: int, p: Pos) -> bool {
    exists|i: int| 0 <= i < n && (#[trigger] rooms[i]).is_wall(p)
}

/// Whether `p` lies on one of the first `n` of `corridors`.
pub open spec fn in_corridor(corridors: Seq<LCorridor>, n: int, p: Pos) -> bool {
    exists|i: int| 0 <= i < n && (#[trigger] corridors[i]).covers(p)
}

/// The tile at `p` once `rooms` and `corridors` have been carved into a
/// level that held `before` there. Corridors win over walls, and walls over
/// the floor of rooms: a corridor that crosses a wall ring opens it.
pub open spec fn carved_tile(
    rooms: Seq<Room>,
    corridors: Seq<LCorridor>,
    before: TileType,
    p: Pos,
) -> TileType {
    if in_corridor(corridors, corridors.len() as int, p) {
        TileType::Ground
    } else if on_wall(rooms, rooms.len() as int, p) {
        TileType::RoomWall
    } else if in_room(rooms, rooms.len() as int, p) {
        TileType::Ground
    } else {
        before
    }
}

/// Whether `rooms` with their walls and `corridors` lie in a level with
/// extents `dim`.
pub open spec fn layout_fits(rooms: Seq<Room>, corridors: Seq<LCorridor>, dim: Dim) -> bool {
    &&& forall|i: int|
        0 <= i < rooms.len() ==> {
            &&& (#[trigger] rooms[i]).wf()
            &&& rooms[i].to.x + 1 < dim.width
            &&& rooms[i].to.y + 1 < dim.height
        }
    &&& forall|i: int|
        0 <= i < corridors.len() ==> {
            &&& (#[trigger] corridors[i]).from.x < dim.width
            &&& corridors[i].from.y < dim.height
            &&& corridors[i].to.x < dim.width
            &&& corridors[i].to.y < dim.height
        }
}

/// Carves a layout into a level: first the floor of every room, then the
/// wall ring of every room, then every corridor.
pub fn carve(level: &mut LevelInfo, rooms: &Vec<Room>, corridors: &Vec<LCorridor>)
    requires
        layout_fits(rooms@, corridors@, old(level).spec_dim()),
    ensures
        final(level).spec_dim() == old(level).spec_dim(),
        forall|p: Pos|
            old(level).has(p) ==> #[trigger] final(level).at(p) == carved_tile(
                rooms@,
                corridors@,
                old(level).at(p),
                p,
            ),
{
    let ghost dim = level.spec_dim();
    let mut i: usize = 0;
    while i < rooms.len()
        invariant
            i <= rooms.len(),
            dim == old(level).spec_dim(),
            level.spec_dim() == dim,
            layout_fits(rooms@, corridors@, dim),
            forall|p: Pos|
                old(level).has(p) ==> #[trigger] level.at(p) == if in_room(rooms@, i as int, p) {
                    TileType::Ground
                } else {
                    old(level).at(p)
                },
        decreases rooms.len() - i,
    {
        let ghost before = *level;
        let room = rooms[i];
        proof {
            assert(rooms@[i as int].wf());
            assert forall|p: Pos| room.positions().contains(p) implies level.has(p) by {
                lemma_room_positions(room, p);
            }
        }
        dig(level, &room);
        proof {
            assert forall|p: Pos| old(level).has(p) implies #[trigger] level.at(p) == if in_room(
                rooms@,
                i + 1,
                p,
            ) {
                TileType::Ground
            } else {
                old(level).at(p)
            } by {
                lemma_room_positions(room, p);
                assert(before.has(p));
                if in_room(rooms@, i + 1, p) {
                    let k = choose|k: int| 0 <= k < i + 1 && (#[trigger] rooms@[k]).spec_contains(p);
                    if k < i {
                        assert(in_room(rooms@, i as int, p));
                    }
                }
                if room.spec_contains(p) {
                    assert(rooms@[i as int].spec_contains(p));
                }
            }
        }
        i += 1;
    }
    let ghost floored = *level;
    let mut i: usize = 0;
    while i < rooms.len()
        invariant
            i <= rooms.len(),
            dim == old(level).spec_dim(),
            level.spec_dim() == dim,
            floored.spec_dim() == dim,
            layout_fits(rooms@, corridors@, dim),
            forall|p: Pos|
                floored.has(p) ==> #[trigger] level.at(p) == if on_wall(rooms@, i as int, p) {
                    TileType::RoomWall
                } else {
                    floored.at(p)
                },
        decreases rooms.len() - i,
    {
        let ghost before = *level;
        let room = rooms[i];
        proof {
            assert(rooms@[i as int].wf());
            assert forall|p: Pos| room.wall_ring().contains(p) implies level.has(p) by {
                lemma_wall_ring_cells(room, p);
            }
        }
        put_walls(level, &room);
        proof {
            assert forall|p: Pos| floored.has(p) implies #[trigger] level.at(p) == if on_wall(
                rooms@,
                i + 1,
                p,
            ) {
                TileType::RoomWall
            } else {
                floored.at(p)
            } by {
                lemma_wall_ring_cells(room, p);
                assert(before.has(p));
                if on_wall(rooms@, i + 1, p) {
                    let k = choose|k: int| 0 <= k < i + 1 && (#[trigger] rooms@[k]).is_wall(p);
                    if k < i {
                        assert(on_wall(rooms@, i as int, p));
                    }
                }
                if room.is_wall(p) {
                    assert(rooms@[i as int].is_wall(p));
                }
            }
        }
        i += 1;
    }
    let ghost walled = *level;
    let mut i: usize = 0;
    while i < corridors.len()
        invariant
            i <= corridors.len(),
            dim == old(level).spec_dim(),
            level.spec_dim() == dim,
            walled.spec_dim() == dim,
            layout_fits(rooms@, corridors@, dim),
            forall|p: Pos|
                walled.has(p) ==> #[trigger] level.at(p) == if in_corridor(
                    corridors@,
                    i as int,
                    p,
                ) {
                    TileType::Ground
                } else {
                    walled.at(p)
                },
        decreases corridors.len() - i,
    {
        let ghost before = *level;
        let corridor = corridors[i];
        proof {
            assert(corridors@[i as int].from.x < dim.width);
            assert forall|p: Pos| corridor.positions().contains(p) implies level.has(p) by {
                lemma_corridor_cells(corridor, p);
            }
        }
        dig(level, &corridor);
        proof {
            assert forall|p: Pos| walled.has(p) implies #[trigger] level.at(p) == if in_corridor(
                corridors@,
                i + 1,
                p,
            ) {
                TileType::Ground
            } else {
                walled.at(p)
            } by {
                lemma_corridor_cells(corridor, p);
                assert(before.has(p));
                if in_corridor(corridors@, i + 1, p) {
                    let k = choose|k: int|
                        0 <= k < i + 1 && (#[trigger] corridors@[k]).covers(p);
                    if k < i {
                        assert(in_corridor(corridors@, i as int, p));
                    }
                }
                if corridor.covers(p) {
                    assert(corridors@[i as int].covers(p));
                }
            }
        }
        i += 1;
    }
}

/// Whether `level` and `layout` can be what is generated for `strategy` in
/// a level with extents `dim`: the layout is one that the strategy allows,
/// and the level is solid rock with that layout carved into it.
pub open spec fn generated(
    level: LevelInfo,
    layout: Level,
    dim: Dim,
    strategy: LevelGenStrategy,
) -> bool {
    &&& layout.laid_out(strategy)
    &&& layout_fits(layout.rooms@, layout.corridors@, dim)
    &&& level.spec_dim() == dim
    &&& forall|p: Pos|
        level.has(p) ==> #[trigger] level.at(p) == carved_tile(
            layout.rooms@,
            layout.corridors@,
            TileType::Wall,
            p,
        )
}

/// A layout that a strategy allows lies, walls and corridors included, in
/// every level in which the strategy's position bounds leave one cell free
/// on every side.
pub proof fn lemma_layout_fits(layout: Level, dim: Dim, strategy: LevelGenStrategy)
    requires
        layout.laid_out(strategy),
        strategy.room_strategy.fits(dim),
    ensures
        layout_fits(layout.rooms@, layout.corridors@, dim),
{
    let rooms = layout.rooms@;
    let corridors = layout.corridors@;
    assert forall|i: int| 0 <= i < corridors.len() implies {
        &&& (#[trigger] corridors[i]).from.x < dim.width
        &&& corridors[i].from.y < dim.height
        &&& corridors[i].to.x < dim.width
        &&& corridors[i].to.y < dim.height
    } by {
        assert(strategy.room_strategy.admits(rooms[i]));
        assert(strategy.room_strategy.admits(rooms[i + 1]));
        lemma_room_contains_center_and_corners(rooms[i]);
        lemma_room_contains_center_and_corners(rooms[i + 1]);
    }
    assert forall|i: int| 0 <= i < rooms.len() implies {
        &&& (#[trigger] rooms[i]).wf()
        &&& rooms[i].to.x + 1 < dim.width
        &&& rooms[i].to.y + 1 < dim.height
    } by {
        assert(strategy.room_strategy.admits(rooms[i]));
    }
}

/// In a generated level every cell of a room and every cell of a corridor is
/// open floor: the player and every monster stand on open floor, and each
/// corridor is an open way between the centres of the two rooms that it
/// joins.
pub proof fn lemma_generated_is_open(
    level: LevelInfo,
    layout: Level,
    dim: Dim,
    strategy: LevelGenStrategy,
)
    requires
        generated(level, layout, dim, strategy),
    ensures
        forall|i: int, p: Pos|
            0 <= i < layout.rooms@.len() && (#[trigger] layout.rooms@[i]).spec_contains(p)
                ==> level.has(p) && #[trigger] level.at(p) == TileType::Ground,
        forall|i: int, p: Pos|
            0 <= i < layout.corridors@.len() && (#[trigger] layout.corridors@[i]).covers(p)
                ==> level.has(p) && #[trigger] level.at(p) == TileType::Ground,
        layout.rooms@.len() > 0 ==> level.has(layout.player_pos) && level.at(layout.player_pos)
            == TileType::Ground,
        forall|k: int|
            0 <= k < layout.monsters@.len() ==> level.has((#[trigger] layout.monsters@[k]).1)
                && level.at(layout.monsters@[k].1) == TileType::Ground,
{
    let rooms = layout.rooms@;
    let corridors = layout.corridors@;
    assert forall|i: int, p: Pos|
        0 <= i < rooms.len() && (#[trigger] rooms[i]).spec_contains(p) implies level.has(p)
        && #[trigger] level.at(p) == TileType::Ground by {
        assert(rooms[i].wf());
        assert(in_room(rooms, rooms.len() as int, p));
        if on_wall(rooms, rooms.len() as int, p) {
            let j = choose|j: int| 0 <= j < rooms.len() && (#[trigger] rooms[j]).is_wall(p);
            assert(rooms[j].wf());
            if i != j {
                lemma_separate_rooms(rooms[i], rooms[j]);
            }
        }
    }
    assert forall|i: int, p: Pos|
        0 <= i < corridors.len() && (#[trigger] corridors[i]).covers(p) implies level.has(p)
        && #[trigger] level.at(p) == TileType::Ground by {
        assert(corridors[i].from.x < dim.width);
        assert(in_corridor(corridors, corridors.len() as int, p));
    }
    if rooms.len() > 0 {
        assert(rooms[0].wf());
        lemma_room_contains_center_and_corners(rooms[0]);
        assert(rooms[0].spec_contains(layout.player_pos));
    }
    assert forall|k: int| 0 <= k < layout.monsters@.len() implies level.has(
        (#[trigger] layout.monsters@[k]).1,
    ) && level.at(layout.monsters@[k].1) == TileType::Ground by {
        let p = layout.monsters@[k].1;
        let count = choose|count: int|
            strategy.monsters.start <= count && count < strategy.monsters.end
                && #[trigger] monsters_placed(
                layout.monsters@,
                rooms,
                strategy.monster_strategy.templates@,
                count,
            );
        assert(pool(rooms).contains(p));
        lemma_pool_cells(rooms, p);
        let i = choose|i: int| 0 <= i < rooms.len() && (#[trigger] rooms[i]).spec_contains(p);
        assert(rooms[i].spec_contains(p));
    }
}

/// A generated level is determined by its layout: two levels generated with
/// the same layout hold the same tile in every cell.
pub proof fn lemma_same_layout_same_level(
    first: LevelInfo,
    second: LevelInfo,
    layout: Level,
    dim: Dim,
    strategy: LevelGenStrategy,
)
    requires
        generated(first, layout, dim, strategy),
        generated(second, layout, dim, strategy),
    ensures
        first.spec_dim() == second.spec_dim(),
        forall|p: Pos| first.has(p) ==> #[trigger] first.at(p) == second.at(p),
{
    assert forall|p: Pos| first.has(p) implies #[trigger] first.at(p) == second.at(p) by {
        assert(second.has(p));
        assert(second.at(p) == carved_tile(layout.rooms@, layout.corridors@, TileType::Wall, p));
    }
}

/// Generates a level with extents `dim` from a strategy that is valid for
/// them: draws a layout and carves it into solid rock.
pub fn generate_valid(rng: &mut StdRng, dim: Dim, strategy: &LevelGenStrategy) -> (r: (
    LevelInfo,
    Level,
))
    requires
        strategy.fault_in(dim) is None,
    ensures
        generated(r.0, r.1, dim, *strategy),
{
    let mut level = LevelInfo::with_dim(dim);
    let layout = Level::create(rng, strategy);
    proof {
        lemma_layout_fits(layout, dim, *strategy);
    }
    carve(&mut level, &layout.rooms, &layout.corridors);
    (level, layout)
}

/// Generates a level with extents `dim`: validates the strategy, draws a
/// layout, and carves it into solid rock. A strategy with a fault is
/// refused before anything is drawn.
pub fn generate(rng: &mut StdRng, dim: Dim, strategy: &LevelGenStrategy) -> (r: Result<
    (LevelInfo, Level),
    ConfigError,
>)
    ensures
        match strategy.fault_in(dim) {
            Some(e) => r == Err::<(LevelInfo, Level), ConfigError>(e),
            None => r matches Ok(made) && generated(made.0, made.1, dim, *strategy),
        },
{
    match strategy.validate_for(dim) {
        Err(e) => Err(e),
        Ok(_) => Ok(generate_valid(rng, dim, strategy)),
    }
}

/// The extents of the first level.
pub open spec fn map_dim() -> Dim {
    Dim { width: 90, height: 45 }
}

/// Whether `s` is the strategy of the first level: up to 30 rooms between 6
/// and 10 cells wide and high, one cell away from the border, and 20 to 29
/// monsters, each an orc or a troll.
pub open spec fn is_level_1_strategy(s: LevelGenStrategy) -> bool {
    &&& s.room_strategy == (RoomGenStrategy {
        min_dim: Dim { width: 6, height: 6 },
        max_dim: Dim { width: 10, height: 10 },
        max_pos: Pos { x: 88, y: 43 },
        min_pos: Pos { x: 1, y: 1 },
    })
    &&& s.max_rooms == 30
    &&& s.monsters.start == 20
    &&& s.monsters.end == 30
    &&& s.monster_strategy.templates@ == monster_templates()
}

/// The strategy of the first level.
pub fn level_1_strategy() -> (r: LevelGenStrategy)
    ensures
        is_level_1_strategy(r),
        r.fault_in(map_dim()) is None,
{
    let max_pos = (Dim { width: 90, height: 45 }).max_pos().w().n();
    let min_pos = Pos::default().e().s();
    LevelGenStrategy {
        room_strategy: RoomGenStrategy {
            max_dim: Dim { height: 10, width: 10 },
            min_dim: Dim { height: 6, width: 6 },
            max_pos,
            min_pos,
        },
        max_rooms: 30,
        monsters: Range { start: 20, end: 30 },
        monster_strategy: MonsterGeneratorParam { templates: all_monsters() },
    }
}

/// Generates the first level: a level with the extents and by the strategy
/// of the first level.
pub fn level_1(rng: &mut StdRng) -> (r: (LevelInfo, Level))
    ensures
        exists|strategy: LevelGenStrategy|
            is_level_1_strategy(strategy) && #[trigger] generated(r.0, r.1, map_dim(), strategy),
{
    let strategy = level_1_strategy();
    generate_valid(rng, Dim { width: 90, height: 45 }, &strategy)
}

} // verus!
