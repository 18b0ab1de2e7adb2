//! Random placement of rooms, corridors and monsters.

use vstd::prelude::*;
use core::ops::Range;
use rand::rngs::StdRng;
use crate::corridor::LCorridor;
use crate::dim::Dim;
use crate::pos::DimIndex;
use crate::pos::Pos;
use crate::pos::PosCollection;
use crate::random::choose_template;
use crate::random::range_u8;
use crate::random::range_usize;
use crate::random::ratio;
use crate::room::lemma_room_positions;
use crate::room::lemma_separate_rooms;
use crate::room::Room;
use crate::sorting::lemma_sort_keeps_each;
use crate::sorting::lemma_sort_keeps_pairs;
use crate::sorting::sort_rooms;
use crate::sorting::sorted_by_center;
use crate::sorting::stably_sorted;
use crate::world_data::MonsterTemplate;

verus! {

/// What is wrong with a generation strategy.
#[derive(Debug, Clone, Copy, PartialEq, Eq, Structural)]
pub enum ConfigError {
    /// The smallest room has a width or a height of zero.
    ZeroMinDim,
    /// The smallest room is wider or higher than the largest.
    InvertedDim,
    /// Rooms may start on the north or west border, where no wall fits.
    MinPosOnBorder,
    /// The largest room does not fit between the position bounds.
    NoSpace,
    /// Rooms may reach the last coordinate, beyond which no wall fits.
    MaxPosOnEdge,
    /// Rooms or their walls may lie outside the level.
    OutsideLevel,
    /// The range of monster counts is empty.
    EmptyMonsterRange,
    /// There are monsters to place and no template to make them from.
    NoTemplates,
}

/// Something that can be made from a random source and a parameter.
pub trait Gen: Sized {
    /// What steers the making.
    type Param;

    /// The parameters from which a value can be made.
    spec fn accepts(param: &Self::Param) -> bool;

    /// What holds of every value that can come out for `param`.
    spec fn comes_from(self, param: &Self::Param) -> bool;

    /// Makes a value, drawing from `rng` as often as it takes.
    fn create(rng: &mut StdRng, param: &Self::Param) -> (r: Self)
        requires
            Self::accepts(param),
        ensures
            r.comes_from(param),
    ;
}

/// The bounds within which rooms are drawn.
#[derive(Debug, Clone, Copy, PartialEq, Eq, Structural)]
pub struct RoomGenStrategy {
    /// The least distance between opposite edges of a room.
    pub min_dim: Dim,
    /// The greatest distance between opposite edges of a room.
    pub max_dim: Dim,
    /// The south-easternmost cell that a room may cover.
    pub max_pos: Pos,
    /// The north-westernmost cell that a room may cover.
    pub min_pos: Pos,
}

impl RoomGenStrategy {
    /// The first thing that is wrong with the bounds, if anything is.
    pub open spec fn fault(self) -> Option<ConfigError> {
        if self.min_dim.width == 0 || self.min_dim.height == 0 {
            Some(ConfigError::ZeroMinDim)
        } else if self.min_dim.width > self.max_dim.width || self.min_dim.height
            > self.max_dim.height {
            Some(ConfigError::InvertedDim)
        } else if self.min_pos.x == 0 || self.min_pos.y == 0 {
            Some(ConfigError::MinPosOnBorder)
        } else if self.min_pos.x + self.max_dim.width > self.max_pos.x || self.min_pos.y
            + self.max_dim.height > self.max_pos.y {
            Some(ConfigError::NoSpace)
        } else if self.max_pos.x == DimIndex::MAX || self.max_pos.y == DimIndex::MAX {
            Some(ConfigError::MaxPosOnEdge)
        } else {
            None
        }
    }

    /// Whether rooms can be drawn within the bounds.
    pub open spec fn valid(self) -> bool {
        self.fault() is None
    }

    /// Whether `room` keeps the bounds.
    pub open spec fn admits(self, room: Room) -> bool {
        &&& room.wf()
        &&& self.min_pos.x <= room.from.x
        &&& self.min_pos.y <= room.from.y
        &&& room.to.x <= self.max_pos.x
        &&& room.to.y <= self.max_pos.y
        &&& self.min_dim.width <= room.to.x - room.from.x <= self.max_dim.width
        &&& self.min_dim.height <= room.to.y - room.from.y <= self.max_dim.height
    }

    /// Whether every room within the bounds, walls included, lies in a level
    /// with extents `dim`.
    pub open spec fn fits(self, dim: Dim) -> bool {
        self.max_pos.x + 1 < dim.width && self.max_pos.y + 1 < dim.height
    }

    /// Validates the bounds: `Ok` if rooms can be drawn within them, else the
    /// first thing that is wrong.
    pub fn validate(&self) -> (r: Result<(), ConfigError>)
        ensures
            r == match self.fault() {
                Some(e) => Err::<(), ConfigError>(e),
                None => Ok::<(), ConfigError>(()),
            },
    {
        if self.min_dim.width == 0 || self.min_dim.height == 0 {
            Err(ConfigError::ZeroMinDim)
        } else if self.min_dim.width > self.max_dim.width || self.min_dim.height
            > self.max_dim.height {
            Err(ConfigError::InvertedDim)
        } else if self.min_pos.x == 0 || self.min_pos.y == 0 {
            Err(ConfigError::MinPosOnBorder)
        } else if self.min_pos.x as u16 + self.max_dim.width as u16 > self.max_pos.x as u16
            || self.min_pos.y as u16 + self.max_dim.height as u16 > self.max_pos.y as u16 {
            Err(ConfigError::NoSpace)
        } else if self.max_pos.x == DimIndex::MAX || self.max_pos.y == DimIndex::MAX {
            Err(ConfigError::MaxPosOnEdge)
        } else {
            Ok(())
        }
    }
}

impl Gen for Room {
    type Param = RoomGenStrategy;

    open spec fn accepts(param: &RoomGenStrategy) -> bool {
        param.valid()
    }

    open spec fn comes_from(self, param: &RoomGenStrategy) -> bool {
        param.admits(self)
    }

    /// Draws the width and the height of a room within the size bounds, and
    /// then a north-west corner such that the room keeps the position bounds.
    fn create(rng: &mut StdRng, param: &RoomGenStrategy) -> (r: Room) {
        let width = range_u8(rng, param.min_dim.width, param.max_dim.width + 1);
        let height = range_u8(rng, param.min_dim.height, param.max_dim.height + 1);
        let dim = Dim { width, height };
        let x = range_u8(rng, param.min_pos.x, param.max_pos.x - width + 1);
        let y = range_u8(rng, param.min_pos.y, param.max_pos.y - height + 1);
        let pos = Pos { x, y };
        Room::new(pos, dim)
    }
}

/// Whether `room` comes too close to one of `rooms`.
pub open spec fn conflicts(rooms: Seq<Room>, room: Room) -> bool {
    exists|i: int| 0 <= i < rooms.len() && (#[trigger] rooms[i]).spec_intersects(room)
}

/// Whether no two of `rooms` intersect.
pub open spec fn separate(rooms: Seq<Room>) -> bool {
    forall|i: int, j: int|
        0 <= i < rooms.len() && 0 <= j < rooms.len() && i != j ==> !(#[trigger] rooms[i])
            .spec_intersects(#[trigger] rooms[j])
}

/// Whether each of `rooms` keeps the bounds of `strategy`.
pub open spec fn all_admitted(rooms: Seq<Room>, strategy: RoomGenStrategy) -> bool {
    forall|i: int| 0 <= i < rooms.len() ==> strategy.admits(#[trigger] rooms[i])
}

/// Whether each of `rooms` is well-formed.
pub open spec fn all_wf(rooms: Seq<Room>) -> bool {
    forall|i: int| 0 <= i < rooms.len() ==> (#[trigger] rooms[i]).wf()
}

/// Whether `room` intersects one of `rooms`.
pub fn any_intersects(rooms: &Vec<Room>, room: &Room) -> (r: bool)
    ensures
        r == conflicts(rooms@, *room),
{
    let mut i: usize = 0;
    while i < rooms.len()
        invariant
            i <= rooms.len(),
            forall|k: int| 0 <= k < i ==> !(#[trigger] rooms@[k]).spec_intersects(*room),
        decreases rooms.len() - i,
    {
        if rooms[i].intersects(room) {
            return true;
        }
        i += 1;
    }
    false
}

/// Accepts the candidate `room` unless it comes too close to a room that was
/// accepted before: it is appended if it intersects none of `rooms`, and
/// dropped otherwise.
pub fn place_room(rooms: &mut Vec<Room>, room: Room) -> (placed: bool)
    ensures
        placed == !conflicts(old(rooms)@, room),
        placed ==> final(rooms)@ == old(rooms)@.push(room),
        !placed ==> final(rooms)@ == old(rooms)@,
{
    if any_intersects(rooms, &room) {
        false
    } else {
        rooms.push(room);
        true
    }
}

/// How many rooms to try, and within which bounds.
#[derive(Debug, Clone, Copy, PartialEq, Eq, Structural)]
pub struct RoomsGenStrategy {
    pub room_strategy: RoomGenStrategy,
    /// The number of candidate rooms that are drawn.
    pub max_rooms: usize,
}

/// Whether `corridors` links each of `rooms` to the one before it, centre to
/// centre: one corridor less than there are rooms, and none without rooms.
pub open spec fn linked(rooms: Seq<Room>, corridors: Seq<LCorridor>) -> bool {
    &&& corridors.len() == if rooms.len() == 0 {
        0
    } else {
        rooms.len() - 1
    }
    &&& forall|i: int|
        0 <= i < corridors.len() ==> {
            &&& (#[trigger] corridors[i]).from == rooms[i].spec_center()
            &&& corridors[i].to == rooms[i + 1].spec_center()
            &&& corridors[i].wf()
        }
}

/// Whether `rooms` can be what is left of `max_rooms` candidates drawn within
/// `strategy`: at most that many rooms, at least one if any was tried, each
/// within the bounds, no two intersecting, ordered by their centres.
pub open spec fn rooms_laid_out(
    rooms: Seq<Room>,
    strategy: RoomGenStrategy,
    max_rooms: usize,
) -> bool {
    &&& rooms.len() <= max_rooms
    &&& max_rooms > 0 ==> rooms.len() > 0
    &&& all_admitted(rooms, strategy)
    &&& separate(rooms)
    &&& sorted_by_center(rooms)
}

/// Rooms and the corridors that join them.
#[derive(Debug, Clone)]
pub struct Rooms {
    pub rooms: Vec<Room>,
    pub corridors: Vec<LCorridor>,
}

/// Draws `max_rooms` candidate rooms and keeps each that intersects none of
/// those kept before it.
pub fn draw_rooms(rng: &mut StdRng, strategy: &RoomGenStrategy, max_rooms: usize) -> (rooms: Vec<
    Room,
>)
    requires
        strategy.valid(),
    ensures
        rooms@.len() <= max_rooms,
        max_rooms > 0 ==> rooms@.len() > 0,
        all_admitted(rooms@, *strategy),
        separate(rooms@),
{
    let mut rooms: Vec<Room> = Vec::new();
    let mut attempt: usize = 0;
    while attempt < max_rooms
        invariant
            attempt <= max_rooms,
            strategy.valid(),
            rooms@.len() <= attempt,
            attempt > 0 ==> rooms@.len() > 0,
            all_admitted(rooms@, *strategy),
            separate(rooms@),
        decreases max_rooms - attempt,
    {
        let room = Room::create(rng, strategy);
        let ghost before = rooms@;
        let placed = place_room(&mut rooms, room);
        proof {
            if placed {
                assert forall|i: int, j: int|
                    0 <= i < rooms@.len() && 0 <= j < rooms@.len() && i != j implies !(
                #[trigger] rooms@[i]).spec_intersects(#[trigger] rooms@[j]) by {
                    if i < before.len() && j < before.len() {
                        assert(rooms@[i] == before[i] && rooms@[j] == before[j]);
                    } else if i < before.len() {
                        assert(!before[i].spec_intersects(room));
                    } else {
                        assert(!before[j].spec_intersects(room));
                    }
                }
            }
        }
        attempt += 1;
    }
    rooms
}

/// Joins each room to the one before it by a corridor from centre to
/// centre, drawing for each corridor which leg comes first.
pub fn connect_rooms(rng: &mut StdRng, rooms: &Vec<Room>) -> (corridors: Vec<LCorridor>)
    requires
        all_wf(rooms@),
        separate(rooms@),
    ensures
        linked(rooms@, corridors@),
{
    let mut corridors: Vec<LCorridor> = Vec::new();
    let mut i: usize = 1;
    while i < rooms.len()
        invariant
            1 <= i,
            i <= rooms.len() || i == 1,
            all_wf(rooms@),
            separate(rooms@),
            corridors@.len() == i - 1,
            forall|k: int|
                0 <= k < corridors@.len() ==> {
                    &&& (#[trigger] corridors@[k]).from == rooms@[k].spec_center()
                    &&& corridors@[k].to == rooms@[k + 1].spec_center()
                    &&& corridors@[k].wf()
                },
        decreases rooms.len() - i,
    {
        let room1 = rooms[i - 1];
        let room2 = rooms[i];
        let horizontal_first = ratio(rng, 1, 2);
        proof {
            assert(!rooms@[i - 1].spec_intersects(rooms@[i as int]));
            lemma_separate_rooms(room1, room2);
        }
        corridors.push(LCorridor::new(room1.center(), room2.center(), horizontal_first));
        i += 1;
    }
    corridors
}

impl Rooms {
    /// Whether the rooms and corridors can be what `create` makes for
    /// `strategy`.
    pub open spec fn laid_out(self, strategy: RoomsGenStrategy) -> bool {
        &&& rooms_laid_out(self.rooms@, strategy.room_strategy, strategy.max_rooms)
        &&& linked(self.rooms@, self.corridors@)
    }
}

/// Sorting keeps what holds of drawn rooms.
proof fn lemma_sorted_rooms_laid_out(
    before: Seq<Room>,
    after: Seq<Room>,
    strategy: RoomGenStrategy,
)
    requires
        stably_sorted(before, after),
        all_admitted(before, strategy),
        separate(before),
    ensures
        after.len() == before.len(),
        all_admitted(after, strategy),
        separate(after),
        sorted_by_center(after),
{
    let admitted = |r: Room| strategy.admits(r);
    let apart = |a: Room, b: Room| !a.spec_intersects(b);
    assert forall|i: int| 0 <= i < before.len() implies #[trigger] admitted(before[i]) by {
        assert(strategy.admits(before[i]));
    }
    assert forall|i: int, j: int|
        0 <= i < before.len() && 0 <= j < before.len() && i != j implies #[trigger] apart(
        before[i],
        before[j],
    ) by {
        assert(!before[i].spec_intersects(before[j]));
    }
    lemma_sort_keeps_each(before, after, admitted);
    lemma_sort_keeps_pairs(before, after, apart);
    assert forall|i: int| 0 <= i < after.len() implies strategy.admits(#[trigger] after[i]) by {
        assert(admitted(after[i]));
    }
    assert forall|i: int, j: int|
        0 <= i < after.len() && 0 <= j < after.len() && i != j implies !(#[trigger] after[i])
        .spec_intersects(#[trigger] after[j]) by {
        assert(apart(after[i], after[j]));
    }
}

impl Gen for Rooms {
    type Param = RoomsGenStrategy;

    open spec fn accepts(param: &RoomsGenStrategy) -> bool {
        param.room_strategy.valid()
    }

    open spec fn comes_from(self, param: &RoomsGenStrategy) -> bool {
        self.laid_out(*param)
    }

    /// Draws the rooms, orders them by their centres, and joins each to the
    /// one before it.
    fn create(rng: &mut StdRng, param: &RoomsGenStrategy) -> (r: Rooms) {
        let mut rooms = draw_rooms(rng, &param.room_strategy, param.max_rooms);
        let ghost drawn = rooms@;
        sort_rooms(&mut rooms);
        proof {
            lemma_sorted_rooms_laid_out(drawn, rooms@, param.room_strategy);
        }
        let corridors = connect_rooms(rng, &rooms);
        Rooms { rooms, corridors }
    }
}

/// The templates from which monsters are made.
#[derive(Debug)]
pub struct MonsterGeneratorParam {
    pub templates: Vec<MonsterTemplate>,
}

impl Clone for MonsterGeneratorParam {
    fn clone(&self) -> (r: Self)
        ensures
            r.templates@ == self.templates@,
    {
        let mut templates: Vec<MonsterTemplate> = Vec::with_capacity(self.templates.len());
        let mut i: usize = 0;
        while i < self.templates.len()
            invariant
                i <= self.templates.len(),
                templates@ == self.templates@.subrange(0, i as int),
            decreases self.templates.len() - i,
        {
            templates.push(self.templates[i]);
            assert(templates@ =~= self.templates@.subrange(0, i + 1));
            i += 1;
        }
        assert(templates@ =~= self.templates@);
        MonsterGeneratorParam { templates }
    }
}

impl Gen for MonsterTemplate {
    type Param = MonsterGeneratorParam;

    open spec fn accepts(param: &MonsterGeneratorParam) -> bool {
        param.templates@.len() > 0
    }

    open spec fn comes_from(self, param: &MonsterGeneratorParam) -> bool {
        param.templates@.contains(self)
    }

    /// Picks one of the templates.
    fn create(rng: &mut StdRng, param: &MonsterGeneratorParam) -> (r: MonsterTemplate) {
        choose_template(rng, &param.templates).unwrap()
    }
}

/// What steers the generation of a level.
#[derive(Debug)]
pub struct LevelGenStrategy {
    /// The bounds within which rooms are drawn.
    pub room_strategy: RoomGenStrategy,
    /// The number of candidate rooms that are drawn.
    pub max_rooms: usize,
    /// The number of monsters is drawn from this range; its end is excluded.
    pub monsters: Range<u8>,
    /// The templates from which monsters are made.
    pub monster_strategy: MonsterGeneratorParam,
}

impl Clone for LevelGenStrategy {
    fn clone(&self) -> (r: Self)
        ensures
            r.room_strategy == self.room_strategy,
            r.max_rooms == self.max_rooms,
            r.monsters == self.monsters,
            r.monster_strategy.templates@ == self.monster_strategy.templates@,
    {
        LevelGenStrategy {
            room_strategy: self.room_strategy,
            max_rooms: self.max_rooms,
            monsters: Range { start: self.monsters.start, end: self.monsters.end },
            monster_strategy: self.monster_strategy.clone(),
        }
    }
}

impl LevelGenStrategy {
    /// The first thing that is wrong with the strategy, if anything is.
    pub open spec fn fault(self) -> Option<ConfigError> {
        if self.room_strategy.fault() is Some {
            self.room_strategy.fault()
        } else if self.monsters.start >= self.monsters.end {
            Some(ConfigError::EmptyMonsterRange)
        } else if self.monsters.end > 1 && self.monster_strategy.templates@.len() == 0 {
            Some(ConfigError::NoTemplates)
        } else {
            None
        }
    }

    /// Whether a layout can be generated from the strategy.
    pub open spec fn valid(self) -> bool {
        self.fault() is None
    }

    /// The first thing that is wrong with the strategy for a level with
    /// extents `dim`, if anything is.
    pub open spec fn fault_in(self, dim: Dim) -> Option<ConfigError> {
        if self.fault() is Some {
            self.fault()
        } else if !self.room_strategy.fits(dim) {
            Some(ConfigError::OutsideLevel)
        } else {
            None
        }
    }

    /// Validates the strategy: `Ok` if a layout can be generated from it, else
    /// the first thing that is wrong.
    pub fn validate(&self) -> (r: Result<(), ConfigError>)
        ensures
            r == match self.fault() {
                Some(e) => Err::<(), ConfigError>(e),
                None => Ok::<(), ConfigError>(()),
            },
    {
        match self.room_strategy.validate() {
            Err(e) => Err(e),
            Ok(_) => {
                if self.monsters.start >= self.monsters.end {
                    Err(ConfigError::EmptyMonsterRange)
                } else if self.monsters.end > 1 && self.monster_strategy.templates.len() == 0 {
                    Err(ConfigError::NoTemplates)
                } else {
                    Ok(())
                }
            },
        }
    }

    /// Validates the strategy against the extents of the level that is to be
    /// carved: `Ok` if a level can be generated, else the first thing that is
    /// wrong.
    pub fn validate_for(&self, dim: Dim) -> (r: Result<(), ConfigError>)
        ensures
            r == match self.fault_in(dim) {
                Some(e) => Err::<(), ConfigError>(e),
                None => Ok::<(), ConfigError>(()),
            },
    {
        match self.validate() {
            Err(e) => Err(e),
            Ok(_) => {
                if self.room_strategy.max_pos.x as u16 + 1 < dim.width as u16
                    && self.room_strategy.max_pos.y as u16 + 1 < dim.height as u16 {
                    Ok(())
                } else {
                    Err(ConfigError::OutsideLevel)
                }
            },
        }
    }
}

/// The cells of all `rooms`, room after room.
pub open spec fn pool(rooms: Seq<Room>) -> Seq<Pos>
    decreases rooms.len(),
{
    if rooms.len() == 0 {
        Seq::empty()
    } else {
        pool(rooms.drop_last()) + rooms.last().positions()
    }
}

/// The pool holds exactly the cells that lie in one of the rooms.
pub proof fn lemma_pool_cells(rooms: Seq<Room>, p: Pos)
    requires
        all_wf(rooms),
    ensures
        pool(rooms).contains(p) <==> exists|i: int|
            0 <= i < rooms.len() && (#[trigger] rooms[i]).spec_contains(p),
    decreases rooms.len(),
{
    if rooms.len() > 0 {
        let front = rooms.drop_last();
        let last = rooms.last();
        lemma_pool_cells(front, p);
        lemma_room_positions(last, p);
        let a = pool(front);
        let b = last.positions();
        if pool(rooms).contains(p) {
            let k = choose|k: int| 0 <= k < (a + b).len() && (a + b)[k] == p;
            if k < a.len() {
                assert(a[k] == p);
                let i = choose|i: int| 0 <= i < front.len() && (#[trigger] front[i]).spec_contains(p);
                assert(rooms[i].spec_contains(p));
            } else {
                assert(b[k - a.len()] == p);
                assert(rooms[rooms.len() - 1].spec_contains(p));
            }
        }
        if exists|i: int| 0 <= i < rooms.len() && (#[trigger] rooms[i]).spec_contains(p) {
            let i = choose|i: int| 0 <= i < rooms.len() && (#[trigger] rooms[i]).spec_contains(p);
            if i < front.len() {
                assert(front[i].spec_contains(p));
                let k = choose|k: int| 0 <= k < a.len() && a[k] == p;
                assert((a + b)[k] == p);
            } else {
                let k = choose|k: int| 0 <= k < b.len() && b[k] == p;
                assert((a + b)[a.len() + k] == p);
            }
        }
    }
}

/// No cell occurs twice in the pool of rooms that do not intersect.
pub proof fn lemma_pool_distinct(rooms: Seq<Room>)
    requires
        all_wf(rooms),
        separate(rooms),
    ensures
        pool(rooms).no_duplicates(),
    decreases rooms.len(),
{
    if rooms.len() > 0 {
        let front = rooms.drop_last();
        let last = rooms.last();
        lemma_pool_distinct(front);
        let a = pool(front);
        let b = last.positions();
        assert forall|i: int, j: int|
            0 <= i < (a + b).len() && 0 <= j < (a + b).len() && i != j implies (a + b)[i] != (a
            + b)[j] by {
            lemma_room_positions(last, (a + b)[i]);
            lemma_room_positions(last, (a + b)[j]);
            lemma_pool_cells(front, (a + b)[i]);
            lemma_pool_cells(front, (a + b)[j]);
            if i < a.len() && j >= a.len() {
                assert(a.contains(a[i]));
                assert(b.contains(b[j - a.len()]));
                let k = choose|k: int|
                    0 <= k < front.len() && (#[trigger] front[k]).spec_contains(a[i]);
                assert(!rooms[k].spec_intersects(rooms[rooms.len() - 1]));
                lemma_separate_rooms(rooms[k], last);
            } else if j < a.len() && i >= a.len() {
                assert(a.contains(a[j]));
                assert(b.contains(b[i - a.len()]));
                let k = choose|k: int|
                    0 <= k < front.len() && (#[trigger] front[k]).spec_contains(a[j]);
                assert(!rooms[k].spec_intersects(rooms[rooms.len() - 1]));
                lemma_separate_rooms(rooms[k], last);
            }
        }
    }
}

/// Lists the cells of all `rooms`, room after room.
pub fn free_cells(rooms: &Vec<Room>) -> (cells: Vec<Pos>)
    ensures
        cells@ == pool(rooms@),
{
    let mut cells: Vec<Pos> = Vec::new();
    let mut i: usize = 0;
    assert(rooms@.subrange(0, 0) =~= Seq::<Room>::empty());
    while i < rooms.len()
        invariant
            i <= rooms.len(),
            cells@ == pool(rooms@.subrange(0, i as int)),
        decreases rooms.len() - i,
    {
        let mut more = rooms[i].iter_pos();
        proof {
            let next = rooms@.subrange(0, i + 1);
            assert(next.drop_last() =~= rooms@.subrange(0, i as int));
            assert(next.last() == rooms@[i as int]);
        }
        cells.append(&mut more);
        i += 1;
    }
    assert(rooms@.subrange(0, rooms@.len() as int) =~= rooms@);
    cells
}

/// Takes the cell at place `index` out of the free cells: the cells after it
/// move up by one, and the cell is handed back.
pub fn take_cell(free: &mut Vec<Pos>, index: usize) -> (cell: Pos)
    requires
        index < old(free)@.len(),
    ensures
        cell == old(free)@[index as int],
        final(free)@ == old(free)@.remove(index as int),
{
    free.remove(index)
}

/// What was generated for a level: its rooms, the corridors between them,
/// where the player starts, and which monster stands where.
#[derive(Debug, Clone)]
pub struct Level {
    pub rooms: Vec<Room>,
    pub corridors: Vec<LCorridor>,
    pub player_pos: Pos,
    pub monsters: Vec<(MonsterTemplate, Pos)>,
}

/// Whether `monsters` can be what was placed for `count` monsters wanted in
/// `rooms` from `templates`: as many as wanted unless the cells ran out,
/// each made from one of the templates, each in a cell of a room, no two in
/// the same cell.
pub open spec fn monsters_placed(
    monsters: Seq<(MonsterTemplate, Pos)>,
    rooms: Seq<Room>,
    templates: Seq<MonsterTemplate>,
    count: int,
) -> bool {
    &&& monsters.len() == if count <= pool(rooms).len() {
        count
    } else {
        pool(rooms).len() as int
    }
    &&& forall|k: int| 0 <= k < monsters.len() ==> templates.contains((#[trigger] monsters[k]).0)
    &&& forall|k: int| 0 <= k < monsters.len() ==> pool(rooms).contains((#[trigger] monsters[k]).1)
    &&& forall|k: int, l: int|
        0 <= k < monsters.len() && 0 <= l < monsters.len() && k != l ==> (#[trigger] monsters[k]).1
            != (#[trigger] monsters[l]).1
}

/// Places `count` monsters in cells of `rooms`: for each a template is
/// picked, and a cell is drawn from those still free and taken out of them.
/// Once no cell is free, nothing more is placed.
pub fn place_monsters(
    rng: &mut StdRng,
    rooms: &Vec<Room>,
    param: &MonsterGeneratorParam,
    count: u8,
) -> (monsters: Vec<(MonsterTemplate, Pos)>)
    requires
        count > 0 ==> param.templates@.len() > 0,
        all_wf(rooms@),
        separate(rooms@),
    ensures
        monsters_placed(monsters@, rooms@, param.templates@, count as int),
{
    let mut free_pos = free_cells(rooms);
    let ghost all = free_pos@;
    proof {
        lemma_pool_distinct(rooms@);
    }
    let mut monsters: Vec<(MonsterTemplate, Pos)> = Vec::with_capacity(count as usize);
    let mut placed: u8 = 0;
    while placed < count
        invariant
            placed <= count,
            count > 0 ==> param.templates@.len() > 0,
            all == pool(rooms@),
            all.no_duplicates(),
            free_pos@.no_duplicates(),
            monsters@.len() + free_pos@.len() == all.len(),
            monsters@.len() == if placed <= all.len() {
                placed as int
            } else {
                all.len() as int
            },
            forall|k: int| 0 <= k < free_pos@.len() ==> all.contains(#[trigger] free_pos@[k]),
            forall|k: int|
                0 <= k < monsters@.len() ==> param.templates@.contains((#[trigger] monsters@[k]).0),
            forall|k: int| 0 <= k < monsters@.len() ==> all.contains((#[trigger] monsters@[k]).1),
            forall|k: int|
                0 <= k < monsters@.len() ==> !free_pos@.contains((#[trigger] monsters@[k]).1),
            forall|k: int, l: int|
                0 <= k < monsters@.len() && 0 <= l < monsters@.len() && k != l ==> (
                #[trigger] monsters@[k]).1 != (#[trigger] monsters@[l]).1,
        decreases count - placed,
    {
        let monster_template = MonsterTemplate::create(rng, param);
        if free_pos.len() > 0 {
            let pos_index = range_usize(rng, 0, free_pos.len());
            let ghost free_before = free_pos@;
            let ghost monsters_before = monsters@;
            let pos = take_cell(&mut free_pos, pos_index);
            monsters.push((monster_template, pos));
            proof {
                assert(free_before.contains(pos));
                assert forall|k: int| 0 <= k < free_pos@.len() implies free_pos@[k] != pos
                    && free_before.contains(#[trigger] free_pos@[k]) by {
                    if k < pos_index {
                        assert(free_pos@[k] == free_before[k]);
                    } else {
                        assert(free_pos@[k] == free_before[k + 1]);
                    }
                }
                assert(!free_pos@.contains(pos));
                assert forall|k: int| 0 <= k < monsters@.len() implies !free_pos@.contains(
                    (#[trigger] monsters@[k]).1,
                ) by {
                    if k < monsters_before.len() {
                        assert(monsters@[k] == monsters_before[k]);
                        if free_pos@.contains(monsters@[k].1) {
                            let m = choose|m: int|
                                0 <= m < free_pos@.len() && free_pos@[m] == monsters@[k].1;
                            assert(free_before.contains(free_pos@[m]));
                        }
                    }
                }
                assert forall|k: int, l: int|
                    0 <= k < monsters@.len() && 0 <= l < monsters@.len() && k != l implies (
                #[trigger] monsters@[k]).1 != (#[trigger] monsters@[l]).1 by {
                    if k < monsters_before.len() {
                        assert(monsters@[k] == monsters_before[k]);
                    }
                    if l < monsters_before.len() {
                        assert(monsters@[l] == monsters_before[l]);
                    }
                }
                assert(free_pos@.no_duplicates());
            }
        }
        placed += 1;
    }
    monsters
}

impl Level {
    /// Whether the layout can be what `create` makes for `strategy`.
    pub open spec fn laid_out(self, strategy: LevelGenStrategy) -> bool {
        &&& rooms_laid_out(self.rooms@, strategy.room_strategy, strategy.max_rooms)
        &&& linked(self.rooms@, self.corridors@)
        &&& self.player_pos == if self.rooms@.len() > 0 {
            self.rooms@[0].spec_center()
        } else {
            strategy.room_strategy.min_pos
        }
        &&& exists|count: int|
            strategy.monsters.start <= count && count < strategy.monsters.end
                && #[trigger] monsters_placed(
                self.monsters@,
                self.rooms@,
                strategy.monster_strategy.templates@,
                count,
            )
    }
}

impl Gen for Level {
    type Param = LevelGenStrategy;

    open spec fn accepts(param: &LevelGenStrategy) -> bool {
        param.valid()
    }

    open spec fn comes_from(self, param: &LevelGenStrategy) -> bool {
        self.laid_out(*param)
    }

    /// Draws and joins the rooms, starts the player in the centre of the
    /// first of them, draws how many monsters there are, and places them.
    /// Without any room the player starts at the least position that a room
    /// could have had.
    fn create(rng: &mut StdRng, param: &LevelGenStrategy) -> (r: Level) {
        let rooms_param = RoomsGenStrategy {
            room_strategy: param.room_strategy,
            max_rooms: param.max_rooms,
        };
        let Rooms { rooms, corridors } = Rooms::create(rng, &rooms_param);
        let player_pos = if rooms.len() > 0 {
            rooms[0].center()
        } else {
            param.room_strategy.min_pos
        };
        let monster_count = range_u8(rng, param.monsters.start, param.monsters.end);
        let monsters = place_monsters(rng, &rooms, &param.monster_strategy, monster_count);
        let r = Level { rooms, corridors, player_pos, monsters };
        assert(monsters_placed(
            r.monsters@,
            r.rooms@,
            param.monster_strategy.templates@,
            monster_count as int,
        ));
        r
    }
}

} // verus!
