use rand::rngs::StdRng;
use rand::SeedableRng;
use rogue_tutorial::components::IsFighter;
use rogue_tutorial::corridor::LCorridor;
use rogue_tutorial::dim::Dim;
use rogue_tutorial::generators::any_intersects;
use rogue_tutorial::generators::connect_rooms;
use rogue_tutorial::generators::draw_rooms;
use rogue_tutorial::generators::free_cells;
use rogue_tutorial::generators::place_monsters;
use rogue_tutorial::generators::place_room;
use rogue_tutorial::generators::take_cell;
use rogue_tutorial::generators::ConfigError;
use rogue_tutorial::generators::Gen;
use rogue_tutorial::generators::Level;
use rogue_tutorial::generators::LevelGenStrategy;
use rogue_tutorial::generators::MonsterGeneratorParam;
use rogue_tutorial::generators::RoomGenStrategy;
use rogue_tutorial::generators::Rooms;
use rogue_tutorial::generators::RoomsGenStrategy;
use rogue_tutorial::level_data::HasWall;
use rogue_tutorial::level_data::LevelInfo;
use rogue_tutorial::level_data::TileType;
use rogue_tutorial::levels::carve;
use rogue_tutorial::levels::generate;
use rogue_tutorial::levels::level_1;
use rogue_tutorial::levels::level_1_strategy;
use rogue_tutorial::pos::Pos;
use rogue_tutorial::pos::PosCollection;
use rogue_tutorial::races::all_monsters;
use rogue_tutorial::races::orc_race;
use rogue_tutorial::races::troll_race;
use rogue_tutorial::render::Color;
use rogue_tutorial::room::Room;
use rogue_tutorial::sorting::sort_rooms;
use rogue_tutorial::world_data::MonsterTemplate;
use rogue_tutorial::world_data::Race;
use std::collections::HashSet;

fn room_bounds() -> RoomGenStrategy {
    RoomGenStrategy {
        min_dim: Dim { width: 6, height: 6 },
        max_dim: Dim { width: 10, height: 10 },
        max_pos: Pos { x: 88, y: 43 },
        min_pos: Pos { x: 1, y: 1 },
    }
}

fn strategy(max_rooms: usize, monsters: std::ops::Range<u8>) -> LevelGenStrategy {
    LevelGenStrategy {
        room_strategy: room_bounds(),
        max_rooms,
        monsters,
        monster_strategy: MonsterGeneratorParam { templates: all_monsters() },
    }
}

fn expected_tile(layout: &Level, p: Pos) -> TileType {
    if layout.corridors.iter().any(|c| c.iter_pos().contains(&p)) {
        TileType::Ground
    } else if layout.rooms.iter().any(|r| r.walls().contains(&p)) {
        TileType::RoomWall
    } else if layout.rooms.iter().any(|r| r.contains(p)) {
        TileType::Ground
    } else {
        TileType::Wall
    }
}

fn check_layout(layout: &Level, s: &LevelGenStrategy) {
    let rgs = s.room_strategy;
    assert!(layout.rooms.len() <= s.max_rooms);
    if s.max_rooms > 0 {
        assert!(!layout.rooms.is_empty());
    }
    for room in &layout.rooms {
        assert!(room.from.x >= rgs.min_pos.x);
        assert!(room.from.y >= rgs.min_pos.y);
        assert!(room.to.x <= rgs.max_pos.x);
        assert!(room.to.y <= rgs.max_pos.y);
        assert!(room.width() >= rgs.min_dim.width);
        assert!(room.height() >= rgs.min_dim.height);
        assert!(room.width() <= rgs.max_dim.width);
        assert!(room.height() <= rgs.max_dim.height);
    }
    for (i1, r1) in layout.rooms.iter().enumerate() {
        for (i2, r2) in layout.rooms.iter().enumerate() {
            if i1 != i2 {
                assert!(!r1.intersects(r2), "{:?} intersects with {:?}", r1, r2);
            }
            if i1 < i2 {
                assert!(r1.center().weight() <= r2.center().weight());
            }
        }
    }
    assert_eq!(layout.corridors.len(), layout.rooms.len().saturating_sub(1));
    for (i, c) in layout.corridors.iter().enumerate() {
        assert_eq!(c.from, layout.rooms[i].center());
        assert_eq!(c.to, layout.rooms[i + 1].center());
        assert_ne!(c.from, c.to);
    }
    if let Some(first) = layout.rooms.first() {
        assert_eq!(layout.player_pos, first.center());
    } else {
        assert_eq!(layout.player_pos, rgs.min_pos);
    }
    let pool: usize = layout.rooms.iter().map(|r| r.iter_pos().len()).sum();
    assert!(layout.monsters.len() < s.monsters.end as usize);
    assert!(layout.monsters.len() >= (s.monsters.start as usize).min(pool));
    assert!(layout.monsters.len() <= pool);
    let mut cells = HashSet::new();
    for (template, pos) in &layout.monsters {
        assert!(s.monster_strategy.templates.contains(template));
        assert!(layout.rooms.iter().any(|r| r.contains(*pos)));
        assert!(cells.insert(*pos));
    }
}

#[test]
fn first_level_keeps_its_strategy() {
    for seed in 0..20 {
        let mut rng = StdRng::seed_from_u64(seed);
        let (level, layout) = level_1(&mut rng);
        let s = level_1_strategy();
        assert_eq!(s.max_rooms, 30);
        assert_eq!(s.room_strategy, room_bounds());
        assert_eq!(s.monsters, 20..30);
        check_layout(&layout, &s);
        assert!(layout.rooms.len() <= 30);
        assert_eq!(layout.corridors.len(), layout.rooms.len() - 1);
        assert_eq!(level.dim(), Dim { width: 90, height: 45 });
        for p in level.iter_pos() {
            assert_eq!(level[p], expected_tile(&layout, p), "at {:?}", p);
        }
        assert!(layout.monsters.len() >= 20 && layout.monsters.len() < 30);
        assert_eq!(level[layout.player_pos], TileType::Ground);
    }
}

#[test]
fn rooms_come_in_more_than_one_size_and_place() {
    let mut rng = StdRng::seed_from_u64(11);
    let (_, layout) = level_1(&mut rng);
    let widths: HashSet<u8> = layout.rooms.iter().map(|r| r.width()).collect();
    let corners: HashSet<Pos> = layout.rooms.iter().map(|r| r.from).collect();
    let cells: HashSet<Pos> = layout.monsters.iter().map(|m| m.1).collect();
    assert!(widths.len() > 1);
    assert!(corners.len() > 1);
    assert!(cells.len() > 1);
    let mut kinds = HashSet::new();
    let mut legs = HashSet::new();
    for seed in 0..8 {
        let mut rng = StdRng::seed_from_u64(seed);
        let (_, layout) = level_1(&mut rng);
        for (t, _) in &layout.monsters {
            kinds.insert(t.race.unwrap().default_char);
        }
        for c in &layout.corridors {
            legs.insert(c.horizontal_first);
        }
    }
    assert_eq!(kinds.len(), 2);
    assert_eq!(legs.len(), 2);
}

#[test]
fn same_seed_gives_the_same_level() {
    for seed in [0u64, 1, 42, 1 << 40] {
        let s = strategy(30, 20..30);
        let dim = Dim { width: 90, height: 45 };
        let (level_a, layout_a) = generate(&mut StdRng::seed_from_u64(seed), dim, &s).unwrap();
        let (level_b, layout_b) = generate(&mut StdRng::seed_from_u64(seed), dim, &s).unwrap();
        assert_eq!(layout_a.rooms, layout_b.rooms);
        assert_eq!(layout_a.corridors, layout_b.corridors);
        assert_eq!(layout_a.player_pos, layout_b.player_pos);
        assert_eq!(layout_a.monsters, layout_b.monsters);
        assert_eq!(level_a.dim(), level_b.dim());
        for p in level_a.iter_pos() {
            assert_eq!(level_a[p], level_b[p]);
        }
    }
    let s = strategy(30, 20..30);
    let dim = Dim { width: 90, height: 45 };
    let (_, one) = generate(&mut StdRng::seed_from_u64(1), dim, &s).unwrap();
    let (_, two) = generate(&mut StdRng::seed_from_u64(2), dim, &s).unwrap();
    assert_ne!(one.rooms, two.rooms);
}

#[test]
fn room_gen_generates_room_in_bounds() {
    let mut rng = StdRng::seed_from_u64(5);
    let bounds = [
        room_bounds(),
        RoomGenStrategy {
            min_dim: Dim { width: 1, height: 1 },
            max_dim: Dim { width: 1, height: 1 },
            max_pos: Pos { x: 2, y: 2 },
            min_pos: Pos { x: 1, y: 1 },
        },
        RoomGenStrategy {
            min_dim: Dim { width: 1, height: 200 },
            max_dim: Dim { width: 253, height: 253 },
            max_pos: Pos { x: 254, y: 254 },
            min_pos: Pos { x: 1, y: 1 },
        },
    ];
    for rgs in bounds {
        assert_eq!(rgs.validate(), Ok(()));
        for _ in 0..200 {
            let room = Room::create(&mut rng, &rgs);
            assert!(room.from.x >= rgs.min_pos.x);
            assert!(room.from.y >= rgs.min_pos.y);
            assert!(room.to.x <= rgs.max_pos.x);
            assert!(room.to.y <= rgs.max_pos.y);
            assert!(room.width() >= rgs.min_dim.width);
            assert!(room.height() >= rgs.min_dim.height);
            assert!(room.width() <= rgs.max_dim.width);
            assert!(room.height() <= rgs.max_dim.height);
        }
    }
}

#[test]
fn rooms_gen_generates_room_in_bounds() {
    for max_rooms in [0usize, 1, 2, 29, 200] {
        let mut rng = StdRng::seed_from_u64(max_rooms as u64);
        let param = RoomsGenStrategy { room_strategy: room_bounds(), max_rooms };
        let made = Rooms::create(&mut rng, &param);
        let layout = Level {
            rooms: made.rooms,
            corridors: made.corridors,
            player_pos: Pos { x: 1, y: 1 },
            monsters: Vec::new(),
        };
        assert!(layout.rooms.len() <= max_rooms);
        assert_eq!(layout.corridors.len(), layout.rooms.len().saturating_sub(1));
        for (i1, r1) in layout.rooms.iter().enumerate() {
            for (i2, r2) in layout.rooms.iter().enumerate() {
                if i1 != i2 {
                    assert!(!r1.intersects(r2));
                }
            }
        }
        if max_rooms > 0 {
            assert!(!layout.rooms.is_empty());
        }
    }
}

#[test]
fn no_room_and_one_room_give_a_level_without_corridors() {
    let dim = Dim { width: 90, height: 45 };
    let s = strategy(0, 20..30);
    let (level, layout) = generate(&mut StdRng::seed_from_u64(3), dim, &s).unwrap();
    check_layout(&layout, &s);
    assert!(layout.rooms.is_empty());
    assert!(layout.corridors.is_empty());
    assert!(layout.monsters.is_empty());
    assert_eq!(layout.player_pos, Pos { x: 1, y: 1 });
    assert!(level.iter_pos().into_iter().all(|p| level[p] == TileType::Wall));

    let s = strategy(1, 0..1);
    let (level, layout) = generate(&mut StdRng::seed_from_u64(3), dim, &s).unwrap();
    check_layout(&layout, &s);
    assert_eq!(layout.rooms.len(), 1);
    assert!(layout.corridors.is_empty());
    assert!(layout.monsters.is_empty());
    for p in level.iter_pos() {
        assert_eq!(level[p], expected_tile(&layout, p));
    }
}

#[test]
fn monsters_stop_when_the_cells_run_out() {
    let tiny = RoomGenStrategy {
        min_dim: Dim { width: 1, height: 1 },
        max_dim: Dim { width: 1, height: 1 },
        max_pos: Pos { x: 2, y: 2 },
        min_pos: Pos { x: 1, y: 1 },
    };
    let s = LevelGenStrategy {
        room_strategy: tiny,
        max_rooms: 5,
        monsters: 20..30,
        monster_strategy: MonsterGeneratorParam { templates: all_monsters() },
    };
    let dim = Dim { width: 4, height: 4 };
    let (level, layout) = generate(&mut StdRng::seed_from_u64(9), dim, &s).unwrap();
    check_layout(&layout, &s);
    assert_eq!(layout.rooms, vec![Room { from: Pos { x: 1, y: 1 }, to: Pos { x: 2, y: 2 } }]);
    assert_eq!(layout.monsters.len(), 4);
    assert_eq!(level[Pos { x: 0, y: 0 }], TileType::RoomWall);
    assert_eq!(level[Pos { x: 3, y: 3 }], TileType::RoomWall);
    assert_eq!(level[Pos { x: 1, y: 2 }], TileType::Ground);
}

#[test]
fn each_fault_of_a_strategy_is_named() {
    let good = room_bounds();
    assert_eq!(good.validate(), Ok(()));
    let mut s = good;
    s.min_dim.width = 0;
    assert_eq!(s.validate(), Err(ConfigError::ZeroMinDim));
    let mut s = good;
    s.min_dim.height = 0;
    assert_eq!(s.validate(), Err(ConfigError::ZeroMinDim));
    let mut s = good;
    s.min_dim.width = 11;
    assert_eq!(s.validate(), Err(ConfigError::InvertedDim));
    let mut s = good;
    s.min_pos.y = 0;
    assert_eq!(s.validate(), Err(ConfigError::MinPosOnBorder));
    let mut s = good;
    s.max_pos.x = 10;
    assert_eq!(s.validate(), Err(ConfigError::NoSpace));
    s.max_pos.x = 11;
    assert_eq!(s.validate(), Ok(()));
    let mut s = good;
    s.max_pos.y = 255;
    assert_eq!(s.validate(), Err(ConfigError::MaxPosOnEdge));
    let mut s = good;
    s.min_pos = Pos { x: 250, y: 250 };
    s.max_pos = Pos { x: 255, y: 255 };
    assert_eq!(s.validate(), Err(ConfigError::NoSpace));

    let mut l = strategy(30, 20..30);
    assert_eq!(l.validate(), Ok(()));
    l.monsters = 5..5;
    assert_eq!(l.validate(), Err(ConfigError::EmptyMonsterRange));
    l.monsters = 6..5;
    assert_eq!(l.validate(), Err(ConfigError::EmptyMonsterRange));
    l.monsters = 0..2;
    l.monster_strategy.templates.clear();
    assert_eq!(l.validate(), Err(ConfigError::NoTemplates));
    l.monsters = 0..1;
    assert_eq!(l.validate(), Ok(()));
    l.room_strategy.min_dim.width = 0;
    assert_eq!(l.validate(), Err(ConfigError::ZeroMinDim));

    let l = strategy(30, 20..30);
    assert_eq!(l.validate_for(Dim { width: 90, height: 45 }), Ok(()));
    assert_eq!(l.validate_for(Dim { width: 89, height: 45 }), Err(ConfigError::OutsideLevel));
    assert_eq!(l.validate_for(Dim { width: 90, height: 44 }), Err(ConfigError::OutsideLevel));
    assert_eq!(l.validate_for(Dim { width: 0, height: 0 }), Err(ConfigError::OutsideLevel));
    let mut rng = StdRng::seed_from_u64(1);
    let refused = generate(&mut rng, Dim { width: 89, height: 45 }, &l);
    assert_eq!(refused.err(), Some(ConfigError::OutsideLevel));
    let mut bad = strategy(30, 20..30);
    bad.room_strategy.min_dim.height = 0;
    let refused = generate(&mut rng, Dim { width: 90, height: 45 }, &bad);
    assert_eq!(refused.err(), Some(ConfigError::ZeroMinDim));
}

#[test]
fn a_candidate_is_placed_unless_it_comes_too_close() {
    let a = Room { from: Pos { x: 1, y: 1 }, to: Pos { x: 3, y: 3 } };
    let near = Room { from: Pos { x: 4, y: 1 }, to: Pos { x: 6, y: 3 } };
    let far = Room { from: Pos { x: 5, y: 1 }, to: Pos { x: 7, y: 3 } };
    let mut rooms = Vec::new();
    assert!(place_room(&mut rooms, a));
    assert!(!place_room(&mut rooms, near));
    assert_eq!(rooms, vec![a]);
    assert!(any_intersects(&rooms, &near));
    assert!(!any_intersects(&rooms, &far));
    assert!(place_room(&mut rooms, far));
    assert_eq!(rooms, vec![a, far]);
    assert!(!place_room(&mut rooms, a));
}

#[test]
fn rooms_are_sorted_by_the_weight_of_their_centres() {
    let room = |x: u8, y: u8| Room { from: Pos { x, y }, to: Pos { x: x + 2, y: y + 2 } };
    let mut rooms = vec![room(40, 40), room(1, 21), room(21, 1), room(11, 11), room(1, 1)];
    assert_eq!(rooms[1].center().weight(), rooms[2].center().weight());
    assert_eq!(rooms[1].center().weight(), rooms[3].center().weight());
    sort_rooms(&mut rooms);
    assert_eq!(rooms, vec![room(1, 1), room(1, 21), room(21, 1), room(11, 11), room(40, 40)]);
    let mut none: Vec<Room> = Vec::new();
    sort_rooms(&mut none);
    assert!(none.is_empty());
    let mut falling: Vec<Room> = (1..60u8).rev().map(|i| room(i * 4, 1)).collect();
    sort_rooms(&mut falling);
    let rising: Vec<Room> = (1..60u8).map(|i| room(i * 4, 1)).collect();
    assert_eq!(falling, rising);
}

#[test]
fn corridors_join_each_room_to_the_one_before() {
    let room = |x: u8, y: u8| Room { from: Pos { x, y }, to: Pos { x: x + 2, y: y + 2 } };
    let rooms = vec![room(1, 1), room(10, 1), room(10, 10)];
    let mut rng = StdRng::seed_from_u64(0);
    let corridors = connect_rooms(&mut rng, &rooms);
    assert_eq!(corridors.len(), 2);
    assert_eq!((corridors[0].from, corridors[0].to), (Pos { x: 2, y: 2 }, Pos { x: 11, y: 2 }));
    assert_eq!((corridors[1].from, corridors[1].to), (Pos { x: 11, y: 2 }, Pos { x: 11, y: 11 }));
    assert!(connect_rooms(&mut rng, &vec![room(1, 1)]).is_empty());
    assert!(connect_rooms(&mut rng, &Vec::new()).is_empty());
    assert!(draw_rooms(&mut rng, &room_bounds(), 0).is_empty());
    assert_eq!(draw_rooms(&mut rng, &room_bounds(), 1).len(), 1);
}

#[test]
fn free_cells_are_taken_without_replacement() {
    let room = |x: u8, y: u8| Room { from: Pos { x, y }, to: Pos { x: x + 1, y: y + 1 } };
    let rooms = vec![room(1, 1), room(5, 5)];
    let mut free = free_cells(&rooms);
    assert_eq!(
        free,
        vec![
            Pos { x: 1, y: 1 },
            Pos { x: 1, y: 2 },
            Pos { x: 2, y: 1 },
            Pos { x: 2, y: 2 },
            Pos { x: 5, y: 5 },
            Pos { x: 5, y: 6 },
            Pos { x: 6, y: 5 },
            Pos { x: 6, y: 6 },
        ]
    );
    assert_eq!(take_cell(&mut free, 2), Pos { x: 2, y: 1 });
    assert_eq!(free.len(), 7);
    assert_eq!(free[2], Pos { x: 2, y: 2 });
    assert_eq!(take_cell(&mut free, 6), Pos { x: 6, y: 6 });
    assert_eq!(take_cell(&mut free, 0), Pos { x: 1, y: 1 });
    assert_eq!(free.len(), 5);

    let mut rng = StdRng::seed_from_u64(4);
    let param = MonsterGeneratorParam { templates: all_monsters() };
    let monsters = place_monsters(&mut rng, &rooms, &param, 200);
    assert_eq!(monsters.len(), 8);
    let cells: HashSet<Pos> = monsters.iter().map(|m| m.1).collect();
    assert_eq!(cells.len(), 8);
    let monsters = place_monsters(&mut rng, &rooms, &param, 3);
    assert_eq!(monsters.len(), 3);
    let mut orders = HashSet::new();
    for _ in 0..20 {
        let cells: Vec<Pos> =
            place_monsters(&mut rng, &rooms, &param, 8).into_iter().map(|m| m.1).collect();
        orders.insert(cells);
    }
    assert!(orders.len() > 1);
    assert!(!orders.contains(&free_cells(&rooms)));
    let none = MonsterGeneratorParam { templates: Vec::new() };
    assert!(place_monsters(&mut rng, &rooms, &none, 0).is_empty());
}

#[test]
fn a_template_is_one_of_those_given() {
    let mut rng = StdRng::seed_from_u64(4);
    let only_trolls = MonsterGeneratorParam { templates: vec![troll_race().to_template()] };
    for _ in 0..10 {
        assert_eq!(MonsterTemplate::create(&mut rng, &only_trolls), troll_race().to_template());
    }
    let both = MonsterGeneratorParam { templates: all_monsters() };
    let mut seen = HashSet::new();
    for _ in 0..50 {
        seen.insert(MonsterTemplate::create(&mut rng, &both).race.unwrap().default_char);
    }
    assert_eq!(seen.len(), 2);
    assert_eq!(orc_race().to_template().fight_skills().power, 3);
    assert_eq!(troll_race().default_fight_skill.max_hp, 16);
    assert_eq!(
        all_monsters(),
        vec![
            MonsterTemplate {
                race: Some(Race {
                    default_char: 'o',
                    default_color: Color { r: 63, g: 127, b: 63 },
                    default_fight_skill: IsFighter { max_hp: 10, current_hp: 10, power: 3, defense: 0 },
                }),
            },
            MonsterTemplate {
                race: Some(Race {
                    default_char: 'T',
                    default_color: Color { r: 0, g: 127, b: 0 },
                    default_fight_skill: IsFighter { max_hp: 16, current_hp: 16, power: 4, defense: 1 },
                }),
            },
        ]
    );
    assert_eq!(level_1_strategy().monster_strategy.templates, all_monsters());
}

#[test]
fn corridors_open_the_walls_they_cross() {
    let a = Room { from: Pos { x: 1, y: 1 }, to: Pos { x: 3, y: 3 } };
    let b = Room { from: Pos { x: 7, y: 1 }, to: Pos { x: 9, y: 3 } };
    let link = LCorridor::new(a.center(), b.center(), true);
    let mut level = LevelInfo::new(12, 6);
    carve(&mut level, &vec![a, b], &vec![link]);
    assert_eq!((link.from, link.to), (Pos { x: 2, y: 2 }, Pos { x: 8, y: 2 }));
    assert_eq!(level[Pos { x: 4, y: 2 }], TileType::Ground);
    assert_eq!(level[Pos { x: 5, y: 2 }], TileType::Ground);
    assert_eq!(level[Pos { x: 6, y: 2 }], TileType::Ground);
    assert_eq!(level[Pos { x: 4, y: 1 }], TileType::RoomWall);
    assert_eq!(level[Pos { x: 5, y: 1 }], TileType::Wall);
    assert_eq!(level[Pos { x: 0, y: 0 }], TileType::RoomWall);
    assert_eq!(level[Pos { x: 2, y: 2 }], TileType::Ground);
    assert_eq!(level[Pos { x: 11, y: 5 }], TileType::Wall);
    let layout = Level {
        rooms: vec![a, b],
        corridors: vec![link],
        player_pos: a.center(),
        monsters: Vec::new(),
    };
    for p in level.iter_pos() {
        assert_eq!(level[p], expected_tile(&layout, p));
    }
}
