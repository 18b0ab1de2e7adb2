use rand::rngs::StdRng;
use rand::SeedableRng;
use rogue_tutorial::dim::Dim;
use rogue_tutorial::fov::calculate_fov;
use rogue_tutorial::fov::is_visible;
use rogue_tutorial::level_data::LevelInfo;
use rogue_tutorial::level_data::TileType;
use rogue_tutorial::levels::level_1;
use rogue_tutorial::matrix::Matrix;
use rogue_tutorial::pos::Pos;
use rogue_tutorial::pos::PosCollection;
use rogue_tutorial::vision::any_true;
use rogue_tutorial::vision::merge_mask;
use rogue_tutorial::vision::Fov;
use rogue_tutorial::vision::FovState;
use rogue_tutorial::vision::HasVision;

fn open_level(width: u8, height: u8, walls: &[(u8, u8)]) -> LevelInfo {
    let mut level = LevelInfo::new(width, height);
    for p in level.iter_pos() {
        level.set(p, TileType::Ground);
    }
    for (x, y) in walls {
        level.set(Pos { x: *x, y: *y }, TileType::Wall);
    }
    level
}

fn seen(mask: &Matrix<bool>) -> Vec<Pos> {
    mask.iter_pos().into_iter().filter(|p| mask[*p]).collect()
}

#[test]
fn origin_is_always_visible() {
    let level = open_level(7, 5, &[(3, 2)]);
    for origin in level.iter_pos() {
        for radius in [0u8, 1, 3, 255] {
            let mask = calculate_fov(&level, origin, radius);
            assert_eq!(mask.dim(), level.dim());
            assert!(mask[origin]);
        }
    }
    let rock = LevelInfo::new(3, 3);
    assert!(calculate_fov(&rock, Pos { x: 1, y: 1 }, 2)[Pos { x: 1, y: 1 }]);
}

#[test]
fn radius_zero_shows_the_origin_alone() {
    let level = open_level(7, 5, &[]);
    for origin in level.iter_pos() {
        let mask = calculate_fov(&level, origin, 0);
        assert_eq!(seen(&mask), vec![origin]);
    }
}

#[test]
fn radius_is_measured_as_the_crow_flies() {
    let level = open_level(9, 9, &[]);
    let origin = Pos { x: 4, y: 4 };
    let mask = calculate_fov(&level, origin, 2);
    for p in level.iter_pos() {
        let dx = p.x as i32 - 4;
        let dy = p.y as i32 - 4;
        assert_eq!(mask[p], dx * dx + dy * dy <= 4, "at {:?}", p);
    }
    assert_eq!(seen(&mask).len(), 13);
    let one = calculate_fov(&level, origin, 1);
    assert_eq!(
        seen(&one),
        vec![
            Pos { x: 4, y: 3 },
            Pos { x: 3, y: 4 },
            Pos { x: 4, y: 4 },
            Pos { x: 5, y: 4 },
            Pos { x: 4, y: 5 },
        ]
    );
}

#[test]
fn a_wall_is_seen_and_hides_what_lies_behind() {
    let level = open_level(6, 1, &[(2, 0)]);
    let mask = calculate_fov(&level, Pos { x: 0, y: 0 }, 5);
    assert_eq!(seen(&mask), vec![Pos { x: 0, y: 0 }, Pos { x: 1, y: 0 }, Pos { x: 2, y: 0 }]);
    let from_behind = calculate_fov(&level, Pos { x: 5, y: 0 }, 5);
    assert_eq!(
        seen(&from_behind),
        vec![Pos { x: 2, y: 0 }, Pos { x: 3, y: 0 }, Pos { x: 4, y: 0 }, Pos { x: 5, y: 0 }]
    );
}

#[test]
fn the_line_rounds_halves_up() {
    let blocked = open_level(3, 2, &[(1, 1)]);
    assert!(!is_visible(&blocked, Pos { x: 0, y: 0 }, 9, Pos { x: 2, y: 1 }));
    assert!(!is_visible(&blocked, Pos { x: 2, y: 1 }, 9, Pos { x: 0, y: 0 }));
    let clear = open_level(3, 2, &[(1, 0)]);
    assert!(is_visible(&clear, Pos { x: 0, y: 0 }, 9, Pos { x: 2, y: 1 }));
    assert!(is_visible(&clear, Pos { x: 2, y: 1 }, 9, Pos { x: 0, y: 0 }));
    assert!(!is_visible(&clear, Pos { x: 0, y: 0 }, 9, Pos { x: 2, y: 0 }));
    assert!(!is_visible(&clear, Pos { x: 0, y: 0 }, 2, Pos { x: 2, y: 1 }));
    assert!(!is_visible(&clear, Pos { x: 0, y: 0 }, 9, Pos { x: 3, y: 1 }));
    assert!(!is_visible(&clear, Pos { x: 3, y: 1 }, 9, Pos { x: 0, y: 0 }));
}

#[test]
fn sight_is_mutual() {
    let mut rng = StdRng::seed_from_u64(7);
    let (level, _) = level_1(&mut rng);
    let cells = level.iter_pos();
    let mut pairs = 0;
    let mut seen_pairs = 0;
    for a in cells.iter().step_by(37) {
        let from_a = calculate_fov(&level, *a, 12);
        for b in cells.iter().step_by(11) {
            let there = from_a[*b];
            let back = is_visible(&level, *b, 12, *a);
            assert_eq!(there, back, "{:?} and {:?}", a, b);
            pairs += 1;
            if there {
                seen_pairs += 1;
            }
        }
    }
    assert!(pairs > 1000);
    assert!(seen_pairs > 100);
    let small = open_level(6, 6, &[(2, 2), (3, 1), (1, 4), (4, 4)]);
    for a in small.iter_pos() {
        for b in small.iter_pos() {
            assert_eq!(is_visible(&small, a, 4, b), is_visible(&small, b, 4, a));
        }
    }
}

#[test]
fn nothing_behind_a_wall_on_the_line_is_seen() {
    let level = open_level(9, 9, &[(4, 3), (5, 5)]);
    let origin = Pos { x: 4, y: 4 };
    let mask = calculate_fov(&level, origin, 8);
    assert!(mask[Pos { x: 4, y: 3 }]);
    assert!(!mask[Pos { x: 4, y: 2 }]);
    assert!(!mask[Pos { x: 4, y: 0 }]);
    assert!(mask[Pos { x: 5, y: 5 }]);
    assert!(!mask[Pos { x: 6, y: 6 }]);
    assert!(!mask[Pos { x: 8, y: 8 }]);
    assert!(mask[Pos { x: 0, y: 4 }]);
    assert!(mask[Pos { x: 0, y: 8 }]);
}

#[test]
fn memory_is_the_union_of_all_views() {
    let level = open_level(12, 3, &[(6, 0), (6, 1), (6, 2)]);
    let mut vis = HasVision::new(3);
    assert!(vis.fov().is_none());
    assert!(vis.memory().is_none());
    assert_eq!(vis.state(), FovState::NoFovYet);
    let mut union: Matrix<bool> = Matrix::new(12, 3);
    let spots = [Pos { x: 0, y: 0 }, Pos { x: 3, y: 1 }, Pos { x: 9, y: 2 }, Pos { x: 11, y: 0 }];
    for spot in spots {
        let mask = calculate_fov(&level, spot, 3);
        for p in mask.iter_pos() {
            if mask[p] {
                union.set(p, true);
            }
        }
        vis.set_fov(mask);
        let memory = vis.memory().unwrap();
        for p in level.iter_pos() {
            assert_eq!(memory[p], union[p], "at {:?}", p);
        }
        let view = vis.fov().unwrap();
        for p in level.iter_pos() {
            assert_eq!(view[p], is_visible(&level, spot, 3, p));
            assert!(!view[p] || memory[p]);
        }
    }
    assert!(vis.memory().unwrap()[Pos { x: 0, y: 0 }]);
    assert!(!vis.fov().unwrap()[Pos { x: 0, y: 0 }]);
    assert!(!vis.memory().unwrap()[Pos { x: 5, y: 0 }] || union[Pos { x: 5, y: 0 }]);
}

#[test]
fn memory_waits_for_the_first_cell_in_view() {
    let mut vis = HasVision::new(3);
    let dark: Matrix<bool> = Matrix::new(4, 4);
    assert!(!any_true(&dark));
    vis.set_fov(dark);
    assert!(vis.fov().is_some());
    assert!(vis.memory().is_none());
    let mut lit: Matrix<bool> = Matrix::new(4, 4);
    lit.set(Pos { x: 3, y: 3 }, true);
    assert!(any_true(&lit));
    vis.set_fov(lit);
    assert!(vis.memory().unwrap()[Pos { x: 3, y: 3 }]);
    assert_eq!(seen(vis.memory().unwrap()), vec![Pos { x: 3, y: 3 }]);
    vis.set_fov(Matrix::new(4, 4));
    assert_eq!(seen(vis.memory().unwrap()), vec![Pos { x: 3, y: 3 }]);
    assert_eq!(seen(vis.fov().unwrap()), Vec::<Pos>::new());
}

#[test]
fn masks_are_merged_cell_by_cell() {
    let mut mem: Matrix<bool> = Matrix::new(2, 2);
    mem.set(Pos { x: 0, y: 0 }, true);
    let mut mask: Matrix<bool> = Matrix::new(2, 2);
    mask.set(Pos { x: 1, y: 1 }, true);
    mask.set(Pos { x: 0, y: 0 }, true);
    merge_mask(&mut mem, &mask);
    assert_eq!(seen(&mem), vec![Pos { x: 0, y: 0 }, Pos { x: 1, y: 1 }]);
    assert_eq!(seen(&mask), vec![Pos { x: 0, y: 0 }, Pos { x: 1, y: 1 }]);
}

#[test]
fn the_view_is_computed_when_the_position_changes() {
    let mut level = open_level(9, 1, &[(4, 0)]);
    let mut vis = HasVision::new(8);
    let mut fov = Fov::default();
    let here = Pos { x: 0, y: 0 };
    let there = Pos { x: 8, y: 0 };

    assert!(fov.run(&level, here, &mut vis));
    assert_eq!(vis.state(), FovState::Cached(here));
    assert_eq!(seen(vis.fov().unwrap()).len(), 5);

    assert!(!fov.run(&level, here, &mut vis));
    assert_eq!(vis.state(), FovState::Cached(here));
    assert_eq!(seen(vis.fov().unwrap()).len(), 5);

    level.set(Pos { x: 4, y: 0 }, TileType::Ground);
    assert!(!vis.refresh(&level, here));
    assert_eq!(seen(vis.fov().unwrap()).len(), 5);
    vis.expire_fov();
    assert_eq!(vis.state(), FovState::NoFovYet);
    assert!(vis.fov().is_none());
    assert_eq!(seen(vis.memory().unwrap()).len(), 5);
    assert!(vis.refresh(&level, here));
    assert_eq!(seen(vis.fov().unwrap()).len(), 9);

    level.set(Pos { x: 4, y: 0 }, TileType::Wall);
    assert!(fov.run(&level, there, &mut vis));
    assert_eq!(vis.state(), FovState::Cached(there));
    assert_eq!(seen(vis.fov().unwrap()).len(), 5);
    assert_eq!(seen(vis.memory().unwrap()).len(), 9);
    assert_eq!(vis.radius, 8);
    assert_eq!(vis.radius(), 8);

    let mask = calculate_fov(&level, here, 2);
    vis.set_fov(mask);
    assert_eq!(vis.state(), FovState::NoFovYet);
    assert!(vis.refresh(&level, here));
    assert_eq!(vis.state(), FovState::Cached(here));
}

#[test]
fn an_origin_outside_the_level_sees_nothing() {
    let level = open_level(3, 3, &[]);
    let mask = calculate_fov(&level, Pos { x: 3, y: 0 }, 5);
    assert_eq!(mask.dim(), Dim { width: 3, height: 3 });
    assert!(seen(&mask).is_empty());
}
