use rogue_tutorial::ai::AiGoal;
use rogue_tutorial::ai::BrainDecision;
use rogue_tutorial::ai::Goals;
use rogue_tutorial::components::HasEffectStack;
use rogue_tutorial::components::IsFighter;
use rogue_tutorial::drawing::Draw;
use rogue_tutorial::drawing::Sprite;
use rogue_tutorial::drawing::frame;
use rogue_tutorial::drawing::shade;
use rogue_tutorial::level_data::LevelInfo;
use rogue_tutorial::level_data::TileType;
use rogue_tutorial::matrix::Matrix;
use rogue_tutorial::pos::Pos;
use rogue_tutorial::query::singleton;
use rogue_tutorial::query::unique;
use rogue_tutorial::render::Color;
use rogue_tutorial::render::Renderable;
use rogue_tutorial::structures::ActorCommand;
use rogue_tutorial::structures::Command;
use rogue_tutorial::structures::Dir;
use rogue_tutorial::structures::GameCommand;
use rogue_tutorial::structures::MoveDir;
use rogue_tutorial::systems::Clean;
use rogue_tutorial::systems::Effect;
use rogue_tutorial::systems::ExecuteCommands;
use rogue_tutorial::systems::ExecuteEffects;
use rogue_tutorial::ui::GameCommandHandler;
use rogue_tutorial::ui::Handling;
use rogue_tutorial::validation::MoveValidation;
use rogue_tutorial::world_data::MonsterTemplate;

#[derive(Debug, PartialEq)]
struct Data(i8);

#[derive(Debug, PartialEq)]
struct Marker;

#[derive(Debug, PartialEq)]
struct MissingMarker;

fn create_level(add_wall: bool) -> (LevelInfo, Pos) {
    let mut level = LevelInfo::new(1, 2);
    level.set(Pos { x: 0, y: 0 }, TileType::Ground);
    level.set(Pos { x: 0, y: 1 }, TileType::Ground);
    if add_wall {
        level.set(Pos { x: 0, y: 1 }, TileType::Wall);
    }
    (level, Pos { x: 0, y: 0 })
}

#[test]
fn dont_allow_to_walk_into_wall() {
    let (level, player) = create_level(true);
    let result = MoveValidation.run(Dir::south(), player, &Vec::new(), &level);
    assert!(result.is_none());
}

#[test]
fn dont_allow_to_walk_out_of_bounds() {
    let (level, player) = create_level(false);
    let result = MoveValidation.run(Dir::east(), player, &Vec::new(), &level);
    assert!(result.is_none());
    assert!(MoveValidation.run(Dir::west(), player, &Vec::new(), &level).is_none());
    assert!(MoveValidation.run(Dir::north(), player, &Vec::new(), &level).is_none());
    let edge = Pos { x: 255, y: 255 };
    assert!(MoveValidation.run(Dir::east(), edge, &Vec::new(), &level).is_none());
    assert!(MoveValidation.run(Dir::south(), edge, &Vec::new(), &level).is_none());
}

#[test]
fn converts_move_into_someone_to_atack() {
    let (level, player) = create_level(false);
    let target_pos = Pos { x: 0, y: 1 };
    let e = 1;
    let occupants = vec![(0, player), (e, target_pos), (2, target_pos)];
    let result = MoveValidation.run(Dir::south(), player, &occupants, &level).unwrap();

    assert_eq!(result, ActorCommand::MeleeAttack { pos: target_pos, target: e });
}

#[test]
fn allow_to_walk_on_the_ground() {
    let (level, player) = create_level(false);
    let result = MoveValidation.run(Dir::south(), player, &vec![(0, player)], &level);
    assert_eq!(Some(ActorCommand::Move(Dir::south())), result);
}

#[test]
fn move_moves() {
    let pos = Pos { x: 1, y: 1 };
    let effect = ExecuteCommands.run(pos, &ActorCommand::Move(Dir::south()), None);
    assert_eq!(effect, Effect::MovedTo(Pos { x: 1, y: 2 }));
    let effect = ExecuteCommands.run(pos, &ActorCommand::Move(Dir::west()), None);
    assert_eq!(effect, Effect::MovedTo(Pos { x: 0, y: 1 }));
}

#[test]
fn an_attack_strikes_with_the_power_of_the_attacker() {
    let attacker = IsFighter::new(30, 5, 2);
    let plan = ActorCommand::MeleeAttack { pos: Pos { x: 3, y: 3 }, target: 9 };
    let effect = ExecuteCommands.run(Pos { x: 3, y: 2 }, &plan, Some(&attacker));
    assert_eq!(effect, Effect::Struck { target: 9, power: 5 });
    let mut stack = HasEffectStack::default();
    stack.add_damage(&attacker);
    stack.add_damage(&attacker);
    assert_eq!(stack.attack_power, 10);
    let mut orc = IsFighter::new(10, 3, 0);
    ExecuteEffects.run(&mut orc, &stack);
    assert_eq!(orc, IsFighter { max_hp: 10, current_hp: 0, power: 3, defense: 0 });
    assert!(!orc.is_dead());
    let mut troll = IsFighter::new(16, 4, 1);
    troll.inflict_damage(1);
    assert_eq!(troll.current_hp, 16);
    troll.inflict_damage(-7);
    assert_eq!(troll.current_hp, 16);
    troll.inflict_damage(18);
    assert_eq!(troll.current_hp, -1);
    assert!(troll.is_dead());
}

#[test]
fn the_dead_are_cleared_away_in_order() {
    let alive = IsFighter::new(10, 3, 0);
    let mut gone = IsFighter::new(10, 3, 0);
    gone.inflict_damage(11);
    let mut spent = IsFighter::new(10, 3, 0);
    spent.inflict_damage(10);
    let fighters = vec![(4, gone), (7, alive), (2, spent), (1, gone)];
    assert_eq!(Clean.run(&fighters), vec![4, 1]);
    assert_eq!(Clean.run(&Vec::new()), Vec::<u32>::new());
}

#[test]
fn test_unique_return_some() {
    let joined = vec![(Marker, Data(0))];
    let (_, d) = unique(joined).unwrap().unwrap();
    assert_eq!(0, d.0);
}

#[test]
fn test_unique_return_none() {
    let joined: Vec<(MissingMarker, Data)> = Vec::new();
    assert_eq!(None, unique(joined).unwrap());
}

#[test]
fn test_unique_panics() {
    let joined = vec![Data(0), Data(1)];
    assert!(unique(joined).is_err());
}

#[test]
fn test_unique_assign() {
    let mut with_marker = Data(0);
    let mut without = Data(1);
    {
        let joined = vec![(Marker, &mut with_marker)];
        if let Some((_, data)) = unique(joined).unwrap() {
            data.0 = 5;
        }
    }
    let result = vec![&with_marker];
    let expected = vec![&Data(5)];
    assert_eq!(expected, result);
    without.0 += 1;
    assert_eq!(without, Data(2));
}

#[test]
fn singleton_wants_one_item() {
    assert_eq!(singleton(vec![Data(3)]), Ok(Data(3)));
    assert_eq!(singleton(Vec::<Data>::new()), Err(()));
    assert_eq!(singleton(vec![Data(3), Data(3)]), Err(()));
    assert_eq!(unique(vec![Data(3), Data(4), Data(5)]), Err(()));
}

#[test]
fn commands_name_their_directions() {
    assert_eq!(Command::exit(), Command::GameCommand(GameCommand::Exit));
    let dir = |c: Command| match c {
        Command::PlayerCommand(ActorCommand::Move(d)) => d,
        other => panic!("{:?} is no move", other),
    };
    assert_eq!(dir(Command::north()), Dir { ns: MoveDir::Minus, ew: MoveDir::Zero });
    assert_eq!(dir(Command::south()), Dir { ns: MoveDir::Plus, ew: MoveDir::Zero });
    assert_eq!(dir(Command::west()), Dir { ns: MoveDir::Zero, ew: MoveDir::Minus });
    assert_eq!(dir(Command::east()), Dir { ns: MoveDir::Zero, ew: MoveDir::Plus });
    let p = Pos { x: 5, y: 5 };
    assert_eq!(p.moved(Dir::north()), p.n());
    assert_eq!(p.moved(Dir::south()), p.s());
    assert_eq!(p.moved(Dir::west()), p.w());
    assert_eq!(p.moved(Dir::east()), p.e());
    assert_eq!(p.moved(Dir { ns: MoveDir::Plus, ew: MoveDir::Minus }), Pos { x: 4, y: 6 });
    assert_eq!((Pos { x: 0, y: 0 }).checked_moved(Dir::north()), None);
    assert_eq!((Pos { x: 0, y: 0 }).checked_moved(Dir::south()), Some(Pos { x: 0, y: 1 }));
    assert_eq!((Pos { x: 255, y: 0 }).checked_moved(Dir::east()), None);
}

#[test]
fn moves_along_one_axis() {
    assert_eq!(MoveDir::Minus.apply(7), 6);
    assert_eq!(MoveDir::Zero.apply(7), 7);
    assert_eq!(MoveDir::Plus.apply(7), 8);
    assert_eq!(MoveDir::Minus.to_int(), -1);
    assert_eq!(MoveDir::Zero.to_int(), 0);
    assert_eq!(MoveDir::Plus.to_int(), 1);
    assert_eq!(MoveDir::Minus.checked_apply(0), None);
    assert_eq!(MoveDir::Plus.checked_apply(255), None);
    assert_eq!(MoveDir::Plus.checked_apply(254), Some(255));
    assert_eq!(MoveDir::Zero.checked_apply(255), Some(255));
}

#[test]
fn things_have_a_glyph_and_a_colour() {
    assert_eq!(TileType::Wall.display_char(), '#');
    assert_eq!(TileType::Ground.display_char(), '.');
    assert_eq!(TileType::RoomWall.display_char(), '\u{b1}');
    assert_eq!(TileType::Wall.color(), Color { r: 127, g: 127, b: 127 });
    let nobody = MonsterTemplate { race: None };
    assert_eq!(nobody.display_char(), '?');
    assert_eq!(nobody.color(), Color { r: 255, g: 255, b: 0 });
    let orc = rogue_tutorial::races::orc_race();
    assert_eq!(orc.display_char(), 'o');
    assert_eq!(orc.to_template().display_char(), 'o');
    assert_eq!(orc.to_template().color(), orc.color());
    assert_eq!(orc.color().dimmed(), Color { r: 31, g: 63, b: 31 });
    assert_eq!(Color::rgb(255, 1, 0).dimmed(), Color { r: 127, g: 0, b: 0 });
}

#[test]
fn a_bored_actor_has_one_goal() {
    let goals = Goals::bored();
    assert!(format!("{:?}", goals).contains("Bored"));
    assert_eq!(AiGoal::Bored, AiGoal::Bored);
    assert_eq!(BrainDecision::Undecided, BrainDecision::Undecided);
}

#[test]
fn a_frame_shows_what_is_remembered_and_who_is_in_view() {
    let mut level = LevelInfo::new(3, 1);
    level.set(Pos { x: 1, y: 0 }, TileType::Ground);
    let mut fov: Matrix<bool> = Matrix::new(3, 1);
    let mut memory: Matrix<bool> = Matrix::new(3, 1);
    fov.set(Pos { x: 1, y: 0 }, true);
    memory.set(Pos { x: 1, y: 0 }, true);
    memory.set(Pos { x: 2, y: 0 }, true);
    let grey = Color { r: 127, g: 127, b: 127 };
    let red = Color { r: 255, g: 0, b: 0 };
    let sprites = vec![
        Sprite { pos: Pos { x: 2, y: 0 }, glyph: 'o', color: red },
        Sprite { pos: Pos { x: 1, y: 0 }, glyph: '@', color: red },
        Sprite { pos: Pos { x: 9, y: 9 }, glyph: 'T', color: red },
    ];
    let draws = frame(&level, &fov, &memory, &sprites);
    assert_eq!(
        draws,
        vec![
            Draw { pos: Pos { x: 1, y: 0 }, glyph: '.', color: grey, in_fov: true },
            Draw { pos: Pos { x: 2, y: 0 }, glyph: '#', color: grey, in_fov: false },
            Draw { pos: Pos { x: 1, y: 0 }, glyph: '@', color: red, in_fov: true },
        ]
    );
    assert_eq!(shade(red, true), red);
    assert_eq!(shade(red, false), Color { r: 127, g: 0, b: 0 });
    let small: Matrix<bool> = Matrix::new(1, 1);
    assert!(frame(&level, &small, &small, &sprites).is_empty());
}

#[test]
fn a_command_ends_the_game_or_becomes_a_plan() {
    let (level, player) = create_level(false);
    let nobody = Vec::new();
    let handler = GameCommandHandler;
    assert_eq!(handler.exec(&Command::exit(), player, &nobody, &level), Handling::Exit);
    assert_eq!(
        handler.exec(&Command::south(), player, &nobody, &level),
        Handling::Plan(ActorCommand::Move(Dir::south()))
    );
    assert_eq!(handler.exec(&Command::east(), player, &nobody, &level), Handling::Nothing);
    let orc = vec![(5, Pos { x: 0, y: 1 })];
    assert_eq!(
        handler.exec(&Command::south(), player, &orc, &level),
        Handling::Plan(ActorCommand::MeleeAttack { pos: Pos { x: 0, y: 1 }, target: 5 })
    );
    let (walled, player) = create_level(true);
    assert_eq!(handler.exec(&Command::south(), player, &orc, &walled), Handling::Nothing);
}
