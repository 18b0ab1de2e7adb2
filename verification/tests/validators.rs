use rogue_tutorial::keymapper::KeyCode;
use rogue_tutorial::keymapper::KeyMapper;
use rogue_tutorial::pos::Pos;
use rogue_tutorial::structures::Command;
use rogue_tutorial::structures::MoveDir;
use rogue_tutorial::validations::PureValidator;
use rogue_tutorial::validations::Validation;
use std::cmp::Ordering;

#[test]
fn pure_validation() {
    let validator = PureValidator::from_closure(|x: i32| x.to_string());

    let res = validator.run(5);
    assert_eq!("5", res);
}

#[test]
fn cons_validation() {
    let validator1 = PureValidator::from_closure(|x: i32| x as f32 + 0.1);

    let validator2 = PureValidator::from_closure(|x: f32| x.to_string());

    let composite = validator1.cons(&validator2);

    let res = composite.run(5);
    assert_eq!("5.1", res);
}

#[test]
fn three_validators_in_a_row() {
    let double = PureValidator::new(|x: u32| x * 2);
    let inc = PureValidator::new(|x: u32| x + 1);
    let show = PureValidator::new(|x: u32| format!("<{}>", x));
    let first = double.cons(&inc);
    let all = first.cons(&show);
    assert_eq!(all.run(20), "<41>");
    assert_eq!(inc.cons(&double).run(20), 42);
}

#[test]
fn keys_are_bound_to_commands() {
    let mapper = KeyMapper::new();
    let mut bound = mapper.commands();
    bound.sort_by(|a, b| a.0.cmp(&b.0));
    assert_eq!(
        bound,
        vec![
            ("ArrowDown".to_string(), Command::south()),
            ("ArrowLeft".to_string(), Command::west()),
            ("ArrowRight".to_string(), Command::east()),
            ("ArrowUp".to_string(), Command::north()),
            ("Escape".to_string(), Command::exit()),
        ]
    );
    assert_eq!(mapper.command(KeyCode::Escape), Some(&Command::exit()));
    assert_eq!(mapper.command(KeyCode::Left), Some(&Command::west()));
    assert_eq!(mapper.command(KeyCode::Right), Some(&Command::east()));
    assert_eq!(mapper.command(KeyCode::Up), Some(&Command::north()));
    assert_eq!(mapper.command(KeyCode::Down), Some(&Command::south()));
    assert_eq!(mapper.command(KeyCode::Other), None);
    assert_eq!(mapper.lookup("ArrowUp"), Some(&Command::north()));
    assert_eq!(mapper.lookup("arrowup"), None);
    assert_eq!(mapper.lookup(""), None);
    assert_eq!(KeyCode::Down.mnemonic(), Some("ArrowDown"));
    assert_eq!(KeyCode::Other.mnemonic(), None);
}

#[test]
fn a_move_as_a_number() {
    assert_eq!(MoveDir::Minus.to_num::<i32>(), -1);
    assert_eq!(MoveDir::Zero.to_num::<i64>(), 0);
    assert_eq!(MoveDir::Plus.to_num::<i16>(), 1);
    assert_eq!(MoveDir::Minus.to_num::<f64>(), -1.0);
}

#[test]
fn positions_are_ordered_by_the_sum_of_their_coordinates() {
    let a = Pos { x: 1, y: 5 };
    let b = Pos { x: 4, y: 3 };
    let c = Pos { x: 5, y: 1 };
    assert!(a < b);
    assert!(b > c);
    assert_eq!(a.partial_cmp(&c), Some(Ordering::Equal));
    assert_ne!(a, c);
    assert!(a <= c && a >= c);
    assert_eq!(
        (Pos { x: 255, y: 255 }).partial_cmp(&Pos { x: 255, y: 254 }),
        Some(Ordering::Greater)
    );
}
