use rustlike::menu::menu_choice;
use rustlike::command_line::{CommandLine, CommandLineAction};
use rustlike::geometry::{translate, Dimension, Location};
use rustlike::rng::{d100, d12, d20, d3, d6, dx, nd12, nd3, nd6, ndx, pick, within};
use rustlike::scene::{Engine, Event, Key, KeyCode, Transition};
use rustlike::scenes::{game_world, main_menu, GameScreenAction};
use rustlike::settings::{Action as SettingsAction, GameSettings, Screen as SettingsScreen};
use rustlike::world::{execute, game_action, Action as WorldAction, Screen as WorldScreen};
use rustlike::game::Action;
use rustlike::geometry::Direction;

fn key(code: KeyCode, printable: char, shift: bool) -> Event {
    Event::KeyEvent(Key { code, printable, shift, alt: false, ctrl: false })
}

#[test]
fn it_works() {
    assert_eq!(1, 1);
}

#[test]
fn create_engine() {
    let engine = Engine::new(1u8);
    assert_eq!(engine.depth(), 1)
}

#[test]
fn translate_centres_on_focus_one_cell_off() {
    let map = Dimension(80, 43);
    let view = Dimension(20, 10);
    assert_eq!(translate(&map, &view, &Location(5, 5), &Location(5, 5)), Some(Location(11, 6)));
    assert_eq!(translate(&map, &view, &Location(7, 4), &Location(5, 5)), Some(Location(13, 5)));
    assert_eq!(translate(&map, &view, &Location(0, 0), &Location(20, 20)), None);
    assert_eq!(translate(&Dimension(5, 5), &view, &Location(0, 0), &Location(0, 0)), None);
}

#[test]
fn dice_stay_in_range() {
    assert_eq!(dx(0), 0);
    for _ in 0..200 {
        let r = dx(6);
        assert!(1 <= r && r <= 6);
        let r = within(-3, 3);
        assert!(-3 <= r && r <= 3);
        let r = ndx(3, 6);
        assert!(3 <= r && r <= 18);
        assert!((1..=3).contains(&d3()));
        assert!((1..=6).contains(&d6()));
        assert!((1..=12).contains(&d12()));
        assert!((1..=20).contains(&d20()));
        assert!((1..=100).contains(&d100()));
        assert!((2..=6).contains(&nd3(2)));
        assert!((2..=12).contains(&nd6(2)));
        assert!((2..=24).contains(&nd12(2)));
    }
    assert_eq!(within(4, 4), 4);
    assert_eq!(ndx(0, 6), 0);
    assert_eq!(ndx(-2, 6), 0);
    assert_eq!(nd6(0), 0);
}

#[test]
fn pick_takes_an_element() {
    let empty: Vec<i32> = vec![];
    assert_eq!(pick(&empty), None);
    let values = vec![3, 5, 7];
    for _ in 0..50 {
        let v = *pick(&values).unwrap();
        assert!(values.contains(&v));
    }
}

#[test]
fn next_then_exit_resumes_the_prior_scene() {
    let mut engine = Engine::new("menu");
    let current = engine.pop().unwrap();
    engine.apply(current, Transition::Next("world"));
    assert_eq!(engine.depth(), 2);
    let current = engine.pop().unwrap();
    let inner = engine.pop().unwrap();
    assert_eq!(current, "world");
    engine.apply(inner, Transition::Continue);
    engine.apply(current, Transition::Next("inventory"));
    assert_eq!(engine.depth(), 3);
    let top = engine.pop().unwrap();
    assert_eq!(top, "inventory");
    engine.apply(top, Transition::Exit);
    assert_eq!(engine.pop(), Some("world"));
    assert_eq!(engine.pop(), Some("menu"));
}

#[test]
fn replace_keeps_depth_and_last_exit_stops() {
    let mut engine = Engine::new(1);
    let current = engine.pop().unwrap();
    engine.apply(current, Transition::Next(2));
    let current = engine.pop().unwrap();
    engine.apply(current, Transition::Replace(3));
    assert_eq!(engine.depth(), 2);
    assert_eq!(engine.pop(), Some(3));
    let current = engine.pop().unwrap();
    assert_eq!(current, 1);
    assert!(!engine.is_running());
    engine.apply(current, Transition::Exit);
    assert!(!engine.is_running());
    assert_eq!(engine.depth(), 0);
}

#[test]
fn command_line_edits_its_line() {
    let mut cl = CommandLine;
    let mut line = String::from("l");
    let a = cl.interpret(&key(KeyCode::Char, 's', false));
    assert!(matches!(cl.update(a, &mut line), Transition::Continue));
    assert_eq!(line, "ls");
    let a = cl.interpret(&key(KeyCode::Char, 'x', true));
    match &a {
        CommandLineAction::Read(s) => assert_eq!(s, "X"),
        _ => panic!("expected a read"),
    }
    cl.update(a, &mut line);
    assert_eq!(line, "lsX");
    let a = cl.interpret(&key(KeyCode::Spacebar, ' ', false));
    cl.update(a, &mut line);
    assert_eq!(line, "lsX ");
    let a = cl.interpret(&key(KeyCode::Backspace, '\u{8}', false));
    cl.update(a, &mut line);
    cl.update(CommandLineAction::Delete, &mut line);
    assert_eq!(line, "ls");
    let mut empty = String::new();
    cl.update(CommandLineAction::Delete, &mut empty);
    assert_eq!(empty, "");
    assert!(matches!(cl.interpret(&key(KeyCode::Escape, '\u{1b}', false)), CommandLineAction::InvalidKey));
    assert!(matches!(cl.interpret(&Event::Nothing), CommandLineAction::InvalidKey));
    let a = cl.interpret(&key(KeyCode::Enter, '\r', false));
    assert!(matches!(cl.update(a, &mut line), Transition::Exit));
    assert_eq!(line, "ls");
}

#[test]
fn main_menu_reads_a_name_and_starts() {
    let mut screen = main_menu();
    let mut settings: Option<GameSettings> = None;
    for (c, shift) in [('b', true), ('o', false), ('b', false), ('x', false)] {
        let a = screen.interpret(&key(KeyCode::Char, c, shift));
        assert!(matches!(screen.update(a, &mut settings), Transition::Continue));
    }
    let a = screen.interpret(&key(KeyCode::Backspace, '\u{8}', false));
    assert!(matches!(a, SettingsAction::DeleteChar));
    screen.update(a, &mut settings);
    assert!(settings.is_none());
    let a = screen.interpret(&key(KeyCode::Enter, '\r', false));
    assert!(matches!(screen.update(a, &mut settings), Transition::Exit));
    match settings {
        Some(GameSettings::NewGame { player_name }) => assert_eq!(player_name, "Bob"),
        _ => panic!("expected a new game"),
    }
    let SettingsScreen::MainMenu { player_name } = screen;
    assert_eq!(player_name, "Bob");
}

#[test]
fn main_menu_escape_leaves_without_settings() {
    let mut screen = main_menu();
    let mut settings: Option<GameSettings> = None;
    let a = screen.interpret(&key(KeyCode::Escape, '\u{1b}', false));
    assert!(matches!(a, SettingsAction::Cancel));
    assert!(matches!(screen.update(a, &mut settings), Transition::Exit));
    assert!(settings.is_none());
    assert!(matches!(screen.interpret(&Event::Command(String::from("ls"))), SettingsAction::InvalidKey));
}

#[test]
fn world_keys_map_to_actions() {
    assert_eq!(game_action(&'k'), WorldAction::GameAction(Action::Move(0, Direction(0, -1))));
    assert_eq!(game_action(&'n'), WorldAction::GameAction(Action::Move(0, Direction(1, 1))));
    assert_eq!(game_action(&'z'), WorldAction::GameAction(Action::Nothing));
    assert_eq!(GameScreenAction::game_action(&'h'), WorldAction::GameAction(Action::Move(0, Direction(-1, 0))));
    assert_eq!(execute("ls"), WorldAction::ListObjects);
    assert_eq!(execute("lsx"), WorldAction::Nothing);
    let w = game_world();
    assert_eq!(w, WorldScreen::GameWorld);
    assert_eq!(w.interpret(&key(KeyCode::Escape, '\u{1b}', false)), WorldAction::Exit);
    assert_eq!(w.interpret(&key(KeyCode::Char, 'i', false)), WorldAction::OpenInventory);
    assert_eq!(w.interpret(&key(KeyCode::Char, 'c', false)), WorldAction::OpenCharacterScreen);
    assert_eq!(w.interpret(&key(KeyCode::Char, 'y', false)), WorldAction::GameAction(Action::Move(0, Direction(-1, -1))));
    assert_eq!(w.interpret(&key(KeyCode::Enter, '\r', false)), WorldAction::Nothing);
    assert_eq!(w.interpret(&Event::Command(String::from("ls"))), WorldAction::ListObjects);
    assert_eq!(WorldScreen::Inventory.interpret(&Event::Nothing), WorldAction::Exit);
}

#[test]
fn menu_letters_pick_options() {
    assert_eq!(menu_choice('a', 3), Some(0));
    assert_eq!(menu_choice('C', 3), Some(2));
    assert_eq!(menu_choice('d', 3), None);
    assert_eq!(menu_choice('z', 26), Some(25));
    assert_eq!(menu_choice('1', 26), None);
    assert_eq!(menu_choice('é', 26), None);
    assert_eq!(menu_choice('a', 0), None);
}
