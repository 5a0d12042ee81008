use sugar_diff::{App, Flow, InputMode, Key, ParseError};

fn type_text(app: &mut App, text: &str) {
    for c in text.chars() {
        assert_eq!(app.on_key(Key::Char(c)), Flow::Continue);
    }
}

#[test]
fn a_new_session_waits_for_a_value() {
    let app = App::new();
    assert_eq!(app.level_input(), "");
    assert_eq!(app.time_input(), "");
    assert_eq!(app.input_mode(), InputMode::Level);
    assert_eq!(app.meassurements().len(), 0);
}

#[test]
fn characters_go_to_the_text_being_typed() {
    let mut app = App::new();
    type_text(&mut app, "120");
    assert_eq!(app.level_input(), "120");
    assert_eq!(app.time_input(), "");
    assert_eq!(app.on_key(Key::Enter), Flow::Continue);
    assert_eq!(app.input_mode(), InputMode::Time);
    type_text(&mut app, "8:10");
    assert_eq!(app.level_input(), "120");
    assert_eq!(app.time_input(), "8:10");
}

#[test]
fn backspace_takes_the_last_character_off() {
    let mut app = App::new();
    assert_eq!(app.on_key(Key::Backspace), Flow::Continue);
    assert_eq!(app.level_input(), "");
    type_text(&mut app, "12é");
    assert_eq!(app.on_key(Key::Backspace), Flow::Continue);
    assert_eq!(app.level_input(), "12");
    app.on_key(Key::Enter);
    type_text(&mut app, "8:");
    assert_eq!(app.on_key(Key::Backspace), Flow::Continue);
    assert_eq!(app.time_input(), "8");
    assert_eq!(app.level_input(), "12");
    app.on_key(Key::Backspace);
    app.on_key(Key::Backspace);
    assert_eq!(app.time_input(), "");
    assert_eq!(app.level_input(), "12");
}

#[test]
fn enter_after_the_time_logs_the_entry() {
    let mut app = App::new();
    type_text(&mut app, "100");
    app.on_key(Key::Enter);
    type_text(&mut app, "08:00");
    assert_eq!(app.on_key(Key::Enter), Flow::Continue);
    assert_eq!(app.input_mode(), InputMode::Level);
    assert_eq!(app.level_input(), "");
    assert_eq!(app.time_input(), "");
    assert_eq!(app.meassurements().len(), 1);
    assert_eq!(app.meassurements().entries()[0].y(), 100);
    assert_eq!(app.meassurements().entries()[0].timestamp(), 480);
    type_text(&mut app, "50");
    app.on_key(Key::Enter);
    type_text(&mut app, "7:00");
    assert_eq!(app.on_key(Key::Enter), Flow::Continue);
    let values: Vec<i16> = app.meassurements().entries().iter().map(|m| m.y()).collect();
    assert_eq!(values, vec![50, 100]);
}

#[test]
fn a_malformed_time_is_turned_down_and_nothing_changes() {
    let mut app = App::new();
    type_text(&mut app, "100");
    app.on_key(Key::Enter);
    type_text(&mut app, "0800");
    assert_eq!(app.on_key(Key::Enter), Flow::Rejected(ParseError::MalformedTime));
    assert_eq!(app.input_mode(), InputMode::Time);
    assert_eq!(app.level_input(), "100");
    assert_eq!(app.time_input(), "0800");
    assert_eq!(app.meassurements().len(), 0);
    app.on_key(Key::Backspace);
    app.on_key(Key::Backspace);
    type_text(&mut app, ":00");
    assert_eq!(app.on_key(Key::Enter), Flow::Continue);
    assert_eq!(app.meassurements().len(), 1);
    assert_eq!(app.input_mode(), InputMode::Level);
}

#[test]
fn an_invalid_value_is_turned_down_and_nothing_changes() {
    let mut app = App::new();
    type_text(&mut app, "1o0");
    app.on_key(Key::Enter);
    type_text(&mut app, "08:00");
    assert_eq!(app.on_key(Key::Enter), Flow::Rejected(ParseError::InvalidValue));
    assert_eq!(app.input_mode(), InputMode::Time);
    assert_eq!(app.level_input(), "1o0");
    assert_eq!(app.time_input(), "08:00");
    assert_eq!(app.meassurements().len(), 0);
}

#[test]
fn add_meassure_enters_the_texts() {
    let mut app = App::new();
    type_text(&mut app, " 120 ");
    app.on_key(Key::Enter);
    type_text(&mut app, " 8:10 ");
    assert_eq!(app.add_meassure(), Ok(()));
    assert_eq!(app.level_input(), "");
    assert_eq!(app.time_input(), "");
    assert_eq!(app.input_mode(), InputMode::Time);
    assert_eq!(app.meassurements().len(), 1);
    assert_eq!(app.add_meassure(), Err(ParseError::InvalidValue));
    assert_eq!(app.meassurements().len(), 1);
}

#[test]
fn esc_ends_the_session() {
    let mut app = App::new();
    type_text(&mut app, "12");
    assert_eq!(app.on_key(Key::Esc), Flow::Exit);
    assert_eq!(app.level_input(), "12");
    assert_eq!(app.input_mode(), InputMode::Level);
}

#[test]
fn other_keys_do_nothing() {
    let mut app = App::new();
    type_text(&mut app, "12");
    assert_eq!(app.on_key(Key::Other), Flow::Continue);
    assert_eq!(app.level_input(), "12");
    assert_eq!(app.time_input(), "");
    assert_eq!(app.input_mode(), InputMode::Level);
    assert_eq!(app.meassurements().len(), 0);
}
