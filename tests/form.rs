use peroxide::app::{App, FormState, FIELD_COUNT, KEY_FIELD, PASSPHRASE_FIELD, PORT_FIELD};

#[test]
fn blank_form() {
    let f = FormState::new();
    assert_eq!(f.name, "");
    assert_eq!(f.host, "");
    assert_eq!(f.port, "22");
    assert_eq!(f.username, "");
    assert_eq!(f.password, "");
    assert_eq!(f.key_passphrase, "");
    assert_eq!(f.selected_key, None);
    assert_eq!(f.active_field, 0);
}

#[test]
fn seven_advances_return_to_start() {
    for start in 0..FIELD_COUNT {
        let mut app = App::new(Vec::new());
        app.form_state.active_field = start;
        for _ in 0..7 {
            app.next_field();
        }
        assert_eq!(app.form_state.active_field, start);
    }
}

#[test]
fn seven_retreats_return_to_start() {
    for start in 0..FIELD_COUNT {
        let mut app = App::new(Vec::new());
        app.form_state.active_field = start;
        for _ in 0..7 {
            app.previous_field();
        }
        assert_eq!(app.form_state.active_field, start);
    }
}

#[test]
fn field_cursor_wraps() {
    let mut app = App::new(Vec::new());
    app.form_state.active_field = 6;
    app.next_field();
    assert_eq!(app.form_state.active_field, 0);
    app.previous_field();
    assert_eq!(app.form_state.active_field, 6);
}

#[test]
fn typing_goes_to_active_field() {
    let mut app = App::new(Vec::new());
    app.add_char('b');
    app.add_char('o');
    app.next_field();
    app.add_char('h');
    assert_eq!(app.form_state.name, "bo");
    assert_eq!(app.form_state.host, "h");
    app.form_state.active_field = PASSPHRASE_FIELD;
    app.add_char('x');
    assert_eq!(app.form_state.key_passphrase, "x");
    app.form_state.active_field = KEY_FIELD;
    app.add_char('y');
    assert_eq!(app.form_state.key_passphrase, "x");
    assert_eq!(app.form_state.name, "bo");
}

#[test]
fn port_field_takes_digits_only_and_at_most_five() {
    let mut app = App::new(Vec::new());
    app.form_state.active_field = PORT_FIELD;
    app.form_state.port = String::new();
    for c in ['1', 'a', '2', '-', '3', '4', '5', '6'] {
        app.add_char(c);
    }
    assert_eq!(app.form_state.port, "12345");
}

#[test]
fn backspace_removes_last_character() {
    let mut app = App::new(Vec::new());
    app.form_state.active_field = PORT_FIELD;
    app.delete_char();
    assert_eq!(app.form_state.port, "2");
    app.delete_char();
    app.delete_char();
    assert_eq!(app.form_state.port, "");
    app.form_state.active_field = 0;
    app.form_state.name = "ab".to_string();
    app.delete_char();
    assert_eq!(app.form_state.name, "a");
}

fn app_with_keys(n: usize) -> App {
    let mut app = App::new(Vec::new());
    app.ssh_keys = (0..n).map(|i| format!("/k/key{}", i)).collect();
    app
}

#[test]
fn key_selector_cycles_with_wrap() {
    let mut app = app_with_keys(3);
    app.form_state.active_field = KEY_FIELD;
    app.select_ssh_key(1);
    assert_eq!(app.form_state.selected_key, Some(1));
    app.select_ssh_key(1);
    app.select_ssh_key(1);
    assert_eq!(app.form_state.selected_key, Some(0));
    app.select_ssh_key(-1);
    assert_eq!(app.form_state.selected_key, Some(2));
}

#[test]
fn key_selector_from_none_backwards_goes_to_last() {
    let mut app = app_with_keys(3);
    app.form_state.active_field = KEY_FIELD;
    app.select_ssh_key(-1);
    assert_eq!(app.form_state.selected_key, Some(2));
}

#[test]
fn key_selector_inactive_elsewhere_or_without_keys() {
    let mut app = app_with_keys(3);
    app.form_state.active_field = 0;
    app.select_ssh_key(1);
    assert_eq!(app.form_state.selected_key, None);
    let mut none = app_with_keys(0);
    none.form_state.active_field = KEY_FIELD;
    none.select_ssh_key(1);
    assert_eq!(none.form_state.selected_key, None);
}
