use peroxide::app::{App, InputMode, MSG_INVALID_SELECTION, MSG_NOTHING_TO_DUPLICATE, MSG_NO_SELECTION, MSG_PORT, MSG_REQUIRED};
use peroxide::connection::{load_records, save_records, SshConnection};

fn record(name: &str, host: &str, port: u16, user: &str) -> SshConnection {
    SshConnection {
        name: name.to_string(),
        host: host.to_string(),
        port,
        username: user.to_string(),
        password: None,
        key_path: None,
        key_passphrase: None,
        last_connection_status: None,
    }
}

fn app_with(records: Vec<SshConnection>) -> App {
    let mut app = App::new(Vec::new());
    app.connections = records;
    app
}

fn names(app: &App) -> Vec<String> {
    app.connections.iter().map(|c| c.name.clone()).collect()
}

#[test]
fn save_then_load_keeps_records_and_resets_status() {
    let mut a = record("box", "h", 22, "u");
    a.password = Some("p".to_string());
    a.last_connection_status = Some(true);
    let mut b = record("web", "example.org", 2222, "root");
    b.key_path = Some("/home/u/.ssh/id_ed25519".to_string());
    b.key_passphrase = Some("secret".to_string());
    b.last_connection_status = Some(false);
    let records = vec![a, b];
    let stored = save_records(&records);
    assert_eq!(stored.len(), 2);
    let back = load_records(stored);
    assert_eq!(back.len(), 2);
    for (o, r) in records.iter().zip(back.iter()) {
        assert_eq!(o.name, r.name);
        assert_eq!(o.host, r.host);
        assert_eq!(o.port, r.port);
        assert_eq!(o.username, r.username);
        assert_eq!(o.password, r.password);
        assert_eq!(o.key_path, r.key_path);
        assert_eq!(o.key_passphrase, r.key_passphrase);
        assert_eq!(r.last_connection_status, None);
    }
}

#[test]
fn save_then_load_empty_store() {
    let back = load_records(save_records(&Vec::new()));
    assert!(back.is_empty());
}

#[test]
fn delete_last_index_moves_selection_back() {
    let mut app = app_with(vec![record("a", "h", 22, "u"), record("b", "h", 22, "u"), record("c", "h", 22, "u")]);
    app.selected_connection = Some(2);
    app.delete_connection();
    assert_eq!(names(&app), vec!["a", "b"]);
    assert_eq!(app.selected_connection, Some(1));
}

#[test]
fn delete_middle_keeps_index() {
    let mut app = app_with(vec![record("a", "h", 22, "u"), record("b", "h", 22, "u"), record("c", "h", 22, "u")]);
    app.selected_connection = Some(1);
    app.delete_connection();
    assert_eq!(names(&app), vec!["a", "c"]);
    assert_eq!(app.selected_connection, Some(1));
}

#[test]
fn delete_only_record_clears_selection() {
    let mut app = app_with(vec![record("a", "h", 22, "u")]);
    app.selected_connection = Some(0);
    app.delete_connection();
    assert!(app.connections.is_empty());
    assert_eq!(app.selected_connection, None);
}

#[test]
fn delete_on_empty_store_does_not_panic() {
    let mut app = app_with(Vec::new());
    app.selected_connection = Some(0);
    app.delete_connection();
    assert!(app.connections.is_empty());
    assert_eq!(app.selected_connection, None);
}

#[test]
fn delete_without_selection_changes_nothing() {
    let mut app = app_with(vec![record("a", "h", 22, "u")]);
    app.delete_connection();
    assert_eq!(names(&app), vec!["a"]);
    assert_eq!(app.selected_connection, None);
}

#[test]
fn duplicate_appends_copy_and_selects_it() {
    let mut src = record("box", "h", 2200, "u");
    src.password = Some("p".to_string());
    src.last_connection_status = Some(true);
    let mut app = app_with(vec![src, record("other", "x", 22, "v")]);
    app.selected_connection = Some(0);
    assert_eq!(app.duplicate_connection(), Ok(()));
    assert_eq!(app.connections.len(), 3);
    let copy = &app.connections[2];
    assert_eq!(copy.name, "box (copy)");
    assert_eq!(copy.host, "h");
    assert_eq!(copy.port, 2200);
    assert_eq!(copy.username, "u");
    assert_eq!(copy.password, Some("p".to_string()));
    assert_eq!(copy.last_connection_status, None);
    assert_eq!(app.selected_connection, Some(2));
}

#[test]
fn duplicate_errors() {
    let mut empty = app_with(Vec::new());
    empty.selected_connection = Some(0);
    assert_eq!(empty.duplicate_connection(), Err(MSG_NOTHING_TO_DUPLICATE));
    assert_eq!(MSG_NOTHING_TO_DUPLICATE, "No connections to duplicate");

    let mut unselected = app_with(vec![record("a", "h", 22, "u")]);
    assert_eq!(unselected.duplicate_connection(), Err(MSG_NO_SELECTION));
    assert_eq!(MSG_NO_SELECTION, "No connection selected");

    let mut past_end = app_with(vec![record("a", "h", 22, "u")]);
    past_end.selected_connection = Some(5);
    assert_eq!(past_end.duplicate_connection(), Err(MSG_INVALID_SELECTION));
    assert_eq!(MSG_INVALID_SELECTION, "Invalid connection selected");
    assert_eq!(past_end.connections.len(), 1);
}

fn fill_form(app: &mut App, name: &str, host: &str, port: &str, user: &str) {
    app.form_state.name = name.to_string();
    app.form_state.host = host.to_string();
    app.form_state.port = port.to_string();
    app.form_state.username = user.to_string();
}

#[test]
fn save_connection_adds_record_from_form() {
    let mut app = App::new(Vec::new());
    app.ssh_keys = vec!["/k/id_a".to_string(), "/k/id_b".to_string()];
    fill_form(&mut app, "box", "h", "2222", "u");
    app.form_state.password = "pw".to_string();
    app.form_state.selected_key = Some(1);
    assert_eq!(app.save_connection(), Ok(()));
    let c = &app.connections[0];
    assert_eq!(c.name, "box");
    assert_eq!(c.port, 2222);
    assert_eq!(c.password, Some("pw".to_string()));
    assert_eq!(c.key_path, Some("/k/id_b".to_string()));
    assert_eq!(c.key_passphrase, None);
}

#[test]
fn save_connection_empty_port_defaults_to_22() {
    let mut app = App::new(Vec::new());
    fill_form(&mut app, "box", "h", "", "u");
    assert_eq!(app.save_connection(), Ok(()));
    assert_eq!(app.connections[0].port, 22);
}

#[test]
fn save_connection_refuses_missing_fields() {
    let mut app = App::new(Vec::new());
    fill_form(&mut app, "box", "", "22", "u");
    assert_eq!(app.save_connection(), Err(MSG_REQUIRED));
    assert_eq!(MSG_REQUIRED, "Required fields cannot be empty");
    assert!(app.connections.is_empty());
}

#[test]
fn save_connection_refuses_bad_ports() {
    for bad in ["0", "abc", "70000", "12a", "00000"] {
        let mut app = App::new(Vec::new());
        fill_form(&mut app, "box", "h", bad, "u");
        assert_eq!(app.save_connection(), Err(MSG_PORT), "port text {:?}", bad);
        assert!(app.connections.is_empty());
    }
    assert_eq!(MSG_PORT, "Invalid port number");
}

#[test]
fn save_connection_accepts_largest_port() {
    let mut app = App::new(Vec::new());
    fill_form(&mut app, "box", "h", "65535", "u");
    assert_eq!(app.save_connection(), Ok(()));
    assert_eq!(app.connections[0].port, 65535);
}

#[test]
fn update_connection_replaces_selected_record() {
    let mut app = app_with(vec![record("a", "h", 22, "u"), record("b", "h", 22, "u")]);
    app.selected_connection = Some(1);
    fill_form(&mut app, "b2", "h2", "23", "u2");
    assert_eq!(app.update_connection(), Ok(()));
    assert_eq!(names(&app), vec!["a", "b2"]);
    assert_eq!(app.connections[1].port, 23);
}

#[test]
fn update_connection_errors() {
    let mut app = app_with(vec![record("a", "h", 22, "u")]);
    fill_form(&mut app, "b", "h", "22", "u");
    assert_eq!(app.update_connection(), Err(MSG_NO_SELECTION));
    app.selected_connection = Some(3);
    assert_eq!(app.update_connection(), Err(MSG_NO_SELECTION));
    app.selected_connection = Some(0);
    app.form_state.username = String::new();
    assert_eq!(app.update_connection(), Err(MSG_REQUIRED));
    assert_eq!(names(&app), vec!["a"]);
}

#[test]
fn edit_connection_loads_form() {
    let mut c = record("box", "h", 2022, "u");
    c.password = Some("pw".to_string());
    c.key_path = Some("/k/id_b".to_string());
    let mut app = app_with(vec![c]);
    app.ssh_keys = vec!["/k/id_a".to_string(), "/k/id_b".to_string()];
    app.selected_connection = Some(0);
    app.form_state.active_field = 4;
    app.edit_connection();
    assert_eq!(app.input_mode, InputMode::Editing);
    assert_eq!(app.form_state.name, "box");
    assert_eq!(app.form_state.port, "2022");
    assert_eq!(app.form_state.password, "pw");
    assert_eq!(app.form_state.key_passphrase, "");
    assert_eq!(app.form_state.selected_key, Some(1));
    assert_eq!(app.form_state.active_field, 0);
}

#[test]
fn edit_connection_with_unknown_key_selects_none() {
    let mut c = record("box", "h", 22, "u");
    c.key_path = Some("/elsewhere/key".to_string());
    let mut app = app_with(vec![c]);
    app.ssh_keys = vec!["/k/id_a".to_string()];
    app.selected_connection = Some(0);
    app.edit_connection();
    assert_eq!(app.form_state.selected_key, None);
}

#[test]
fn edit_connection_without_selection_stays_normal() {
    let mut app = app_with(vec![record("box", "h", 22, "u")]);
    app.edit_connection();
    assert_eq!(app.input_mode, InputMode::Normal);
}
