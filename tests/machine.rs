use peroxide::app::{App, FileBrowserMode, InputMode, KEY_FIELD, MSG_REQUIRED};
use peroxide::connection::SshConnection;
use peroxide::file_browser::{EntryKind, ListedItem};
use peroxide::machine::{Action, Key, MSG_NOT_A_KEY};

const HOME: &str = "/home/u";

fn record(name: &str) -> SshConnection {
    SshConnection {
        name: name.to_string(),
        host: "h".to_string(),
        port: 22,
        username: "u".to_string(),
        password: None,
        key_path: None,
        key_passphrase: None,
        last_connection_status: None,
    }
}

fn type_text(app: &mut App, text: &str) {
    for c in text.chars() {
        app.handle_key(Key::Char(c), HOME);
    }
}

fn listed(dir: &str, name: &str, is_dir: bool) -> ListedItem {
    ListedItem { path: format!("{}/{}", dir, name), name: name.to_string(), is_dir, is_file: !is_dir }
}

#[test]
fn adding_with_empty_host_stays_in_adding() {
    let mut app = App::new(Vec::new());
    app.handle_key(Key::Char('a'), HOME);
    assert_eq!(app.input_mode, InputMode::Adding);
    type_text(&mut app, "box");
    app.handle_key(Key::Tab, HOME);
    app.handle_key(Key::Tab, HOME);
    app.handle_key(Key::Tab, HOME);
    type_text(&mut app, "u");
    let acts = app.handle_key(Key::Enter, HOME);
    assert!(acts.is_empty());
    assert_eq!(app.input_mode, InputMode::Adding);
    assert!(app.connections.is_empty());
    assert_eq!(app.error_message.as_deref(), Some(MSG_REQUIRED));
}

#[test]
fn adding_a_record_end_to_end() {
    let mut app = App::new(Vec::new());
    app.handle_key(Key::Char('a'), HOME);
    type_text(&mut app, "box");
    app.handle_key(Key::Tab, HOME);
    type_text(&mut app, "host");
    app.handle_key(Key::Tab, HOME);
    app.handle_key(Key::Backspace, HOME);
    app.handle_key(Key::Backspace, HOME);
    type_text(&mut app, "2x2");
    app.handle_key(Key::Tab, HOME);
    type_text(&mut app, "me");
    let acts = app.handle_key(Key::Enter, HOME);
    assert_eq!(acts, vec![Action::SaveConnections]);
    assert_eq!(app.input_mode, InputMode::Normal);
    assert_eq!(app.connections.len(), 1);
    assert_eq!(app.connections[0].name, "box");
    assert_eq!(app.connections[0].host, "host");
    assert_eq!(app.connections[0].port, 22);
    assert_eq!(app.connections[0].username, "me");
}

#[test]
fn escape_discards_form() {
    let mut app = App::new(Vec::new());
    app.handle_key(Key::Char('a'), HOME);
    type_text(&mut app, "box");
    app.handle_key(Key::Esc, HOME);
    assert_eq!(app.input_mode, InputMode::Normal);
    assert!(app.connections.is_empty());
}

#[test]
fn status_line_clears_on_next_key() {
    let mut app = App::new(Vec::new());
    app.handle_key(Key::Char('t'), HOME);
    assert_eq!(app.error_message.as_deref(), Some("No connection selected"));
    app.handle_key(Key::Other, HOME);
    assert_eq!(app.error_message, None);
}

#[test]
fn normal_mode_navigation_and_actions() {
    let mut app = App::new(Vec::new());
    app.connections = vec![record("a"), record("b")];
    app.handle_key(Key::Down, HOME);
    assert_eq!(app.selected_connection, Some(0));
    app.handle_key(Key::Down, HOME);
    app.handle_key(Key::Down, HOME);
    assert_eq!(app.selected_connection, Some(1));
    app.handle_key(Key::Up, HOME);
    app.handle_key(Key::Up, HOME);
    assert_eq!(app.selected_connection, Some(0));
    assert_eq!(app.handle_key(Key::Enter, HOME), vec![Action::TestConnection { idx: 0, then_launch: true }]);
    assert_eq!(app.handle_key(Key::Char('t'), HOME), vec![Action::TestConnection { idx: 0, then_launch: false }]);
    assert_eq!(app.handle_key(Key::Char('y'), HOME), vec![Action::SaveConnections]);
    assert_eq!(app.connections[2].name, "a (copy)");
    assert_eq!(app.selected_connection, Some(2));
    assert_eq!(app.handle_key(Key::Char('d'), HOME), vec![Action::SaveConnections]);
    assert_eq!(app.connections.len(), 2);
    assert_eq!(app.selected_connection, Some(1));
    assert_eq!(app.handle_key(Key::Char('q'), HOME), vec![Action::Quit]);
}

#[test]
fn edit_then_update() {
    let mut app = App::new(Vec::new());
    app.connections = vec![record("a")];
    app.selected_connection = Some(0);
    app.handle_key(Key::Char('e'), HOME);
    assert_eq!(app.input_mode, InputMode::Editing);
    type_text(&mut app, "2");
    let acts = app.handle_key(Key::Enter, HOME);
    assert_eq!(acts, vec![Action::SaveConnections]);
    assert_eq!(app.connections[0].name, "a2");
    assert_eq!(app.input_mode, InputMode::Normal);
}

#[test]
fn left_clears_key_choice_off_the_selector() {
    let mut app = App::new(Vec::new());
    app.ssh_keys = vec!["/k/a".to_string(), "/k/b".to_string()];
    app.handle_key(Key::Char('a'), HOME);
    app.form_state.active_field = KEY_FIELD;
    app.handle_key(Key::Right, HOME);
    assert_eq!(app.form_state.selected_key, Some(1));
    app.handle_key(Key::Left, HOME);
    assert_eq!(app.form_state.selected_key, Some(0));
    app.handle_key(Key::Tab, HOME);
    app.handle_key(Key::Left, HOME);
    assert_eq!(app.form_state.selected_key, None);
}

#[test]
fn settings_remove_key() {
    let mut app = App::new(Vec::new());
    app.ssh_keys = vec!["/k/a".to_string(), "/k/b".to_string()];
    app.additional_key_paths = vec!["/k/b".to_string()];
    app.handle_key(Key::Char('s'), HOME);
    assert_eq!(app.input_mode, InputMode::Settings);
    for _ in 0..4 {
        app.handle_key(Key::Down, HOME);
    }
    let acts = app.handle_key(Key::Char('d'), HOME);
    assert_eq!(acts, vec![Action::SaveAdditionalKeys]);
    assert_eq!(app.ssh_keys, vec!["/k/a".to_string()]);
    assert!(app.additional_key_paths.is_empty());
    assert_eq!(app.settings_selected_item, 3);
    app.handle_key(Key::Esc, HOME);
    assert_eq!(app.input_mode, InputMode::Normal);
}

#[test]
fn pick_single_key_file() {
    let mut app = App::new(Vec::new());
    app.handle_key(Key::Char('s'), HOME);
    let acts = app.handle_key(Key::Enter, HOME);
    assert_eq!(acts, vec![Action::ListDirectory, Action::SaveAdditionalKeys]);
    assert_eq!(app.input_mode, InputMode::FileBrowser(FileBrowserMode::SingleFile));
    app.show_listing(vec![listed(HOME, ".ssh", true), listed(HOME, "notes.pub", false)]);
    app.handle_key(Key::Down, HOME);
    app.handle_key(Key::Down, HOME);
    let acts = app.handle_key(Key::Enter, HOME);
    assert_eq!(acts, vec![Action::ListDirectory]);
    let b = app.file_browser.as_ref().unwrap();
    assert_eq!(b.current_path, "/home/u/.ssh");
    app.show_listing(vec![listed("/home/u/.ssh", "id_ed25519.pub", false), listed("/home/u/.ssh", "id_ed25519", false)]);
    app.handle_key(Key::Down, HOME);
    app.handle_key(Key::Down, HOME);
    assert_eq!(app.file_browser.as_ref().unwrap().entries[2].name, "id_ed25519");
    let acts = app.handle_key(Key::Enter, HOME);
    assert_eq!(acts, vec![Action::SaveAdditionalKeys]);
    assert_eq!(app.ssh_keys, vec!["/home/u/.ssh/id_ed25519".to_string()]);
    assert_eq!(app.additional_key_paths, vec!["/home/u/.ssh/id_ed25519".to_string()]);
    assert_eq!(app.input_mode, InputMode::Settings);
    assert!(app.file_browser.is_none());
}

#[test]
fn picking_a_public_key_is_refused() {
    let mut app = App::new(Vec::new());
    app.handle_key(Key::Char('k'), HOME);
    app.show_listing(vec![listed(HOME, "id_rsa.pub", false)]);
    app.handle_key(Key::Down, HOME);
    app.handle_key(Key::Down, HOME);
    let acts = app.handle_key(Key::Enter, HOME);
    assert!(acts.is_empty());
    assert_eq!(app.error_message.as_deref(), Some(MSG_NOT_A_KEY));
    assert!(app.ssh_keys.is_empty());
    app.handle_key(Key::Esc, HOME);
    assert_eq!(app.input_mode, InputMode::Settings);
    assert!(app.file_browser.is_none());
}

#[test]
fn pick_key_folder() {
    let mut app = App::new(Vec::new());
    app.ssh_keys = vec!["/home/u/a".to_string()];
    let acts = app.handle_key(Key::Char('f'), HOME);
    assert_eq!(acts, vec![Action::ListDirectory, Action::SaveAdditionalKeys]);
    app.show_listing(vec![listed(HOME, "a", false)]);
    assert_eq!(app.file_browser.as_ref().unwrap().entries[0].kind, EntryKind::Current);
    let acts = app.handle_key(Key::Enter, HOME);
    assert_eq!(acts, vec![Action::ScanFolder]);
    let acts = app.add_keys_from_folder(vec![
        listed(HOME, "a", false),
        listed(HOME, "b", false),
        listed(HOME, "b.pub", false),
        listed(HOME, "config", false),
        listed(HOME, "sub", true),
    ]);
    assert_eq!(acts, vec![Action::SaveAdditionalKeys]);
    assert_eq!(app.ssh_keys, vec!["/home/u/a".to_string(), "/home/u/b".to_string()]);
    assert_eq!(app.additional_key_paths, vec!["/home/u/b".to_string()]);
    assert_eq!(app.error_message.as_deref(), Some("Added 2 SSH keys from folder"));
    assert_eq!(app.input_mode, InputMode::Settings);
    assert!(app.file_browser.is_none());
}

#[test]
fn startup_key_scan_skips_hidden_and_non_keys() {
    let dir = "/home/u/.ssh";
    let app = App::new(vec![
        listed(dir, "id_rsa", false),
        listed(dir, "id_rsa.pub", false),
        listed(dir, ".hidden", false),
        listed(dir, "known_hosts", false),
        listed(dir, "keys", true),
        listed(dir, "work_key", false),
    ]);
    assert_eq!(app.ssh_keys, vec!["/home/u/.ssh/id_rsa".to_string(), "/home/u/.ssh/work_key".to_string()]);
    assert!(app.additional_key_paths.is_empty());
    assert_eq!(app.input_mode, InputMode::Normal);
}

#[test]
fn add_key_path_deduplicates_and_needs_a_file() {
    let mut app = App::new(Vec::new());
    app.add_key_path("/k/a".to_string(), true);
    app.add_key_path("/k/a".to_string(), true);
    app.add_key_path("/k/dir".to_string(), false);
    assert_eq!(app.ssh_keys, vec!["/k/a".to_string()]);
    assert_eq!(app.additional_key_paths, vec!["/k/a".to_string()]);
}

#[test]
fn remove_key_keeps_form_choice_on_same_key() {
    let mut app = App::new(Vec::new());
    app.ssh_keys = vec!["/k/a".to_string(), "/k/b".to_string(), "/k/c".to_string()];
    app.form_state.selected_key = Some(2);
    app.remove_ssh_key(0);
    assert_eq!(app.form_state.selected_key, Some(1));
    app.remove_ssh_key(1);
    assert_eq!(app.form_state.selected_key, None);
    app.remove_ssh_key(7);
    assert_eq!(app.ssh_keys, vec!["/k/b".to_string()]);
}
