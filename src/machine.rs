//! The mode machine: what a key press means in each interaction mode. Each
//! step changes the application state and returns the outside work the caller
//! performs next (saving, listing a directory, testing or launching a
//! connection); the outcome of that work comes back through the `finish_*`,
//! `show_listing` and `add_keys_from_folder` methods.
use vstd::prelude::*;
use crate::app::{
    blank_form, char_added, char_deleted, deleted, duplicate_error, duplicated, edit_started,
    field_advanced, field_retreated, form_error, form_is_valid, form_saved, form_updated,
    key_added, key_cycled, key_removed, key_selection_cleared, message_shown, browser_opened,
    selection_on_record, test_recorded, App, FileBrowserMode, FormState, InputMode,
    KEY_FIELD, MSG_NO_SELECTION,
};
use crate::connection::{error_text, opt_view, texts, AppError};
use crate::file_browser::{
    acceptable_key_name, children_of, is_key_file, EntryKind, FileBrowser, ListedItem,
};
use crate::text::{concat_text, decimal_string, decimal_text};

verus! {

/// A key press.
#[derive(Debug, Clone, Copy, PartialEq, Eq, Structural)]
pub enum Key {
    Char(char),
    Enter,
    Esc,
    Tab,
    BackTab,
    Backspace,
    Up,
    Down,
    Left,
    Right,
    Other,
}

/// Outside work that a step asks the caller to do.
#[derive(Debug, Clone, Copy, PartialEq, Eq, Structural)]
pub enum Action {
    /// Write the connection store, then stop.
    Quit,
    /// Write the connection store.
    SaveConnections,
    /// Write the user-added keys.
    SaveAdditionalKeys,
    /// Test record `idx`, and hand the outcome to `finish_test`.
    TestConnection { idx: usize, then_launch: bool },
    /// Read the browser's current directory and hand the listing to `show_listing`.
    ListDirectory,
    /// Read the browser's current directory and hand the listing to `add_keys_from_folder`.
    ScanFolder,
    /// Open an interactive session for record `idx`, and hand the outcome to `finish_launch`.
    Launch(usize),
}

/// Message for a picked file that is no key.
pub const MSG_NOT_A_KEY: &'static str = "Not a valid SSH key file";
/// Message for a test that passed.
pub const MSG_TEST_OK: &'static str = "Connection test successful!";

// ---------------------------------------------------------------------------
// The transition relation
// ---------------------------------------------------------------------------

/// `n` is `o` in mode `m`.
pub open spec fn moved_to(o: App, n: App, m: InputMode) -> bool {
    n == (App { input_mode: m, ..o })
}

/// A key in Normal mode.
pub open spec fn normal_step(o: App, key: Key, home: Seq<char>, n: App, acts: Seq<Action>) -> bool {
    let none = Seq::<Action>::empty();
    if key == Key::Char('q') {
        n == o && acts == seq![Action::Quit]
    } else if key == Key::Char('a') {
        &&& n == (App { input_mode: InputMode::Adding, form_state: n.form_state, ..o })
        &&& blank_form(n.form_state)
        &&& acts == none
    } else if key == Key::Char('e') {
        edit_started(o, n) && acts == none
    } else if key == Key::Char('d') {
        deleted(o, n) && acts == seq![Action::SaveConnections]
    } else if key == Key::Char('y') {
        match duplicate_error(o) {
            Some(m) => message_shown(o, n, m@) && acts == none,
            None => duplicated(o, n, Ok(())) && acts == seq![Action::SaveConnections],
        }
    } else if key == Key::Up {
        &&& n == (App {
            selected_connection: Some(
                match o.selected_connection {
                    Some(s) => if s > 0 {
                        (s - 1) as usize
                    } else {
                        s
                    },
                    None => 0,
                },
            ),
            ..o
        })
        &&& acts == none
    } else if key == Key::Down {
        &&& n == (App {
            selected_connection: Some(
                match o.selected_connection {
                    Some(s) => if s + 1 < o.connections@.len() {
                        (s + 1) as usize
                    } else {
                        s
                    },
                    None => 0,
                },
            ),
            ..o
        })
        &&& acts == none
    } else if key == Key::Char('c') || key == Key::Enter || key == Key::Char('t') {
        match o.selected_connection {
            Some(i) => n == o && acts == seq![
                Action::TestConnection { idx: i, then_launch: key != Key::Char('t') },
            ],
            None => message_shown(o, n, MSG_NO_SELECTION@) && acts == none,
        }
    } else if key == Key::Char('k') {
        browser_opened(o, n, home, FileBrowserMode::SingleFile) && acts == seq![
            Action::ListDirectory,
            Action::SaveAdditionalKeys,
        ]
    } else if key == Key::Char('f') {
        browser_opened(o, n, home, FileBrowserMode::Directory) && acts == seq![
            Action::ListDirectory,
            Action::SaveAdditionalKeys,
        ]
    } else if key == Key::Char('s') {
        moved_to(o, n, InputMode::Settings) && acts == none
    } else {
        n == o && acts == none
    }
}

/// The message editing the selected record in state `o` is refused with, if it is.
pub open spec fn update_error(o: App) -> Option<&'static str> {
    if !selection_on_record(o) {
        Some(MSG_NO_SELECTION)
    } else if !form_is_valid(o.form_state) {
        Some(form_error(o.form_state))
    } else {
        None
    }
}

/// A key in Adding mode (`adding`) or Editing mode.
pub open spec fn form_step(o: App, key: Key, adding: bool, n: App, acts: Seq<Action>) -> bool {
    let none = Seq::<Action>::empty();
    if key == Key::Esc {
        moved_to(o, n, InputMode::Normal) && acts == none
    } else if key == Key::Tab {
        field_advanced(o, n) && acts == none
    } else if key == Key::BackTab {
        field_retreated(o, n) && acts == none
    } else if key == Key::Backspace {
        char_deleted(o, n) && acts == none
    } else if key == Key::Enter {
        let refused = if adding {
            if form_is_valid(o.form_state) {
                None
            } else {
                Some(form_error(o.form_state))
            }
        } else {
            update_error(o)
        };
        match refused {
            Some(m) => message_shown(o, n, m@) && acts == none,
            None => {
                let committed = App { input_mode: o.input_mode, ..n };
                &&& n.input_mode == InputMode::Normal
                &&& if adding {
                    form_saved(o, committed, Ok(()))
                } else {
                    form_updated(o, committed, Ok(()))
                }
                &&& acts == seq![Action::SaveConnections]
            },
        }
    } else if key == Key::Right {
        key_cycled(o, n, 1i8) && acts == none
    } else if key == Key::Left {
        (if o.form_state.active_field == KEY_FIELD {
            key_cycled(o, n, -1i8)
        } else {
            key_selection_cleared(o, n)
        }) && acts == none
    } else {
        match key {
            Key::Char(c) => char_added(o, n, c) && acts == none,
            _ => n == o && acts == none,
        }
    }
}

/// Index of the first key in the settings list; rows above it are commands.
pub open spec fn first_key_row() -> int {
    3
}

/// A key in Settings mode.
pub open spec fn settings_step(o: App, key: Key, home: Seq<char>, n: App, acts: Seq<Action>) -> bool {
    let none = Seq::<Action>::empty();
    let item = o.settings_selected_item;
    if key == Key::Esc {
        moved_to(o, n, InputMode::Normal) && acts == none
    } else if key == Key::Up {
        n == (App {
            settings_selected_item: if item > 0 {
                (item - 1) as usize
            } else {
                item
            },
            ..o
        }) && acts == none
    } else if key == Key::Down {
        n == (App {
            settings_selected_item: if item < usize::MAX {
                (item + 1) as usize
            } else {
                item
            },
            ..o
        }) && acts == none
    } else if key == Key::Char('d') {
        if first_key_row() <= item < o.ssh_keys@.len() + first_key_row() {
            key_removed(o, n, (item - first_key_row()) as usize) && acts == seq![
                Action::SaveAdditionalKeys,
            ]
        } else {
            n == o && acts == none
        }
    } else if key == Key::Enter {
        if item == 0 {
            browser_opened(o, n, home, FileBrowserMode::SingleFile) && acts == seq![
                Action::ListDirectory,
                Action::SaveAdditionalKeys,
            ]
        } else if item == 1 {
            browser_opened(o, n, home, FileBrowserMode::Directory) && acts == seq![
                Action::ListDirectory,
                Action::SaveAdditionalKeys,
            ]
        } else {
            n == o && acts == seq![Action::SaveAdditionalKeys]
        }
    } else {
        n == o && acts == none
    }
}

/// `nb` is `b` after opening the directory of its selected entry.
pub open spec fn directory_entered(b: FileBrowser, nb: FileBrowser) -> bool {
    &&& nb.wf()
    &&& nb.current_path@ == b.entries@[b.selected as int].path@
    &&& nb.children().len() == 0
    &&& nb.selected == 0
}

/// `n` is `o` with its browser replaced by one that satisfies `directory_entered`.
pub open spec fn browser_entered(o: App, b: FileBrowser, n: App) -> bool {
    n == (App { file_browser: n.file_browser, ..o }) && (n.file_browser matches Some(nb)
        && directory_entered(b, nb))
}

/// A key in a browsing mode.
pub open spec fn browser_step(o: App, key: Key, mode: FileBrowserMode, n: App, acts: Seq<Action>) -> bool {
    let none = Seq::<Action>::empty();
    if key == Key::Esc {
        n == (App { input_mode: InputMode::Settings, file_browser: None, ..o }) && acts == none
    } else if key == Key::Up || key == Key::Down {
        &&& acts == none
        &&& match o.file_browser {
            Some(b) => n == (App {
                file_browser: Some(
                    FileBrowser {
                        selected: if key == Key::Up {
                            if b.selected > 0 {
                                (b.selected - 1) as usize
                            } else {
                                0
                            }
                        } else if b.selected + 1 < b.entries@.len() {
                            (b.selected + 1) as usize
                        } else {
                            b.selected
                        },
                        ..b
                    },
                ),
                ..o
            }),
            None => n == o,
        }
    } else if key == Key::Enter {
        match o.file_browser {
            None => n == o && acts == none,
            Some(b) => {
                let e = b.entries@[b.selected as int];
                match mode {
                    FileBrowserMode::SingleFile => if e.kind != EntryKind::File {
                        browser_entered(o, b, n) && acts == seq![Action::ListDirectory]
                    } else if acceptable_key_name(e.name@) {
                        &&& key_added(
                            o,
                            App { input_mode: o.input_mode, file_browser: o.file_browser, ..n },
                            e.path@,
                            true,
                        )
                        &&& n.input_mode == InputMode::Settings
                        &&& n.file_browser is None
                        &&& acts == seq![Action::SaveAdditionalKeys]
                    } else {
                        message_shown(o, n, MSG_NOT_A_KEY@) && acts == none
                    },
                    FileBrowserMode::Directory => if e.kind == EntryKind::Current {
                        n == o && acts == seq![Action::ScanFolder]
                    } else if e.kind != EntryKind::File {
                        browser_entered(o, b, n) && acts == seq![Action::ListDirectory]
                    } else {
                        n == o && acts == none
                    },
                }
            },
        }
    } else {
        n == o && acts == none
    }
}

/// A key press in state `o`, after the status line is cleared.
pub open spec fn key_step(o: App, key: Key, home: Seq<char>, n: App, acts: Seq<Action>) -> bool {
    match o.input_mode {
        InputMode::Normal => normal_step(o, key, home, n, acts),
        InputMode::Adding => form_step(o, key, true, n, acts),
        InputMode::Editing => form_step(o, key, false, n, acts),
        InputMode::Settings => settings_step(o, key, home, n, acts),
        InputMode::FileBrowser(m) => browser_step(o, key, m, n, acts),
    }
}

// ---------------------------------------------------------------------------
// Outcomes of outside work
// ---------------------------------------------------------------------------

/// `n` is `o` with the browser's entries rebuilt from `listing`.
pub open spec fn listing_shown(o: App, n: App, listing: Seq<ListedItem>) -> bool {
    match o.file_browser {
        Some(b) => {
            &&& n == (App { file_browser: n.file_browser, ..o })
            &&& n.file_browser matches Some(nb) && nb.wf() && nb.current_path == b.current_path
                && nb.selected == 0 && nb.children().to_multiset() == children_of(
                listing,
            ).to_multiset()
        },
        None => n == o,
    }
}

/// A listed item that a folder scan adds as a key.
pub open spec fn is_folder_key(i: ListedItem) -> bool {
    i.is_file && acceptable_key_name(i.name@)
}

/// The key paths a folder listing offers, in listing order.
pub open spec fn folder_keys(listing: Seq<ListedItem>) -> Seq<Seq<char>> {
    listing.filter(|i: ListedItem| is_folder_key(i)).map_values(|i: ListedItem| i.path@)
}

/// The key list and the added keys after offering `paths` one by one: a path
/// joins both unless the key list has it already.
pub open spec fn keys_after_adding(
    keys: Seq<Seq<char>>,
    added: Seq<Seq<char>>,
    paths: Seq<Seq<char>>,
) -> (Seq<Seq<char>>, Seq<Seq<char>>)
    decreases paths.len(),
{
    if paths.len() == 0 {
        (keys, added)
    } else {
        let (k, a) = keys_after_adding(keys, added, paths.drop_last());
        let p = paths.last();
        if k.contains(p) {
            (k, a)
        } else {
            (k.push(p), a.push(p))
        }
    }
}

/// The status line after a folder scan that found `count` keys.
pub open spec fn folder_message(count: nat) -> Seq<char> {
    "Added "@ + decimal_text(count) + " SSH keys from folder"@
}

/// The effective outcome of a test of record `idx`.
pub open spec fn test_outcome(o: App, idx: usize, result: Result<(), AppError>) -> Result<(), AppError> {
    if idx >= o.connections@.len() {
        Err(AppError::NoConnectionSelected)
    } else {
        result
    }
}

/// The status line after a test with outcome `r`.
pub open spec fn test_message(r: Result<(), AppError>) -> Seq<char> {
    match r {
        Ok(_) => MSG_TEST_OK@,
        Err(AppError::ConnectionFailed(m)) => "Connection test failed: "@ + m@,
        Err(AppError::AuthenticationFailed(m)) => "Authentication test failed: "@ + m@,
        Err(AppError::NoConnectionSelected) => MSG_NO_SELECTION@,
    }
}

// ---------------------------------------------------------------------------
// The steps
// ---------------------------------------------------------------------------

impl App {
    /// Handles one key press: clears the status line, then acts by `key_step`.
    /// The returned actions are for the caller to perform, in order.
    pub fn handle_key(&mut self, key: Key, home: &str) -> (acts: Vec<Action>)
        requires
            old(self).wf(),
        ensures
            final(self).wf(),
            key_step(App { error_message: None, ..*old(self) }, key, home@, *final(self), acts@),
    {
        self.clear_error();
        match self.input_mode {
            InputMode::Normal => self.normal_key(key, home),
            InputMode::Adding => self.form_key(key, true),
            InputMode::Editing => self.form_key(key, false),
            InputMode::Settings => self.settings_key(key, home),
            InputMode::FileBrowser(m) => self.browser_key(key, m),
        }
    }

    fn normal_key(&mut self, key: Key, home: &str) -> (acts: Vec<Action>)
        requires
            old(self).wf(),
        ensures
            final(self).wf(),
            normal_step(*old(self), key, home@, *final(self), acts@),
    {
        let mut acts: Vec<Action> = Vec::new();
        if key == Key::Char('q') {
            acts.push(Action::Quit);
        } else if key == Key::Char('a') {
            self.input_mode = InputMode::Adding;
            self.form_state = FormState::new();
        } else if key == Key::Char('e') {
            self.edit_connection();
        } else if key == Key::Char('d') {
            self.delete_connection();
            acts.push(Action::SaveConnections);
        } else if key == Key::Char('y') {
            match self.duplicate_connection() {
                Ok(()) => acts.push(Action::SaveConnections),
                Err(m) => self.show_error(m),
            }
        } else if key == Key::Up {
            self.selected_connection = match self.selected_connection {
                Some(s) => if s > 0 {
                    Some(s - 1)
                } else {
                    Some(s)
                },
                None => Some(0),
            };
        } else if key == Key::Down {
            let n = self.connections.len();
            self.selected_connection = match self.selected_connection {
                Some(s) => if n > 0 && s < n - 1 {
                    Some(s + 1)
                } else {
                    Some(s)
                },
                None => Some(0),
            };
        } else if key == Key::Char('c') || key == Key::Enter || key == Key::Char('t') {
            match self.selected_connection {
                Some(i) => acts.push(
                    Action::TestConnection { idx: i, then_launch: key != Key::Char('t') },
                ),
                None => self.show_error(MSG_NO_SELECTION),
            }
        } else if key == Key::Char('k') {
            self.select_key_file(String::from_str(home));
            acts.push(Action::ListDirectory);
            acts.push(Action::SaveAdditionalKeys);
        } else if key == Key::Char('f') {
            self.select_key_folder(String::from_str(home));
            acts.push(Action::ListDirectory);
            acts.push(Action::SaveAdditionalKeys);
        } else if key == Key::Char('s') {
            self.input_mode = InputMode::Settings;
        }
        proof {
            if acts@.len() == 1 {
                assert(acts@ =~= seq![acts@[0]]);
            } else if acts@.len() == 2 {
                assert(acts@ =~= seq![acts@[0], acts@[1]]);
            } else {
                assert(acts@ =~= Seq::<Action>::empty());
            }
        }
        acts
    }

    fn form_key(&mut self, key: Key, adding: bool) -> (acts: Vec<Action>)
        requires
            old(self).wf(),
        ensures
            final(self).wf(),
            form_step(*old(self), key, adding, *final(self), acts@),
    {
        let mut acts: Vec<Action> = Vec::new();
        if key == Key::Esc {
            self.input_mode = InputMode::Normal;
        } else if key == Key::Tab {
            self.next_field();
        } else if key == Key::BackTab {
            self.previous_field();
        } else if key == Key::Backspace {
            self.delete_char();
        } else if key == Key::Enter {
            let r = if adding {
                self.save_connection()
            } else {
                self.update_connection()
            };
            match r {
                Ok(()) => {
                    self.input_mode = InputMode::Normal;
                    acts.push(Action::SaveConnections);
                },
                Err(m) => self.show_error(m),
            }
        } else if key == Key::Right {
            self.select_ssh_key(1);
        } else if key == Key::Left {
            if self.form_state.active_field == KEY_FIELD {
                self.select_ssh_key(-1);
            } else {
                self.clear_key_selection();
            }
        } else {
            match key {
                Key::Char(c) => self.add_char(c),
                _ => {},
            }
        }
        proof {
            if acts@.len() == 1 {
                assert(acts@ =~= seq![acts@[0]]);
            } else {
                assert(acts@ =~= Seq::<Action>::empty());
            }
        }
        acts
    }

    fn settings_key(&mut self, key: Key, home: &str) -> (acts: Vec<Action>)
        requires
            old(self).wf(),
        ensures
            final(self).wf(),
            settings_step(*old(self), key, home@, *final(self), acts@),
    {
        let mut acts: Vec<Action> = Vec::new();
        let item = self.settings_selected_item;
        if key == Key::Esc {
            self.input_mode = InputMode::Normal;
        } else if key == Key::Up {
            if item > 0 {
                self.settings_selected_item = item - 1;
            }
        } else if key == Key::Down {
            if item < usize::MAX {
                self.settings_selected_item = item + 1;
            }
        } else if key == Key::Char('d') {
            if item >= 3 && item - 3 < self.ssh_keys.len() {
                self.remove_ssh_key(item - 3);
                acts.push(Action::SaveAdditionalKeys);
            }
        } else if key == Key::Enter {
            if item == 0 {
                self.select_key_file(String::from_str(home));
                acts.push(Action::ListDirectory);
            } else if item == 1 {
                self.select_key_folder(String::from_str(home));
                acts.push(Action::ListDirectory);
            }
            acts.push(Action::SaveAdditionalKeys);
        }
        proof {
            if acts@.len() == 1 {
                assert(acts@ =~= seq![acts@[0]]);
            } else if acts@.len() == 2 {
                assert(acts@ =~= seq![acts@[0], acts@[1]]);
            } else {
                assert(acts@ =~= Seq::<Action>::empty());
            }
        }
        acts
    }

    /// Opens the directory of the browser's selected entry.
    fn enter_browser_directory(&mut self)
        requires
            old(self).wf(),
            old(self).file_browser matches Some(b) && b.entries@[b.selected as int].kind
                != EntryKind::File,
        ensures
            final(self).wf(),
            browser_entered(*old(self), old(self).file_browser.unwrap(), *final(self)),
    {
        let fb = self.file_browser.take();
        match fb {
            Some(mut b) => {
                b.enter_directory();
                self.file_browser = Some(b);
            },
            None => {},
        }
    }

    fn browser_key(&mut self, key: Key, mode: FileBrowserMode) -> (acts: Vec<Action>)
        requires
            old(self).wf(),
        ensures
            final(self).wf(),
            browser_step(*old(self), key, mode, *final(self), acts@),
    {
        let mut acts: Vec<Action> = Vec::new();
        if key == Key::Esc {
            self.input_mode = InputMode::Settings;
            self.file_browser = None;
            assert(acts@ =~= Seq::<Action>::empty());
            return acts;
        }
        if key == Key::Up || key == Key::Down {
            let fb = self.file_browser.take();
            match fb {
                Some(mut b) => {
                    if key == Key::Up {
                        b.move_up();
                    } else {
                        b.move_down();
                    }
                    self.file_browser = Some(b);
                },
                None => {},
            }
            assert(acts@ =~= Seq::<Action>::empty());
            return acts;
        }
        if key != Key::Enter {
            assert(acts@ =~= Seq::<Action>::empty());
            return acts;
        }
        let (kind, is_key, path) = match &self.file_browser {
            None => {
                assert(acts@ =~= Seq::<Action>::empty());
                return acts;
            },
            Some(b) => {
                let e = &b.entries[b.selected];
                (e.kind, is_key_file(true, e.name.as_str()), e.path.clone())
            },
        };
        match mode {
            FileBrowserMode::SingleFile => {
                if kind != EntryKind::File {
                    self.enter_browser_directory();
                    acts.push(Action::ListDirectory);
                } else if is_key {
                    self.add_key_path(path, true);
                    self.input_mode = InputMode::Settings;
                    self.file_browser = None;
                    acts.push(Action::SaveAdditionalKeys);
                } else {
                    self.show_error(MSG_NOT_A_KEY);
                }
            },
            FileBrowserMode::Directory => {
                if kind == EntryKind::Current {
                    acts.push(Action::ScanFolder);
                } else if kind != EntryKind::File {
                    self.enter_browser_directory();
                    acts.push(Action::ListDirectory);
                }
            },
        }
        proof {
            if acts@.len() == 1 {
                assert(acts@ =~= seq![acts@[0]]);
            } else {
                assert(acts@ =~= Seq::<Action>::empty());
            }
        }
        acts
    }

    /// Shows a directory listing in the open browser, if there is one.
    pub fn show_listing(&mut self, listing: Vec<ListedItem>)
        requires
            old(self).wf(),
        ensures
            final(self).wf(),
            listing_shown(*old(self), *final(self), listing@),
    {
        let fb = self.file_browser.take();
        match fb {
            Some(mut b) => {
                b.refresh_entries(listing);
                self.file_browser = Some(b);
            },
            None => {},
        }
    }

    /// Adds every acceptable key file of a folder listing to the key list,
    /// reports how many the folder offered, closes the browser and returns to
    /// Settings.
    pub fn add_keys_from_folder(&mut self, listing: Vec<ListedItem>) -> (acts: Vec<Action>)
        requires
            old(self).wf(),
        ensures
            final(self).wf(),
            ({
                let (k, a) = keys_after_adding(
                    texts(old(self).ssh_keys@),
                    texts(old(self).additional_key_paths@),
                    folder_keys(listing@),
                );
                &&& texts(final(self).ssh_keys@) == k
                &&& texts(final(self).additional_key_paths@) == a
            }),
            *final(self) == (App {
                ssh_keys: final(self).ssh_keys,
                additional_key_paths: final(self).additional_key_paths,
                error_message: final(self).error_message,
                input_mode: InputMode::Settings,
                file_browser: None,
                ..*old(self)
            }),
            opt_view(final(self).error_message) == Some(
                folder_message(folder_keys(listing@).len()),
            ),
            acts@ == seq![Action::SaveAdditionalKeys],
    {
        let mut count: usize = 0;
        let mut i: usize = 0;
        while i < listing.len()
            invariant
                i <= listing@.len(),
                count as int == folder_keys(listing@.subrange(0, i as int)).len(),
                count <= i,
                self.wf(),
                self.ssh_keys@.len() >= old(self).ssh_keys@.len(),
                *self == (App {
                    ssh_keys: self.ssh_keys,
                    additional_key_paths: self.additional_key_paths,
                    ..*old(self)
                }),
                ({
                    let (k, a) = keys_after_adding(
                        texts(old(self).ssh_keys@),
                        texts(old(self).additional_key_paths@),
                        folder_keys(listing@.subrange(0, i as int)),
                    );
                    &&& texts(self.ssh_keys@) == k
                    &&& texts(self.additional_key_paths@) == a
                }),
            decreases listing@.len() - i,
        {
            let item = &listing[i];
            proof {
                let p = |x: ListedItem| is_folder_key(x);
                let pre = listing@.subrange(0, i as int);
                assert(listing@.subrange(0, i as int + 1) =~= pre.push(listing@[i as int]));
                pre.lemma_filter_push(listing@[i as int], p);
                if is_folder_key(listing@[i as int]) {
                    assert(folder_keys(pre.push(listing@[i as int])) =~= folder_keys(pre).push(
                        listing@[i as int].path@,
                    ));
                } else {
                    assert(folder_keys(pre.push(listing@[i as int])) =~= folder_keys(pre));
                }
            }
            if is_key_file(item.is_file, item.name.as_str()) {
                count += 1;
                let ghost pre = folder_keys(listing@.subrange(0, i as int));
                proof {
                    let cur = folder_keys(listing@.subrange(0, i as int + 1));
                    assert(cur.drop_last() =~= pre);
                }
                let ghost before = self.ssh_keys@;
                self.add_key_path(item.path.clone(), true);
                assert(texts(before).len() == before.len());
                assert(texts(self.ssh_keys@).len() == self.ssh_keys@.len());
            }
            i += 1;
        }
        proof {
            assert(listing@.subrange(0, listing@.len() as int) =~= listing@);
        }
        let head = concat_text("Added ", decimal_string(count as u64).as_str());
        let message = concat_text(head.as_str(), " SSH keys from folder");
        self.error_message = Some(message);
        self.input_mode = InputMode::Settings;
        self.file_browser = None;
        let mut acts: Vec<Action> = Vec::new();
        acts.push(Action::SaveAdditionalKeys);
        assert(acts@ =~= seq![Action::SaveAdditionalKeys]);
        acts
    }

    /// Takes the outcome of testing record `idx`: records it as the record's
    /// test status; after a passed test either asks for the session launch
    /// (`then_launch`) or reports the success, after a failed one reports why.
    pub fn finish_test(&mut self, idx: usize, then_launch: bool, result: Result<(), AppError>) -> (acts: Vec<Action>)
        requires
            old(self).wf(),
        ensures
            final(self).wf(),
            ({
                let r = test_outcome(*old(self), idx, result);
                let recorded = App { error_message: old(self).error_message, ..*final(self) };
                &&& test_recorded(*old(self), recorded, idx, result, r)
                &&& if r is Ok && then_launch {
                    *final(self) == recorded && acts@ == seq![Action::Launch(idx)]
                } else {
                    opt_view(final(self).error_message) == Some(test_message(r)) && acts@
                        == Seq::<Action>::empty()
                }
            }),
    {
        let r = self.record_test_result(idx, result);
        let mut acts: Vec<Action> = Vec::new();
        match r {
            Ok(()) => {
                if then_launch {
                    acts.push(Action::Launch(idx));
                } else {
                    self.show_error(MSG_TEST_OK);
                }
            },
            Err(AppError::ConnectionFailed(m)) => {
                let text = concat_text("Connection test failed: ", m.as_str());
                self.show_error(text.as_str());
            },
            Err(AppError::AuthenticationFailed(m)) => {
                let text = concat_text("Authentication test failed: ", m.as_str());
                self.show_error(text.as_str());
            },
            Err(AppError::NoConnectionSelected) => {
                self.show_error(MSG_NO_SELECTION);
            },
        }
        proof {
            if acts@.len() == 1 {
                assert(acts@ =~= seq![Action::Launch(idx)]);
            } else {
                assert(acts@ =~= Seq::<Action>::empty());
            }
        }
        acts
    }

    /// Takes the outcome of an interactive session: a failure is reported.
    pub fn finish_launch(&mut self, result: Result<bool, AppError>)
        ensures
            match result {
                Ok(_) => *final(self) == *old(self),
                Err(e) => message_shown(
                    *old(self),
                    *final(self),
                    "Failed to execute SSH: "@ + error_text(e),
                ),
            },
    {
        match result {
            Ok(_) => {},
            Err(e) => {
                let text = concat_text("Failed to execute SSH: ", e.message().as_str());
                self.show_error(text.as_str());
            },
        }
    }
}

} // verus!
