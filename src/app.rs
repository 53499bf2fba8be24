//! The application state: connection store, key list, connection form and the
//! current interaction mode.
use vstd::prelude::*;
use crate::connection::{clone_opt, non_empty, opt_view, parse_port, port_of_text, texts, AppError, SshConnection};
use crate::file_browser::{is_key_file, acceptable_key_name, FileBrowser, ListedItem};
use crate::text::{concat_text, decimal_string, decimal_text, is_digit, starts_with_text, seq_starts_with};

verus! {

/// Index of the name field of the form.
pub const NAME_FIELD: usize = 0;
/// Index of the host field.
pub const HOST_FIELD: usize = 1;
/// Index of the port field.
pub const PORT_FIELD: usize = 2;
/// Index of the username field.
pub const USERNAME_FIELD: usize = 3;
/// Index of the password field.
pub const PASSWORD_FIELD: usize = 4;
/// Index of the key passphrase field.
pub const PASSPHRASE_FIELD: usize = 5;
/// Index of the key selector.
pub const KEY_FIELD: usize = 6;
/// Number of form fields; the cursor wraps modulo this.
pub const FIELD_COUNT: usize = 7;
/// The port field takes no more digits than this.
pub const MAX_PORT_DIGITS: usize = 5;

/// The interaction mode.
#[derive(Debug, Clone, Copy, PartialEq, Eq, Structural)]
pub enum InputMode {
    Normal,
    Editing,
    Adding,
    Settings,
    FileBrowser(FileBrowserMode),
}

/// What the directory browser is picking.
#[derive(Debug, PartialEq, Eq, Copy, Clone, Structural)]
pub enum FileBrowserMode {
    /// A single key file.
    SingleFile,
    /// A folder whose key files are all added.
    Directory,
}

/// The tabs of the settings screen.
#[derive(Debug)]
pub enum SettingsTab {
    SshKeys,
}

/// The connection form's scratch buffer.
#[derive(Debug)]
pub struct FormState {
    pub name: String,
    pub host: String,
    pub port: String,
    pub username: String,
    pub password: String,
    pub key_passphrase: String,
    /// Index into the key list, if a key is chosen.
    pub selected_key: Option<usize>,
    pub active_field: usize,
}

impl FormState {
    /// The text of field `i` (empty for the key selector).
    pub open spec fn field_text(&self, i: int) -> Seq<char> {
        if i == NAME_FIELD {
            self.name@
        } else if i == HOST_FIELD {
            self.host@
        } else if i == PORT_FIELD {
            self.port@
        } else if i == USERNAME_FIELD {
            self.username@
        } else if i == PASSWORD_FIELD {
            self.password@
        } else if i == PASSPHRASE_FIELD {
            self.key_passphrase@
        } else {
            Seq::empty()
        }
    }

    /// A blank form: empty text fields, port "22", no key, cursor on the first field.
    pub fn new() -> (r: FormState)
        ensures
            blank_form(r),
    {
        FormState {
            name: String::new(),
            host: String::new(),
            port: String::from_str("22"),
            username: String::new(),
            password: String::new(),
            key_passphrase: String::new(),
            selected_key: None,
            active_field: 0,
        }
    }
}

/// Empty text fields, port "22", no key chosen, cursor on the first field.
pub open spec fn blank_form(f: FormState) -> bool {
    &&& f.name@.len() == 0
    &&& f.host@.len() == 0
    &&& f.port@ == "22"@
    &&& f.username@.len() == 0
    &&& f.password@.len() == 0
    &&& f.key_passphrase@.len() == 0
    &&& f.selected_key is None
    &&& f.active_field == 0
}

/// The application state.
#[derive(Debug)]
pub struct App {
    pub connections: Vec<SshConnection>,
    /// Candidate private keys, found at startup or added by the user.
    pub ssh_keys: Vec<String>,
    /// The keys the user added, persisted on their own.
    pub additional_key_paths: Vec<String>,
    pub selected_connection: Option<usize>,
    pub input_mode: InputMode,
    pub form_state: FormState,
    pub error_message: Option<String>,
    pub settings_tab: SettingsTab,
    pub settings_selected_item: usize,
    pub file_browser: Option<FileBrowser>,
}

/// Text the user typed into a field is kept unless it is a character the field refuses:
/// the port field takes ASCII digits only, and at most `MAX_PORT_DIGITS` of them.
pub open spec fn field_accepts(field: int, text: Seq<char>, c: char) -> bool {
    field != PORT_FIELD || (is_digit(c) && text.len() < MAX_PORT_DIGITS)
}

/// The text of an optional string, empty when absent.
pub open spec fn text_or_empty(o: Option<String>) -> Seq<char> {
    match o {
        Some(s) => s@,
        None => Seq::empty(),
    }
}

/// An optional text from a form field: absent when the field is empty.
pub open spec fn optional_text(t: Seq<char>) -> Option<Seq<char>> {
    if t.len() == 0 {
        None
    } else {
        Some(t)
    }
}

/// The form holds a record: name, host and username are set and the port text is valid.
pub open spec fn form_is_valid(f: FormState) -> bool {
    f.name@.len() > 0 && f.host@.len() > 0 && f.username@.len() > 0 && port_of_text(f.port@) is Some
}

/// The form's required fields are all set.
pub open spec fn required_fields_set(f: FormState) -> bool {
    f.name@.len() > 0 && f.host@.len() > 0 && f.username@.len() > 0
}

/// `c` is the record the form describes, with `keys` the key list.
pub open spec fn record_of_form(c: SshConnection, f: FormState, keys: Seq<String>) -> bool {
    &&& c.name@ == f.name@
    &&& c.host@ == f.host@
    &&& Some(c.port) == port_of_text(f.port@)
    &&& c.username@ == f.username@
    &&& opt_view(c.password) == optional_text(f.password@)
    &&& opt_view(c.key_path) == match f.selected_key {
        Some(k) => Some(keys[k as int]@),
        None => None,
    }
    &&& opt_view(c.key_passphrase) == optional_text(f.key_passphrase@)
    &&& c.last_connection_status is None
}

/// `i` is the first position of `k` in `keys`, or `None` when `k` is absent.
pub open spec fn first_position(keys: Seq<Seq<char>>, k: Seq<char>, i: Option<usize>) -> bool {
    match i {
        Some(i) => i < keys.len() && keys[i as int] == k && forall|j: int|
            0 <= j < i ==> keys[j] != k,
        None => !keys.contains(k),
    }
}

/// The form that editing a record starts from.
pub open spec fn form_of_record(f: FormState, c: SshConnection, keys: Seq<String>) -> bool {
    &&& f.name@ == c.name@
    &&& f.host@ == c.host@
    &&& f.port@ == decimal_text(c.port as nat)
    &&& f.username@ == c.username@
    &&& f.password@ == text_or_empty(c.password)
    &&& f.key_passphrase@ == text_or_empty(c.key_passphrase)
    &&& match c.key_path {
        Some(p) => first_position(texts(keys), p@, f.selected_key),
        None => f.selected_key is None,
    }
    &&& f.active_field == 0
}

/// Where the selection lands after the record at the selection is removed from a
/// store that then holds `len` records: cleared when the store is empty, else
/// kept on the same index or moved onto the last record.
pub open spec fn selection_after_remove(sel: Option<usize>, len: int) -> Option<usize> {
    match sel {
        None => None,
        Some(i) => if len == 0 {
            None
        } else if i < len {
            Some(i)
        } else {
            Some((len - 1) as usize)
        },
    }
}

/// A key path a scan of the default key directory offers: an acceptable key file, not hidden.
pub open spec fn discovered_key(item: ListedItem) -> bool {
    item.is_file && acceptable_key_name(item.name@) && !seq_starts_with(item.name@, "."@)
}

/// Message for a form that lacks a required field.
pub const MSG_REQUIRED: &'static str = "Required fields cannot be empty";
/// Message for a form whose port text is not a port.
pub const MSG_PORT: &'static str = "Invalid port number";
/// Message when no connection is selected.
pub const MSG_NO_SELECTION: &'static str = "No connection selected";
/// Message when there is nothing to duplicate.
pub const MSG_NOTHING_TO_DUPLICATE: &'static str = "No connections to duplicate";
/// Message when the selection is not on a record.
pub const MSG_INVALID_SELECTION: &'static str = "Invalid connection selected";

impl App {
    /// The form's cursor is on a field, its key index, if any, names a key of
    /// the list, and a browser, if open, is well formed.
    pub open spec fn wf(&self) -> bool {
        &&& self.form_state.active_field < FIELD_COUNT
        &&& (self.form_state.selected_key matches Some(k) ==> k < self.ssh_keys@.len())
        &&& (self.file_browser matches Some(b) ==> b.wf())
    }

    /// The state at startup: no connections, Normal mode, a blank form, and as
    /// key list the acceptable, non-hidden regular files of the default key
    /// directory's listing, in listing order.
    pub fn new(ssh_dir: Vec<ListedItem>) -> (r: App)
        ensures
            r.wf(),
            r.connections@.len() == 0,
            texts(r.ssh_keys@) == ssh_dir@.filter(|i: ListedItem| discovered_key(i)).map_values(
                |i: ListedItem| i.path@,
            ),
            r.additional_key_paths@.len() == 0,
            r.selected_connection is None,
            r.input_mode == InputMode::Normal,
            blank_form(r.form_state),
            r.error_message is None,
            r.settings_selected_item == 0,
            r.file_browser is None,
    {
        let mut keys: Vec<String> = Vec::new();
        let mut i: usize = 0;
        while i < ssh_dir.len()
            invariant
                i <= ssh_dir@.len(),
                texts(keys@) == ssh_dir@.subrange(0, i as int).filter(
                    |i: ListedItem| discovered_key(i),
                ).map_values(|i: ListedItem| i.path@),
            decreases ssh_dir@.len() - i,
        {
            let item = &ssh_dir[i];
            let ghost before = keys@;
            proof {
                let p = |i: ListedItem| discovered_key(i);
                assert(ssh_dir@.subrange(0, i as int + 1) =~= ssh_dir@.subrange(0, i as int).push(
                    ssh_dir@[i as int],
                ));
                ssh_dir@.subrange(0, i as int).lemma_filter_push(ssh_dir@[i as int], p);
            }
            if is_key_file(item.is_file, item.name.as_str()) && !starts_with_text(
                item.name.as_str(),
                ".",
            ) {
                keys.push(item.path.clone());
                assert(texts(keys@) =~= texts(before).push(item.path@));
            }
            i += 1;
        }
        assert(ssh_dir@.subrange(0, ssh_dir@.len() as int) =~= ssh_dir@);
        App {
            connections: Vec::new(),
            ssh_keys: keys,
            additional_key_paths: Vec::new(),
            selected_connection: None,
            input_mode: InputMode::Normal,
            form_state: FormState::new(),
            error_message: None,
            settings_tab: SettingsTab::SshKeys,
            settings_selected_item: 0,
            file_browser: None,
        }
    }

    /// Types a character into the active field. The port field takes ASCII
    /// digits only, up to `MAX_PORT_DIGITS`; the key selector takes none.
    pub fn add_char(&mut self, c: char)
        ensures
            char_added(*old(self), *final(self), c),
    {
        let f = &mut self.form_state;
        let active = f.active_field;
        if active == NAME_FIELD {
            f.name.push(c);
        } else if active == HOST_FIELD {
            f.host.push(c);
        } else if active == PORT_FIELD {
            if ('0' <= c && c <= '9') && f.port.as_str().unicode_len() < MAX_PORT_DIGITS {
                f.port.push(c);
            }
        } else if active == USERNAME_FIELD {
            f.username.push(c);
        } else if active == PASSWORD_FIELD {
            f.password.push(c);
        } else if active == PASSPHRASE_FIELD {
            f.key_passphrase.push(c);
        }
    }

    /// Removes the last character of the active field, if it has one.
    pub fn delete_char(&mut self)
        ensures
            char_deleted(*old(self), *final(self)),
    {
        let f = &mut self.form_state;
        let active = f.active_field;
        if active == NAME_FIELD {
            f.name.pop();
        } else if active == HOST_FIELD {
            f.host.pop();
        } else if active == PORT_FIELD {
            f.port.pop();
        } else if active == USERNAME_FIELD {
            f.username.pop();
        } else if active == PASSWORD_FIELD {
            f.password.pop();
        } else if active == PASSPHRASE_FIELD {
            f.key_passphrase.pop();
        }
    }

    /// Moves the cursor to the next field, wrapping after the last.
    pub fn next_field(&mut self)
        requires
            old(self).form_state.active_field < FIELD_COUNT,
        ensures
            field_advanced(*old(self), *final(self)),
    {
        self.form_state.active_field = (self.form_state.active_field + 1) % FIELD_COUNT;
    }

    /// Moves the cursor to the previous field, wrapping before the first.
    pub fn previous_field(&mut self)
        requires
            old(self).form_state.active_field < FIELD_COUNT,
        ensures
            field_retreated(*old(self), *final(self)),
    {
        if self.form_state.active_field == 0 {
            self.form_state.active_field = FIELD_COUNT - 1;
        } else {
            self.form_state.active_field -= 1;
        }
    }
}

impl App {
    /// The record the form describes, or the reason it describes none.
    fn connection_from_form(&self) -> (r: Result<SshConnection, &'static str>)
        requires
            self.wf(),
        ensures
            match r {
                Ok(c) => form_is_valid(self.form_state) && record_of_form(
                    c,
                    self.form_state,
                    self.ssh_keys@,
                ),
                Err(m) => !form_is_valid(self.form_state) && m == if required_fields_set(
                    self.form_state,
                ) {
                    MSG_PORT
                } else {
                    MSG_REQUIRED
                },
            },
    {
        let f = &self.form_state;
        if f.name.as_str().is_empty() || f.host.as_str().is_empty() || f.username.as_str().is_empty() {
            return Err(MSG_REQUIRED);
        }
        let port = match parse_port(f.port.as_str()) {
            Some(p) => p,
            None => {
                return Err(MSG_PORT);
            },
        };
        let key_path = match f.selected_key {
            Some(k) => Some(self.ssh_keys[k].clone()),
            None => None,
        };
        Ok(
            SshConnection {
                name: f.name.clone(),
                host: f.host.clone(),
                port,
                username: f.username.clone(),
                password: non_empty(&f.password),
                key_path,
                key_passphrase: non_empty(&f.key_passphrase),
                last_connection_status: None,
            },
        )
    }

    /// Adds the record the form describes to the end of the store; a form
    /// without name, host or username, or with a bad port, is refused with a
    /// message and nothing changes.
    pub fn save_connection(&mut self) -> (r: Result<(), &'static str>)
        requires
            old(self).wf(),
        ensures
            form_saved(*old(self), *final(self), r),
    {
        match self.connection_from_form() {
            Ok(c) => {
                self.connections.push(c);
                assert(self.connections@.drop_last() =~= old(self).connections@);
                Ok(())
            },
            Err(m) => Err(m),
        }
    }

    /// Replaces the selected record with the record the form describes. Without
    /// a selection on a record, or with a form that describes none, it returns
    /// the reason and nothing changes.
    pub fn update_connection(&mut self) -> (r: Result<(), &'static str>)
        requires
            old(self).wf(),
        ensures
            form_updated(*old(self), *final(self), r),
    {
        let idx = match self.selected_connection {
            Some(i) => {
                if i >= self.connections.len() {
                    return Err(MSG_NO_SELECTION);
                }
                i
            },
            None => {
                return Err(MSG_NO_SELECTION);
            },
        };
        match self.connection_from_form() {
            Ok(c) => {
                self.connections.set(idx, c);
                Ok(())
            },
            Err(m) => Err(m),
        }
    }

    /// Loads the selected record into the form and switches to Editing; the
    /// key selector points at the record's key in the key list, if it is there.
    /// Without a selection on a record nothing changes.
    pub fn edit_connection(&mut self)
        requires
            old(self).wf(),
        ensures
            final(self).wf(),
            edit_started(*old(self), *final(self)),
    {
        let idx = match self.selected_connection {
            Some(i) => i,
            None => {
                return ;
            },
        };
        if idx >= self.connections.len() {
            return ;
        }
        let conn = &self.connections[idx];
        let selected_key = match &conn.key_path {
            Some(p) => position_of(&self.ssh_keys, p),
            None => None,
        };
        let password = match &conn.password {
            Some(p) => p.clone(),
            None => String::new(),
        };
        let key_passphrase = match &conn.key_passphrase {
            Some(p) => p.clone(),
            None => String::new(),
        };
        let form = FormState {
            name: conn.name.clone(),
            host: conn.host.clone(),
            port: decimal_string(conn.port as u64),
            username: conn.username.clone(),
            password,
            key_passphrase,
            selected_key,
            active_field: 0,
        };
        self.form_state = form;
        self.input_mode = InputMode::Editing;
    }

    /// Removes the selected record. The selection then stays on the same index
    /// if a record is there, moves onto the last record otherwise, and is
    /// cleared when the store becomes empty.
    pub fn delete_connection(&mut self)
        ensures
            deleted(*old(self), *final(self)),
            final(self).selected_connection matches Some(i) ==> i < final(self).connections@.len(),
            old(self).connections@.len() == 1 && selection_on_record(*old(self))
                ==> final(self).selected_connection is None,
    {
        if let Some(idx) = self.selected_connection {
            if idx < self.connections.len() {
                self.connections.remove(idx);
            }
            let n = self.connections.len();
            if n == 0 {
                self.selected_connection = None;
            } else if idx >= n {
                self.selected_connection = Some(n - 1);
            }
        }
    }

    /// Appends a copy of the selected record named with " (copy)" after its
    /// name and without a test status, and selects the copy.
    pub fn duplicate_connection(&mut self) -> (r: Result<(), &'static str>)
        ensures
            duplicated(*old(self), *final(self), r),
    {
        if self.connections.len() == 0 {
            return Err(MSG_NOTHING_TO_DUPLICATE);
        }
        let idx = match self.selected_connection {
            Some(i) => i,
            None => {
                return Err(MSG_NO_SELECTION);
            },
        };
        if idx >= self.connections.len() {
            return Err(MSG_INVALID_SELECTION);
        }
        let src = &self.connections[idx];
        let copy = SshConnection {
            name: concat_text(src.name.as_str(), " (copy)"),
            host: src.host.clone(),
            port: src.port,
            username: src.username.clone(),
            password: clone_opt(&src.password),
            key_path: clone_opt(&src.key_path),
            key_passphrase: clone_opt(&src.key_passphrase),
            last_connection_status: None,
        };
        self.connections.push(copy);
        assert(self.connections@.drop_last() =~= old(self).connections@);
        self.selected_connection = Some(self.connections.len() - 1);
        Ok(())
    }
}

impl App {
    /// Moves the key selector to the next key (`direction > 0`) or the previous
    /// one, wrapping at both ends; no key chosen counts as the first. It acts
    /// only while the cursor is on the key selector and the key list is not empty.
    pub fn select_ssh_key(&mut self, direction: i8)
        requires
            old(self).wf(),
        ensures
            final(self).wf(),
            key_cycled(*old(self), *final(self), direction),
    {
        let n = self.ssh_keys.len();
        if self.form_state.active_field == KEY_FIELD && n > 0 {
            let current = match self.form_state.selected_key {
                Some(k) => k,
                None => 0,
            };
            let next = if direction > 0 {
                (current + 1) % n
            } else if current == 0 {
                n - 1
            } else {
                current - 1
            };
            self.form_state.selected_key = Some(next);
        }
    }

    /// Clears the key selector.
    pub fn clear_key_selection(&mut self)
        requires
            old(self).wf(),
        ensures
            final(self).wf(),
            key_selection_cleared(*old(self), *final(self)),
    {
        self.form_state.selected_key = None;
    }

    /// Adds a user-chosen key to the key list and to the added keys, if the path
    /// is an existing regular file and is not in the key list yet.
    pub fn add_key_path(&mut self, path: String, is_file: bool)
        requires
            old(self).wf(),
        ensures
            final(self).wf(),
            key_added(*old(self), *final(self), path@, is_file),
    {
        if !is_file {
            return ;
        }
        if let Some(_) = position_of(&self.ssh_keys, &path) {
            return ;
        }
        let ghost keys = self.ssh_keys@;
        let ghost added = self.additional_key_paths@;
        self.additional_key_paths.push(path.clone());
        self.ssh_keys.push(path);
        assert(texts(self.ssh_keys@) =~= texts(keys).push(path@));
        assert(texts(self.additional_key_paths@) =~= texts(added).push(path@));
    }

    /// Removes the key at `index` from the key list, and its first copy from the
    /// added keys. The form's key selector keeps pointing at the same key, or
    /// is cleared if that key was removed. The settings cursor steps back when
    /// it was past the shortened list.
    pub fn remove_ssh_key(&mut self, index: usize)
        requires
            old(self).wf(),
        ensures
            final(self).wf(),
            key_removed(*old(self), *final(self), index),
    {
        if index >= self.ssh_keys.len() {
            return ;
        }
        let path = self.ssh_keys.remove(index);
        match position_of(&self.additional_key_paths, &path) {
            Some(j) => {
                self.additional_key_paths.remove(j);
            },
            None => {},
        }
        match self.form_state.selected_key {
            Some(k) => {
                if k == index {
                    self.form_state.selected_key = None;
                } else if k > index {
                    self.form_state.selected_key = Some(k - 1);
                }
            },
            None => {},
        }
        if self.settings_selected_item > 3 && self.settings_selected_item - 3
            >= self.ssh_keys.len() {
            self.settings_selected_item -= 1;
        }
    }

    /// Shows a message on the status line.
    pub fn show_error(&mut self, message: &str)
        ensures
            message_shown(*old(self), *final(self), message@),
    {
        self.error_message = Some(String::from_str(message));
    }

    /// Clears the status line.
    pub fn clear_error(&mut self)
        ensures
            *final(self) == (App { error_message: None, ..*old(self) }),
    {
        self.error_message = None;
    }

    /// Opens a browser at `home` to pick a single key file.
    pub fn select_key_file(&mut self, home: String)
        requires
            old(self).wf(),
        ensures
            final(self).wf(),
            browser_opened(*old(self), *final(self), home@, FileBrowserMode::SingleFile),
    {
        self.file_browser = Some(FileBrowser::new(home));
        self.input_mode = InputMode::FileBrowser(FileBrowserMode::SingleFile);
    }

    /// Opens a browser at `home` to pick a folder of keys.
    pub fn select_key_folder(&mut self, home: String)
        requires
            old(self).wf(),
        ensures
            final(self).wf(),
            browser_opened(*old(self), *final(self), home@, FileBrowserMode::Directory),
    {
        self.file_browser = Some(FileBrowser::new(home));
        self.input_mode = InputMode::FileBrowser(FileBrowserMode::Directory);
    }

    /// Switches the settings tab; there is only the key tab, so nothing changes.
    pub fn next_settings_tab(&mut self)
        ensures
            *final(self) == *old(self),
    {
    }

    /// Records the outcome of a connection test of record `idx` as its test
    /// status and hands the outcome back; for an index past the store it
    /// reports that no connection is selected and changes nothing.
    pub fn record_test_result(&mut self, idx: usize, result: Result<(), AppError>) -> (r: Result<(), AppError>)
        ensures
            test_recorded(*old(self), *final(self), idx, result, r),
    {
        if idx >= self.connections.len() {
            return Err(AppError::NoConnectionSelected);
        }
        let ok = result.is_ok();
        let ghost before = self.connections@;
        let mut c = self.connections.remove(idx);
        c.last_connection_status = Some(ok);
        self.connections.insert(idx, c);
        assert(self.connections@ =~= before.update(idx as int, c));
        result
    }
}

/// The first position of `k` in `keys`.
fn position_of(keys: &Vec<String>, k: &String) -> (r: Option<usize>)
    ensures
        first_position(texts(keys@), k@, r),
{
    let mut i: usize = 0;
    while i < keys.len()
        invariant
            i <= keys@.len(),
            forall|j: int| 0 <= j < i ==> keys@[j]@ != k@,
        decreases keys@.len() - i,
    {
        if keys[i] == *k {
            return Some(i);
        }
        i += 1;
    }
    proof {
        if texts(keys@).contains(k@) {
            let j = choose|j: int| 0 <= j < texts(keys@).len() && texts(keys@)[j] == k@;
            assert(keys@[j]@ == k@);
        }
    }
    None
}

// ---------------------------------------------------------------------------
// The transitions of the application state, one per operation
// ---------------------------------------------------------------------------

/// `n` is `o` after typing `c`: the active text field gains `c` unless it refuses it.
pub open spec fn char_added(o: App, n: App, c: char) -> bool {
    &&& n == (App { form_state: n.form_state, ..o })
    &&& n.form_state.selected_key == o.form_state.selected_key
    &&& n.form_state.active_field == o.form_state.active_field
    &&& forall|i: int|
        0 <= i < FIELD_COUNT ==> #[trigger] n.form_state.field_text(i) == if i
            == o.form_state.active_field && i != KEY_FIELD && field_accepts(
            i,
            o.form_state.field_text(i),
            c,
        ) {
            o.form_state.field_text(i).push(c)
        } else {
            o.form_state.field_text(i)
        }
}

/// `n` is `o` after a backspace: the active text field loses its last character, if any.
pub open spec fn char_deleted(o: App, n: App) -> bool {
    &&& n == (App { form_state: n.form_state, ..o })
    &&& n.form_state.selected_key == o.form_state.selected_key
    &&& n.form_state.active_field == o.form_state.active_field
    &&& forall|i: int|
        0 <= i < FIELD_COUNT ==> #[trigger] n.form_state.field_text(i) == if i
            == o.form_state.active_field && o.form_state.field_text(i).len() > 0 {
            o.form_state.field_text(i).drop_last()
        } else {
            o.form_state.field_text(i)
        }
}

/// `n` is `o` with the form's cursor on the next field.
pub open spec fn field_advanced(o: App, n: App) -> bool {
    n == (App {
        form_state: FormState {
            active_field: next_field_index(o.form_state.active_field as int) as usize,
            ..o.form_state
        },
        ..o
    })
}

/// `n` is `o` with the form's cursor on the previous field.
pub open spec fn field_retreated(o: App, n: App) -> bool {
    n == (App {
        form_state: FormState {
            active_field: previous_field_index(o.form_state.active_field as int) as usize,
            ..o.form_state
        },
        ..o
    })
}

/// The message a form that describes no record is refused with.
pub open spec fn form_error(f: FormState) -> &'static str {
    if required_fields_set(f) {
        MSG_PORT
    } else {
        MSG_REQUIRED
    }
}

/// `n` is `o` after adding the form's record, with outcome `r`.
pub open spec fn form_saved(o: App, n: App, r: Result<(), &'static str>) -> bool {
    if form_is_valid(o.form_state) {
        &&& r is Ok
        &&& n == (App { connections: n.connections, ..o })
        &&& n.connections@.len() == o.connections@.len() + 1
        &&& n.connections@.drop_last() == o.connections@
        &&& record_of_form(n.connections@.last(), o.form_state, o.ssh_keys@)
    } else {
        r == Err::<(), &'static str>(form_error(o.form_state)) && n == o
    }
}

/// The selection is on a record.
pub open spec fn selection_on_record(o: App) -> bool {
    o.selected_connection matches Some(i) && i < o.connections@.len()
}

/// `n` is `o` after replacing the selected record by the form's record, with outcome `r`.
pub open spec fn form_updated(o: App, n: App, r: Result<(), &'static str>) -> bool {
    if !selection_on_record(o) {
        r == Err::<(), &'static str>(MSG_NO_SELECTION) && n == o
    } else if !form_is_valid(o.form_state) {
        r == Err::<(), &'static str>(form_error(o.form_state)) && n == o
    } else {
        let i = o.selected_connection.unwrap() as int;
        &&& r is Ok
        &&& n == (App { connections: n.connections, ..o })
        &&& n.connections@.len() == o.connections@.len()
        &&& forall|j: int|
            0 <= j < o.connections@.len() && j != i ==> n.connections@[j] == o.connections@[j]
        &&& record_of_form(n.connections@[i], o.form_state, o.ssh_keys@)
    }
}

/// `n` is `o` after starting to edit the selected record.
pub open spec fn edit_started(o: App, n: App) -> bool {
    if selection_on_record(o) {
        &&& n == (App { form_state: n.form_state, input_mode: InputMode::Editing, ..o })
        &&& form_of_record(
            n.form_state,
            o.connections@[o.selected_connection.unwrap() as int],
            o.ssh_keys@,
        )
    } else {
        n == o
    }
}

/// `n` is `o` after removing the selected record.
pub open spec fn deleted(o: App, n: App) -> bool {
    &&& n == (App {
        connections: n.connections,
        selected_connection: n.selected_connection,
        ..o
    })
    &&& n.connections@ == if selection_on_record(o) {
        o.connections@.remove(o.selected_connection.unwrap() as int)
    } else {
        o.connections@
    }
    &&& n.selected_connection == selection_after_remove(
        o.selected_connection,
        n.connections@.len() as int,
    )
}

/// The message duplicating in state `o` is refused with, if it is.
pub open spec fn duplicate_error(o: App) -> Option<&'static str> {
    if o.connections@.len() == 0 {
        Some(MSG_NOTHING_TO_DUPLICATE)
    } else if o.selected_connection is None {
        Some(MSG_NO_SELECTION)
    } else if !selection_on_record(o) {
        Some(MSG_INVALID_SELECTION)
    } else {
        None
    }
}

/// `n` is `o` after duplicating the selected record, with outcome `r`.
pub open spec fn duplicated(o: App, n: App, r: Result<(), &'static str>) -> bool {
    match duplicate_error(o) {
        Some(m) => r == Err::<(), &'static str>(m) && n == o,
        None => {
            let src = o.connections@[o.selected_connection.unwrap() as int];
            let copy = n.connections@.last();
            &&& r is Ok
            &&& n == (App {
                connections: n.connections,
                selected_connection: n.selected_connection,
                ..o
            })
            &&& n.connections@.len() == o.connections@.len() + 1
            &&& n.connections@.drop_last() == o.connections@
            &&& copy.name@ == src.name@ + " (copy)"@
            &&& copy == (SshConnection { name: copy.name, last_connection_status: None, ..src })
            &&& n.selected_connection == Some((n.connections@.len() - 1) as usize)
        },
    }
}

/// The key index the selector moves to from `cur` among `n` keys.
pub open spec fn cycled_key(cur: Option<usize>, n: int, direction: i8) -> usize {
    let c: int = match cur {
        Some(k) => k as int,
        None => 0,
    };
    (if direction > 0 {
        (c + 1) % n
    } else if c == 0 {
        n - 1
    } else {
        c - 1
    }) as usize
}

/// `n` is `o` after moving the key selector in `direction`.
pub open spec fn key_cycled(o: App, n: App, direction: i8) -> bool {
    if o.form_state.active_field == KEY_FIELD && o.ssh_keys@.len() > 0 {
        n == (App {
            form_state: FormState {
                selected_key: Some(
                    cycled_key(o.form_state.selected_key, o.ssh_keys@.len() as int, direction),
                ),
                ..o.form_state
            },
            ..o
        })
    } else {
        n == o
    }
}

/// `n` is `o` with no key chosen in the form.
pub open spec fn key_selection_cleared(o: App, n: App) -> bool {
    n == (App { form_state: FormState { selected_key: None, ..o.form_state }, ..o })
}

/// `n` is `o` after offering `path` as a user-chosen key.
pub open spec fn key_added(o: App, n: App, path: Seq<char>, is_file: bool) -> bool {
    &&& n == (App {
        ssh_keys: n.ssh_keys,
        additional_key_paths: n.additional_key_paths,
        ..o
    })
    &&& if is_file && !texts(o.ssh_keys@).contains(path) {
        &&& texts(n.ssh_keys@) == texts(o.ssh_keys@).push(path)
        &&& texts(n.additional_key_paths@) == texts(o.additional_key_paths@).push(path)
    } else {
        &&& n.ssh_keys == o.ssh_keys
        &&& n.additional_key_paths == o.additional_key_paths
    }
}

/// `n` is `o` after removing key `index` from the key list.
pub open spec fn key_removed(o: App, n: App, index: usize) -> bool {
    if index >= o.ssh_keys@.len() {
        n == o
    } else {
        let removed = o.ssh_keys@[index as int]@;
        let added = texts(o.additional_key_paths@);
        &&& n == (App {
            ssh_keys: n.ssh_keys,
            additional_key_paths: n.additional_key_paths,
            form_state: FormState { selected_key: n.form_state.selected_key, ..o.form_state },
            settings_selected_item: n.settings_selected_item,
            ..o
        })
        &&& n.ssh_keys@ == o.ssh_keys@.remove(index as int)
        &&& if added.contains(removed) {
            exists|j: int|
                first_position(added, removed, Some(j as usize)) && 0 <= j
                    && n.additional_key_paths@ == o.additional_key_paths@.remove(j)
        } else {
            n.additional_key_paths == o.additional_key_paths
        }
        &&& n.form_state.selected_key == match o.form_state.selected_key {
            Some(k) => if k == index {
                None
            } else if k > index {
                Some((k - 1) as usize)
            } else {
                Some(k)
            },
            None => None,
        }
        &&& n.settings_selected_item == if o.settings_selected_item > 3
            && o.settings_selected_item >= 3 + n.ssh_keys@.len() {
            (o.settings_selected_item - 1) as usize
        } else {
            o.settings_selected_item
        }
    }
}

/// `n` is `o` showing `msg` on the status line.
pub open spec fn message_shown(o: App, n: App, msg: Seq<char>) -> bool {
    n == (App { error_message: n.error_message, ..o }) && opt_view(n.error_message) == Some(msg)
}

/// `n` is `o` with a fresh browser on `home` open in `mode`; its listing is not read yet.
pub open spec fn browser_opened(o: App, n: App, home: Seq<char>, mode: FileBrowserMode) -> bool {
    &&& n == (App {
        file_browser: n.file_browser,
        input_mode: InputMode::FileBrowser(mode),
        ..o
    })
    &&& n.file_browser matches Some(b) && b.wf() && b.current_path@ == home && b.selected == 0
        && b.children().len() == 0
}

/// `n` is `o` after recording the outcome `result` of testing record `idx`, with outcome `r`.
pub open spec fn test_recorded(
    o: App,
    n: App,
    idx: usize,
    result: Result<(), AppError>,
    r: Result<(), AppError>,
) -> bool {
    if idx >= o.connections@.len() {
        n == o && r == Err::<(), AppError>(AppError::NoConnectionSelected)
    } else {
        &&& r == result
        &&& n == (App { connections: n.connections, ..o })
        &&& n.connections@ == o.connections@.update(
            idx as int,
            SshConnection { last_connection_status: Some(result is Ok), ..o.connections@[idx as int] },
        )
    }
}

/// Seven steps to the next field bring the form back to where it was.
pub proof fn lemma_advance_seven_is_identity(states: Seq<App>)
    requires
        states.len() == FIELD_COUNT + 1,
        states[0].wf(),
        forall|i: int| 0 <= i < FIELD_COUNT ==> field_advanced(#[trigger] states[i], states[i + 1]),
    ensures
        states[FIELD_COUNT as int] == states[0],
{
    let s = states;
    assert(field_advanced(s[0], s[1]));
    assert(field_advanced(s[1], s[2]));
    assert(field_advanced(s[2], s[3]));
    assert(field_advanced(s[3], s[4]));
    assert(field_advanced(s[4], s[5]));
    assert(field_advanced(s[5], s[6]));
    assert(field_advanced(s[6], s[7]));
    assert(s[7].form_state.active_field == s[0].form_state.active_field);
    assert(s[7].form_state == s[0].form_state);
}

/// Seven steps to the previous field bring the form back to where it was.
pub proof fn lemma_retreat_seven_is_identity(states: Seq<App>)
    requires
        states.len() == FIELD_COUNT + 1,
        states[0].wf(),
        forall|i: int| 0 <= i < FIELD_COUNT ==> field_retreated(#[trigger] states[i], states[i + 1]),
    ensures
        states[FIELD_COUNT as int] == states[0],
{
    let s = states;
    assert(field_retreated(s[0], s[1]));
    assert(field_retreated(s[1], s[2]));
    assert(field_retreated(s[2], s[3]));
    assert(field_retreated(s[3], s[4]));
    assert(field_retreated(s[4], s[5]));
    assert(field_retreated(s[5], s[6]));
    assert(field_retreated(s[6], s[7]));
    assert(s[7].form_state.active_field == s[0].form_state.active_field);
    assert(s[7].form_state == s[0].form_state);
}

/// The field after `i`, cyclically.
pub open spec fn next_field_index(i: int) -> int {
    (i + 1) % (FIELD_COUNT as int)
}

/// The field before `i`, cyclically.
pub open spec fn previous_field_index(i: int) -> int {
    if i == 0 {
        FIELD_COUNT - 1
    } else {
        i - 1
    }
}

} // verus!
