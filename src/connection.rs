//! Connection records, their persisted form, the port rule, and what a test or
//! a launch of a record hands to the SSH side.
use vstd::prelude::*;
use crate::text::{all_digits, concat_text, decimal_string, decimal_text, decimal_value, is_digit, chars_of, lemma_decimal_prefix_le};

verus! {

/// The port used when a record names none.
pub const DEFAULT_PORT: u16 = 22;

/// A stored SSH connection.
#[derive(Debug)]
pub struct SshConnection {
    pub name: String,
    pub host: String,
    pub port: u16,
    pub username: String,
    pub password: Option<String>,
    pub key_path: Option<String>,
    pub key_passphrase: Option<String>,
    /// Outcome of the last connection test; never persisted.
    pub last_connection_status: Option<bool>,
}

/// The mathematical value of a connection record.
pub struct ConnectionView {
    pub name: Seq<char>,
    pub host: Seq<char>,
    pub port: u16,
    pub username: Seq<char>,
    pub password: Option<Seq<char>>,
    pub key_path: Option<Seq<char>>,
    pub key_passphrase: Option<Seq<char>>,
    pub last_connection_status: Option<bool>,
}

/// The view of an optional string.
pub open spec fn opt_view(o: Option<String>) -> Option<Seq<char>> {
    match o {
        Some(s) => Some(s@),
        None => None,
    }
}

impl View for SshConnection {
    type V = ConnectionView;

    open spec fn view(&self) -> ConnectionView {
        ConnectionView {
            name: self.name@,
            host: self.host@,
            port: self.port,
            username: self.username@,
            password: opt_view(self.password),
            key_path: opt_view(self.key_path),
            key_passphrase: opt_view(self.key_passphrase),
            last_connection_status: self.last_connection_status,
        }
    }
}

/// A copy of an optional string.
pub fn clone_opt(o: &Option<String>) -> (r: Option<String>)
    ensures
        r == *o,
{
    match o {
        Some(s) => Some(s.clone()),
        None => None,
    }
}

/// `None` for an empty string, else the string itself.
pub fn non_empty(s: &String) -> (r: Option<String>)
    ensures
        opt_view(r) == (if s@.len() == 0 { None } else { Some(s@) }),
{
    if s.as_str().is_empty() {
        None
    } else {
        Some(s.clone())
    }
}

/// Errors reported by testing or launching a connection.
#[derive(Debug)]
pub enum AppError {
    ConnectionFailed(String),
    AuthenticationFailed(String),
    NoConnectionSelected,
}

impl AppError {
    /// The text shown to the user for this error.
    pub fn message(&self) -> (r: String)
        ensures
            r@ == error_text(*self),
    {
        match self {
            AppError::ConnectionFailed(m) => concat_text("Connection failed: ", m.as_str()),
            AppError::AuthenticationFailed(m) => concat_text("Authentication failed: ", m.as_str()),
            AppError::NoConnectionSelected => String::from_str("No connection selected"),
        }
    }
}

/// The text shown to the user for an error.
pub open spec fn error_text(e: AppError) -> Seq<char> {
    match e {
        AppError::ConnectionFailed(m) => "Connection failed: "@ + m@,
        AppError::AuthenticationFailed(m) => "Authentication failed: "@ + m@,
        AppError::NoConnectionSelected => "No connection selected"@,
    }
}

// ---------------------------------------------------------------------------
// The port rule
// ---------------------------------------------------------------------------

/// The port that the form's port text stands for: empty text means the default
/// port; otherwise the text must be all digits and spell a number in 1..=65535.
pub open spec fn port_of_text(t: Seq<char>) -> Option<u16> {
    if t.len() == 0 {
        Some(DEFAULT_PORT)
    } else if all_digits(t) && 1 <= decimal_value(t) <= 65535 {
        Some(decimal_value(t) as u16)
    } else {
        None
    }
}

/// Reads the form's port text by `port_of_text`.
pub fn parse_port(text: &str) -> (r: Option<u16>)
    ensures
        r == port_of_text(text@),
{
    let t = chars_of(text);
    if t.len() == 0 {
        return Some(DEFAULT_PORT);
    }
    let mut value: u32 = 0;
    let mut i: usize = 0;
    while i < t.len()
        invariant
            t@ == text@,
            t@.len() > 0,
            i <= t@.len(),
            all_digits(t@.subrange(0, i as int)),
            value as int == decimal_value(t@.subrange(0, i as int)),
            value <= 65535,
        decreases t@.len() - i,
    {
        let c = t[i];
        if !('0' <= c && c <= '9') {
            assert(!is_digit(t@[i as int]));
            return None;
        }
        let prefix = Ghost(t@.subrange(0, i as int + 1));
        assert(prefix@.drop_last() =~= t@.subrange(0, i as int));
        value = value * 10 + (c as u32 - '0' as u32);
        i += 1;
        assert(all_digits(t@.subrange(0, i as int))) by {
            assert forall|k: int| 0 <= k < i implies is_digit(#[trigger] t@.subrange(0, i as int)[k]) by {
                if k < i - 1 {
                    assert(t@.subrange(0, i as int)[k] == t@.subrange(0, i - 1)[k]);
                }
            }
        }
        if value > 65535 {
            proof {
                if all_digits(t@) {
                    lemma_decimal_prefix_le(t@, i as int);
                }
            }
            return None;
        }
    }
    assert(t@.subrange(0, t@.len() as int) =~= t@);
    if value == 0 {
        None
    } else {
        Some(value as u16)
    }
}

// ---------------------------------------------------------------------------
// The persisted form
// ---------------------------------------------------------------------------

/// A connection record as it is written to storage: it has no test status.
#[derive(Debug)]
pub struct StoredConnection {
    pub name: String,
    pub host: String,
    pub port: u16,
    pub username: String,
    pub password: Option<String>,
    pub key_path: Option<String>,
    pub key_passphrase: Option<String>,
}

/// The persisted form of a record: all its fields but the test status.
pub open spec fn stored_of(c: SshConnection) -> StoredConnection {
    StoredConnection {
        name: c.name,
        host: c.host,
        port: c.port,
        username: c.username,
        password: c.password,
        key_path: c.key_path,
        key_passphrase: c.key_passphrase,
    }
}

/// The record that a persisted record reads back as: its fields, with no test status.
pub open spec fn loaded_of(s: StoredConnection) -> SshConnection {
    SshConnection {
        name: s.name,
        host: s.host,
        port: s.port,
        username: s.username,
        password: s.password,
        key_path: s.key_path,
        key_passphrase: s.key_passphrase,
        last_connection_status: None,
    }
}

/// A record with its test status cleared.
pub open spec fn without_status(c: SshConnection) -> SshConnection {
    SshConnection { last_connection_status: None, ..c }
}

/// The persisted form of each record, in order.
pub fn save_records(conns: &Vec<SshConnection>) -> (r: Vec<StoredConnection>)
    ensures
        r@ == conns@.map_values(|c: SshConnection| stored_of(c)),
{
    let mut r: Vec<StoredConnection> = Vec::new();
    let mut i: usize = 0;
    while i < conns.len()
        invariant
            i <= conns@.len(),
            r@ == conns@.subrange(0, i as int).map_values(|c: SshConnection| stored_of(c)),
        decreases conns@.len() - i,
    {
        let c = &conns[i];
        r.push(
            StoredConnection {
                name: c.name.clone(),
                host: c.host.clone(),
                port: c.port,
                username: c.username.clone(),
                password: clone_opt(&c.password),
                key_path: clone_opt(&c.key_path),
                key_passphrase: clone_opt(&c.key_passphrase),
            },
        );
        i += 1;
        assert(r@ =~= conns@.subrange(0, i as int).map_values(|c: SshConnection| stored_of(c)));
    }
    assert(conns@.subrange(0, conns@.len() as int) =~= conns@);
    r
}

/// The records that persisted records read back as, in order.
pub fn load_records(stored: Vec<StoredConnection>) -> (r: Vec<SshConnection>)
    ensures
        r@ == stored@.map_values(|s: StoredConnection| loaded_of(s)),
{
    let mut r: Vec<SshConnection> = Vec::new();
    let mut i: usize = 0;
    while i < stored.len()
        invariant
            i <= stored@.len(),
            r@ == stored@.subrange(0, i as int).map_values(|s: StoredConnection| loaded_of(s)),
        decreases stored@.len() - i,
    {
        let s = &stored[i];
        r.push(
            SshConnection {
                name: s.name.clone(),
                host: s.host.clone(),
                port: s.port,
                username: s.username.clone(),
                password: clone_opt(&s.password),
                key_path: clone_opt(&s.key_path),
                key_passphrase: clone_opt(&s.key_passphrase),
                last_connection_status: None,
            },
        );
        i += 1;
        assert(r@ =~= stored@.subrange(0, i as int).map_values(
            |s: StoredConnection| loaded_of(s),
        ));
    }
    assert(stored@.subrange(0, stored@.len() as int) =~= stored@);
    r
}

/// Saving records and loading them back gives the same records, in the same
/// order, each with its test status reset.
pub proof fn lemma_store_round_trip(conns: Seq<SshConnection>)
    ensures
        conns.map_values(|c: SshConnection| stored_of(c)).map_values(
            |s: StoredConnection| loaded_of(s),
        ) == conns.map_values(|c: SshConnection| without_status(c)),
{
    assert(conns.map_values(|c: SshConnection| stored_of(c)).map_values(
        |s: StoredConnection| loaded_of(s),
    ) =~= conns.map_values(|c: SshConnection| without_status(c)));
}

// ---------------------------------------------------------------------------
// Testing and launching
// ---------------------------------------------------------------------------

/// How a connection test authenticates.
#[derive(Debug)]
pub enum AuthMethod {
    /// With the private key at `key_path`, unlocked by the passphrase if there is one.
    Key { username: String, key_path: String, passphrase: Option<String> },
    /// With the password.
    Password { username: String, password: String },
}

/// The message of the error for a record with neither key nor password.
pub open spec fn no_auth_text() -> Seq<char> {
    "No authentication method provided"@
}

impl SshConnection {
    /// The credential a connection test uses: the key when a key path is set,
    /// else the password; with neither, an authentication failure.
    pub fn auth_plan(&self) -> (r: Result<AuthMethod, AppError>)
        ensures
            self.key_path.is_some() ==> (match r {
                Ok(AuthMethod::Key { username, key_path, passphrase }) => username@ == self.username@
                    && key_path@ == self.key_path.unwrap()@ && opt_view(passphrase) == opt_view(
                    self.key_passphrase,
                ),
                _ => false,
            }),
            self.key_path.is_none() && self.password.is_some() ==> (match r {
                Ok(AuthMethod::Password { username, password }) => username@ == self.username@
                    && password@ == self.password.unwrap()@,
                _ => false,
            }),
            self.key_path.is_none() && self.password.is_none() ==> (match r {
                Err(AppError::AuthenticationFailed(m)) => m@ == no_auth_text(),
                _ => false,
            }),
    {
        match &self.key_path {
            Some(k) => Ok(
                AuthMethod::Key {
                    username: self.username.clone(),
                    key_path: k.clone(),
                    passphrase: clone_opt(&self.key_passphrase),
                },
            ),
            None => match &self.password {
                Some(p) => Ok(
                    AuthMethod::Password { username: self.username.clone(), password: p.clone() },
                ),
                None => Err(
                    AppError::AuthenticationFailed(
                        String::from_str("No authentication method provided"),
                    ),
                ),
            },
        }
    }
}

/// A program to run and its arguments.
#[derive(Debug)]
pub struct LaunchCommand {
    pub program: String,
    pub args: Vec<String>,
}

/// The program that feeds a password or passphrase to the SSH client.
pub open spec fn helper_program() -> Seq<char> {
    "sshpass"@
}

/// The SSH client program.
pub open spec fn client_program() -> Seq<char> {
    "ssh"@
}

/// The prompt the helper answers when it supplies a key passphrase.
pub open spec fn passphrase_prompt() -> Seq<char> {
    "Enter passphrase for key"@
}

/// The client's arguments for a record: `-p <port>` when the port is not the
/// default, `-i <key>` when a key path is set, then `user@host`.
pub open spec fn client_args(c: ConnectionView) -> Seq<Seq<char>> {
    let port_args = if c.port != DEFAULT_PORT {
        seq!["-p"@, decimal_text(c.port as nat)]
    } else {
        Seq::<Seq<char>>::empty()
    };
    let key_args = match c.key_path {
        Some(k) => seq!["-i"@, k],
        None => Seq::<Seq<char>>::empty(),
    };
    port_args + key_args + seq![c.username + "@"@ + c.host]
}

/// The program and arguments that open an interactive session for a record.
/// With a key and a passphrase, the helper supplies the passphrase at the key
/// prompt; with a password and no key, the helper supplies the password;
/// otherwise the client runs alone.
pub open spec fn launch_spec(c: ConnectionView) -> (Seq<char>, Seq<Seq<char>>) {
    if c.key_path.is_some() && c.key_passphrase.is_some() {
        (
            helper_program(),
            seq!["-P"@, passphrase_prompt(), "-p"@, c.key_passphrase.unwrap(), client_program()]
                + client_args(c),
        )
    } else if c.key_path.is_none() && c.password.is_some() {
        (helper_program(), seq!["-p"@, c.password.unwrap(), client_program()] + client_args(c))
    } else {
        (client_program(), client_args(c))
    }
}

/// The views of a sequence of strings.
pub open spec fn texts(v: Seq<String>) -> Seq<Seq<char>> {
    v.map_values(|s: String| s@)
}

/// Pushes a copy of `s` onto `v`.
fn push_str(v: &mut Vec<String>, s: &str)
    ensures
        texts(final(v)@) == texts(old(v)@).push(s@),
{
    let ghost before = v@;
    v.push(String::from_str(s));
    assert(texts(v@) =~= texts(before).push(s@));
}

impl SshConnection {
    /// The client's arguments for this record, by `client_args`.
    fn client_arguments(&self, args: &mut Vec<String>)
        ensures
            texts(final(args)@) == texts(old(args)@) + client_args(self@),
    {
        let ghost start = texts(args@);
        if self.port != DEFAULT_PORT {
            push_str(args, "-p");
            let p = decimal_string(self.port as u64);
            push_str(args, p.as_str());
        }
        let ghost mid = texts(args@);
        match &self.key_path {
            Some(k) => {
                push_str(args, "-i");
                push_str(args, k.as_str());
            },
            None => {},
        }
        let ghost after_key = texts(args@);
        let at = concat_text(self.username.as_str(), "@");
        let target = concat_text(at.as_str(), self.host.as_str());
        push_str(args, target.as_str());
        assert(texts(args@) =~= start + client_args(self@)) by {
            let c = self@;
            let port_args = if c.port != DEFAULT_PORT {
                seq!["-p"@, decimal_text(c.port as nat)]
            } else {
                Seq::<Seq<char>>::empty()
            };
            let key_args = match c.key_path {
                Some(k) => seq!["-i"@, k],
                None => Seq::<Seq<char>>::empty(),
            };
            assert(mid =~= start + port_args);
            assert(after_key =~= start + port_args + key_args);
        }
    }

    /// The program and arguments that open an interactive session, by `launch_spec`.
    pub fn launch_command(&self) -> (r: LaunchCommand)
        ensures
            r.program@ == launch_spec(self@).0,
            texts(r.args@) == launch_spec(self@).1,
    {
        let mut args: Vec<String> = Vec::new();
        let program: String;
        if self.key_path.is_some() && self.key_passphrase.is_some() {
            program = String::from_str("sshpass");
            push_str(&mut args, "-P");
            push_str(&mut args, "Enter passphrase for key");
            push_str(&mut args, "-p");
            match &self.key_passphrase {
                Some(p) => push_str(&mut args, p.as_str()),
                None => {},
            }
            push_str(&mut args, "ssh");
        } else if self.key_path.is_none() && self.password.is_some() {
            program = String::from_str("sshpass");
            push_str(&mut args, "-p");
            match &self.password {
                Some(p) => push_str(&mut args, p.as_str()),
                None => {},
            }
            push_str(&mut args, "ssh");
        } else {
            program = String::from_str("ssh");
        }
        let ghost head = texts(args@);
        self.client_arguments(&mut args);
        proof {
            let c = self@;
            if c.key_path.is_some() && c.key_passphrase.is_some() {
                assert(head =~= seq!["-P"@, passphrase_prompt(), "-p"@, c.key_passphrase.unwrap(), client_program()]);
            } else if c.key_path.is_none() && c.password.is_some() {
                assert(head =~= seq!["-p"@, c.password.unwrap(), client_program()]);
            } else {
                assert(head =~= Seq::<Seq<char>>::empty());
            }
        }
        LaunchCommand { program, args }
    }
}

} // verus!
