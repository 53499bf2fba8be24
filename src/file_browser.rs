//! A directory browser for picking key files and key folders. The directory
//! listing itself is read by the caller and handed in as plain values.
use vstd::prelude::*;
use crate::connection::opt_view;
use crate::text::{contains_text, ends_with_text, seq_contains, seq_ends_with};

verus! {

/// What a browser entry stands for.
#[derive(Debug, Clone, Copy, PartialEq, Eq, Structural)]
pub enum EntryKind {
    /// The directory being shown.
    Current,
    /// One level up.
    Parent,
    /// A subdirectory.
    Dir,
    /// A regular file.
    File,
}

/// One row of the browser.
#[derive(Debug)]
pub struct BrowserEntry {
    pub kind: EntryKind,
    pub path: String,
    pub name: String,
}

/// One entry of a directory listing, as read from the filesystem.
#[derive(Debug)]
pub struct ListedItem {
    pub path: String,
    /// The final component of the path.
    pub name: String,
    pub is_dir: bool,
    pub is_file: bool,
}

/// The browser's state: the directory shown, its entries, and the cursor.
#[derive(Debug)]
pub struct FileBrowser {
    pub current_path: String,
    pub entries: Vec<BrowserEntry>,
    pub selected: usize,
}

/// The parent directory of a path, by the path's text alone.
pub uninterp spec fn parent_of(p: Seq<char>) -> Option<Seq<char>>;

/// Relies on `std::path::Path::parent`: the parent is found from the path's
/// components, without touching the filesystem.
#[verifier::external_body]
fn parent_dir(p: &str) -> (r: Option<String>)
    ensures
        opt_view(r) == parent_of(p@),
{
    match std::path::Path::new(p).parent() {
        Some(q) => Some(q.to_string_lossy().into_owned()),
        None => None,
    }
}

// ---------------------------------------------------------------------------
// Ordering of entries
// ---------------------------------------------------------------------------

/// Strict lexicographic order on character sequences.
pub open spec fn text_lt(a: Seq<char>, b: Seq<char>) -> bool
    decreases a.len(),
{
    if a.len() == 0 {
        b.len() > 0
    } else if b.len() == 0 {
        false
    } else if a[0] != b[0] {
        a[0] < b[0]
    } else {
        text_lt(a.drop_first(), b.drop_first())
    }
}

/// Lexicographic order on character sequences.
pub open spec fn text_le(a: Seq<char>, b: Seq<char>) -> bool {
    a == b || text_lt(a, b)
}

/// The order of ordinary entries: directories before files, then by name.
pub open spec fn entry_le(a: BrowserEntry, b: BrowserEntry) -> bool {
    (a.kind == EntryKind::Dir && b.kind == EntryKind::File) || (a.kind == b.kind && text_le(
        a.name@,
        b.name@,
    ))
}

/// An ordinary entry: a subdirectory or a file.
pub open spec fn is_child(e: BrowserEntry) -> bool {
    e.kind == EntryKind::Dir || e.kind == EntryKind::File
}

/// `s[from..]` holds ordinary entries in `entry_le` order.
pub open spec fn sorted_from(s: Seq<BrowserEntry>, from: int) -> bool {
    &&& forall|i: int| from <= i < s.len() ==> is_child(#[trigger] s[i])
    &&& forall|i: int, j: int| from <= i < j < s.len() ==> entry_le(#[trigger] s[i], #[trigger] s[j])
}

proof fn lemma_text_lt_transitive(a: Seq<char>, b: Seq<char>, c: Seq<char>)
    requires
        text_lt(a, b),
        text_lt(b, c),
    ensures
        text_lt(a, c),
    decreases a.len(),
{
    if a.len() > 0 && b.len() > 0 && c.len() > 0 && a[0] == b[0] && b[0] == c[0] {
        lemma_text_lt_transitive(a.drop_first(), b.drop_first(), c.drop_first());
    }
}

proof fn lemma_text_lt_total(a: Seq<char>, b: Seq<char>)
    requires
        a != b,
    ensures
        text_lt(a, b) || text_lt(b, a),
    decreases a.len(),
{
    if a.len() > 0 && b.len() > 0 && a[0] == b[0] {
        if a.drop_first() == b.drop_first() {
            assert(a =~= seq![a[0]] + a.drop_first());
            assert(b =~= seq![b[0]] + b.drop_first());
        }
        lemma_text_lt_total(a.drop_first(), b.drop_first());
    } else if a.len() == 0 && b.len() == 0 {
        assert(a =~= b);
    }
}

proof fn lemma_text_lt_asymmetric(a: Seq<char>, b: Seq<char>)
    requires
        text_lt(a, b),
    ensures
        !text_lt(b, a),
    decreases a.len(),
{
    if a.len() > 0 && b.len() > 0 && a[0] == b[0] {
        lemma_text_lt_asymmetric(a.drop_first(), b.drop_first());
    }
}

proof fn lemma_entry_le_transitive(a: BrowserEntry, b: BrowserEntry, c: BrowserEntry)
    requires
        is_child(a),
        is_child(b),
        is_child(c),
        entry_le(a, b),
        entry_le(b, c),
    ensures
        entry_le(a, c),
{
    if a.kind == b.kind && b.kind == c.kind {
        if text_lt(a.name@, b.name@) && text_lt(b.name@, c.name@) {
            lemma_text_lt_transitive(a.name@, b.name@, c.name@);
        }
    }
}

proof fn lemma_entry_le_total(a: BrowserEntry, b: BrowserEntry)
    requires
        is_child(a),
        is_child(b),
        !entry_le(a, b),
    ensures
        entry_le(b, a),
{
    if a.kind == b.kind {
        lemma_text_lt_total(a.name@, b.name@);
    }
}

/// Compares two names in `text_le` order.
fn name_le(a: &str, b: &str) -> (r: bool)
    ensures
        r == text_le(a@, b@),
{
    let x = crate::text::chars_of(a);
    let y = crate::text::chars_of(b);
    let mut i: usize = 0;
    while i < x.len() && i < y.len() && x[i] == y[i]
        invariant
            x@ == a@,
            y@ == b@,
            i <= x@.len(),
            i <= y@.len(),
            x@.subrange(0, i as int) == y@.subrange(0, i as int),
        decreases x@.len() - i,
    {
        i += 1;
        assert(x@.subrange(0, i as int) =~= y@.subrange(0, i as int - 1).push(y@[i - 1]));
    }
    proof {
        lemma_text_lt_suffix(x@, y@, i as int);
    }
    if i == x.len() {
        if i == y.len() {
            assert(x@.subrange(0, i as int) =~= x@);
            assert(y@.subrange(0, i as int) =~= y@);
        }
        true
    } else if i == y.len() {
        proof {
            lemma_text_lt_asymmetric(y@, x@);
        }
        false
    } else {
        proof {
            if x@[i as int] > y@[i as int] {
                lemma_text_lt_asymmetric(y@, x@);
            }
        }
        x[i] < y[i]
    }
}

/// Sequences that agree on their first `i` characters compare as their rests do.
proof fn lemma_text_lt_suffix(a: Seq<char>, b: Seq<char>, i: int)
    requires
        0 <= i <= a.len(),
        i <= b.len(),
        a.subrange(0, i) == b.subrange(0, i),
    ensures
        text_lt(a, b) == text_lt(a.subrange(i, a.len() as int), b.subrange(i, b.len() as int)),
        text_lt(b, a) == text_lt(b.subrange(i, b.len() as int), a.subrange(i, a.len() as int)),
    decreases i,
{
    if i > 0 {
        assert(a[0] == a.subrange(0, i)[0]);
        assert(b[0] == b.subrange(0, i)[0]);
        assert(a.drop_first().subrange(0, i - 1) =~= b.drop_first().subrange(0, i - 1)) by {
            assert forall|k: int| 0 <= k < i - 1 implies #[trigger] a.drop_first().subrange(0, i - 1)[k]
                == b.drop_first().subrange(0, i - 1)[k] by {
                assert(a.drop_first().subrange(0, i - 1)[k] == a[k + 1]);
                assert(b.drop_first().subrange(0, i - 1)[k] == b[k + 1]);
                assert(a.subrange(0, i)[k + 1] == a[k + 1]);
                assert(b.subrange(0, i)[k + 1] == b[k + 1]);
                assert(a.subrange(0, i)[k + 1] == b.subrange(0, i)[k + 1]);
            }
        }
        lemma_text_lt_suffix(a.drop_first(), b.drop_first(), i - 1);
        assert(a.drop_first().subrange(i - 1, a.len() - 1) =~= a.subrange(i, a.len() as int));
        assert(b.drop_first().subrange(i - 1, b.len() - 1) =~= b.subrange(i, b.len() as int));
    } else {
        assert(a.subrange(0, a.len() as int) =~= a);
        assert(b.subrange(0, b.len() as int) =~= b);
    }
}

/// Compares two ordinary entries by `entry_le`.
fn entry_le_exec(a: &BrowserEntry, b: &BrowserEntry) -> (r: bool)
    ensures
        r == entry_le(*a, *b),
{
    if a.kind == EntryKind::Dir && b.kind == EntryKind::File {
        true
    } else if a.kind == b.kind {
        name_le(a.name.as_str(), b.name.as_str())
    } else {
        false
    }
}

// ---------------------------------------------------------------------------
// The browser
// ---------------------------------------------------------------------------

/// The entry that a listed item becomes, if it is a directory or a regular file.
pub open spec fn entry_of(item: ListedItem) -> BrowserEntry {
    BrowserEntry {
        kind: if item.is_dir { EntryKind::Dir } else { EntryKind::File },
        path: item.path,
        name: item.name,
    }
}

/// A listed item that the browser shows: a directory or a regular file.
pub open spec fn is_shown(item: ListedItem) -> bool {
    item.is_dir || item.is_file
}

/// The ordinary entries that a listing gives, before ordering.
pub open spec fn children_of(listing: Seq<ListedItem>) -> Seq<BrowserEntry> {
    listing.filter(|i: ListedItem| is_shown(i)).map_values(|i: ListedItem| entry_of(i))
}

/// A file name that may hold a private key: it names no host list, key list
/// or client configuration, and is no public key.
pub open spec fn acceptable_key_name(name: Seq<char>) -> bool {
    &&& !seq_contains(name, "known_hosts"@)
    &&& !seq_contains(name, "authorized_keys"@)
    &&& !seq_contains(name, "config"@)
    &&& !seq_ends_with(name, ".pub"@)
}

/// Whether a path with this file name and kind may be offered as a private key.
pub fn is_key_file(is_file: bool, name: &str) -> (r: bool)
    ensures
        r == (is_file && acceptable_key_name(name@)),
{
    is_file && !contains_text(name, "known_hosts") && !contains_text(name, "authorized_keys")
        && !contains_text(name, "config") && !ends_with_text(name, ".pub")
}

impl FileBrowser {
    /// The number of pseudo-entries (self, and parent if there is one) at the front.
    pub open spec fn special_count(&self) -> int {
        if parent_of(self.current_path@) is Some {
            2
        } else {
            1
        }
    }

    /// The entries begin with the self-entry, then the parent-entry exactly when
    /// the directory has a parent, then ordinary entries, directories before
    /// files and each group by name; the cursor is on an entry.
    pub open spec fn wf(&self) -> bool {
        let e = self.entries@;
        &&& e.len() >= self.special_count()
        &&& e[0].kind == EntryKind::Current
        &&& e[0].path@ == self.current_path@
        &&& (parent_of(self.current_path@) is Some ==> e[1].kind == EntryKind::Parent
            && Some(e[1].path@) == parent_of(self.current_path@))
        &&& sorted_from(e, self.special_count())
        &&& self.selected < e.len()
    }

    /// The ordinary entries, in order.
    pub open spec fn children(&self) -> Seq<BrowserEntry> {
        self.entries@.subrange(self.special_count(), self.entries@.len() as int)
    }

    /// A browser on `start_path` whose listing is not read yet: only the
    /// pseudo-entries, cursor on the first.
    pub fn new(start_path: String) -> (r: FileBrowser)
        ensures
            r.wf(),
            r.current_path@ == start_path@,
            r.children().len() == 0,
            r.selected == 0,
    {
        let entries = special_entries(&start_path);
        FileBrowser { current_path: start_path, entries, selected: 0 }
    }

    /// Rebuilds the entries from a listing of the current directory: the
    /// pseudo-entries, then the listed directories and regular files in order;
    /// the cursor goes back to the first entry.
    pub fn refresh_entries(&mut self, listing: Vec<ListedItem>)
        ensures
            final(self).wf(),
            final(self).current_path == old(self).current_path,
            final(self).selected == 0,
            final(self).children().to_multiset() == children_of(listing@).to_multiset(),
    {
        let mut entries = special_entries(&self.current_path);
        let start: usize = entries.len();
        let mut i: usize = 0;
        let mut seen = Ghost(listing@.subrange(0, 0));
        proof {
            assert(entries@.subrange(start as int, entries@.len() as int) =~= Seq::<BrowserEntry>::empty());
            assert(children_of(seen@) =~= Seq::<BrowserEntry>::empty());
        }
        while i < listing.len()
            invariant
                i <= listing@.len(),
                start == (if parent_of(self.current_path@) is Some { 2int } else { 1 }),
                entries@.len() >= start,
                entries@[0].kind == EntryKind::Current,
                entries@[0].path@ == self.current_path@,
                parent_of(self.current_path@) is Some ==> entries@[1].kind == EntryKind::Parent
                    && Some(entries@[1].path@) == parent_of(self.current_path@),
                sorted_from(entries@, start as int),
                seen@ == listing@.subrange(0, i as int),
                entries@.subrange(start as int, entries@.len() as int).to_multiset() == children_of(
                    seen@,
                ).to_multiset(),
            decreases listing@.len() - i,
        {
            let item = &listing[i];
            let ghost prev_seen = seen@;
            proof {
                seen@ = listing@.subrange(0, i as int + 1);
                assert(seen@ =~= prev_seen.push(listing@[i as int]));
                lemma_children_push(prev_seen, listing@[i as int]);
            }
            if item.is_dir || item.is_file {
                let e = BrowserEntry {
                    kind: if item.is_dir { EntryKind::Dir } else { EntryKind::File },
                    path: item.path.clone(),
                    name: item.name.clone(),
                };
                assert(e == entry_of(listing@[i as int]));
                let ghost before = entries@;
                insert_sorted(&mut entries, start, e);
                proof {
                    broadcast use vstd::seq_lib::group_to_multiset_ensures;
                    assert(children_of(prev_seen).push(e).to_multiset() == children_of(prev_seen).to_multiset().insert(e));
                }
            }
            i += 1;
        }
        proof {
            assert(seen@ =~= listing@);
        }
        self.entries = entries;
        self.selected = 0;
    }
}

impl FileBrowser {
    /// Opens the selected entry when it is a directory: the parent-entry opens the
    /// parent directory, the self-entry or a subdirectory opens that directory.
    /// The new directory's listing is not read yet: only its pseudo-entries are
    /// shown, cursor on the first. A file entry changes nothing.
    pub fn enter_directory(&mut self) -> (r: bool)
        requires
            old(self).wf(),
        ensures
            final(self).wf(),
            r == (old(self).entries@[old(self).selected as int].kind != EntryKind::File),
            r ==> {
                let target = old(self).entries@[old(self).selected as int].path@;
                &&& final(self).current_path@ == target
                &&& final(self).children().len() == 0
                &&& final(self).selected == 0
            },
            !r ==> *final(self) == *old(self),
    {
        let e = &self.entries[self.selected];
        if e.kind == EntryKind::File {
            return false;
        }
        let target = e.path.clone();
        let entries = special_entries(&target);
        self.current_path = target;
        self.entries = entries;
        self.selected = 0;
        true
    }

    /// Moves the cursor one entry up, stopping at the first.
    pub fn move_up(&mut self)
        requires
            old(self).wf(),
        ensures
            final(self).wf(),
            *final(self) == (FileBrowser {
                selected: if old(self).selected > 0 {
                    (old(self).selected - 1) as usize
                } else {
                    0
                },
                ..*old(self)
            }),
    {
        if self.selected > 0 {
            self.selected -= 1;
        }
    }

    /// Moves the cursor one entry down, stopping at the last.
    pub fn move_down(&mut self)
        requires
            old(self).wf(),
        ensures
            final(self).wf(),
            *final(self) == (FileBrowser {
                selected: if old(self).selected + 1 < old(self).entries@.len() {
                    (old(self).selected + 1) as usize
                } else {
                    old(self).selected
                },
                ..*old(self)
            }),
    {
        if self.selected < self.entries.len() - 1 {
            self.selected += 1;
        }
    }

    /// The path of the entry under the cursor.
    pub fn get_selected_path(&self) -> (r: Option<String>)
        ensures
            opt_view(r) == if self.selected < self.entries@.len() {
                Some(self.entries@[self.selected as int].path@)
            } else {
                None
            },
    {
        if self.selected < self.entries.len() {
            Some(self.entries[self.selected].path.clone())
        } else {
            None
        }
    }

    /// Whether a listed path may be offered as a private key: a regular file
    /// whose name passes `acceptable_key_name`.
    pub fn is_valid_ssh_key(&self, item: &ListedItem) -> (r: bool)
        ensures
            r == (item.is_file && acceptable_key_name(item.name@)),
    {
        is_key_file(item.is_file, item.name.as_str())
    }

    /// The text shown for an entry: "." for the self-entry, ".." for the
    /// parent-entry, else its name.
    pub fn get_display_name(&self, entry: &BrowserEntry) -> (r: String)
        ensures
            r@ == match entry.kind {
                EntryKind::Current => "."@,
                EntryKind::Parent => ".."@,
                _ => entry.name@,
            },
    {
        match entry.kind {
            EntryKind::Current => String::from_str("."),
            EntryKind::Parent => String::from_str(".."),
            _ => entry.name.clone(),
        }
    }
}

/// In every well-formed browser the entries begin with the self-entry, hold
/// a parent-entry exactly when the directory has a parent, and list no file
/// before a directory among the ordinary entries.
pub proof fn lemma_browser_entry_order(b: FileBrowser)
    requires
        b.wf(),
    ensures
        b.entries@[0].kind == EntryKind::Current,
        b.entries@[0].path@ == b.current_path@,
        (exists|i: int| 0 <= i < b.entries@.len() && #[trigger] b.entries@[i].kind == EntryKind::Parent)
            <==> parent_of(b.current_path@) is Some,
        forall|i: int, j: int|
            b.special_count() <= i < j < b.entries@.len() && #[trigger] b.entries@[i].kind
                == EntryKind::File ==> #[trigger] b.entries@[j].kind == EntryKind::File,
{
    let e = b.entries@;
    let k = b.special_count();
    if parent_of(b.current_path@) is Some {
        assert(e[1].kind == EntryKind::Parent);
    } else {
        assert forall|i: int| 0 <= i < e.len() implies #[trigger] e[i].kind != EntryKind::Parent by {
            if i >= 1 {
                assert(is_child(e[i]));
            }
        }
    }
    assert forall|i: int, j: int|
        k <= i < j < e.len() && #[trigger] e[i].kind == EntryKind::File implies #[trigger] e[j].kind
        == EntryKind::File by {
        assert(entry_le(e[i], e[j]));
        assert(is_child(e[j]));
    }
}

/// The children of a listing grow by the entry of an appended shown item.
proof fn lemma_children_push(s: Seq<ListedItem>, x: ListedItem)
    ensures
        children_of(s.push(x)) == if is_shown(x) {
            children_of(s).push(entry_of(x))
        } else {
            children_of(s)
        },
{
    let p = |i: ListedItem| is_shown(i);
    s.lemma_filter_push(x, p);
    if is_shown(x) {
        assert(s.push(x).filter(p) == s.filter(p).push(x));
        assert(children_of(s.push(x)) =~= children_of(s).push(entry_of(x)));
    } else {
        assert(s.push(x).filter(p) == s.filter(p));
    }
}

/// The pseudo-entries for a directory: itself, then its parent if it has one.
fn special_entries(path: &String) -> (r: Vec<BrowserEntry>)
    ensures
        r@.len() == (if parent_of(path@) is Some { 2int } else { 1 }),
        r@[0].kind == EntryKind::Current,
        r@[0].path@ == path@,
        parent_of(path@) is Some ==> r@[1].kind == EntryKind::Parent && Some(r@[1].path@)
            == parent_of(path@),
{
    let mut r: Vec<BrowserEntry> = Vec::new();
    r.push(
        BrowserEntry {
            kind: EntryKind::Current,
            path: path.clone(),
            name: String::from_str("."),
        },
    );
    match parent_dir(path.as_str()) {
        Some(p) => {
            r.push(BrowserEntry { kind: EntryKind::Parent, path: p, name: String::from_str("..") });
        },
        None => {},
    }
    r
}

/// Inserts an ordinary entry into `v[start..]`, keeping that part in order.
fn insert_sorted(v: &mut Vec<BrowserEntry>, start: usize, e: BrowserEntry)
    requires
        start <= old(v)@.len(),
        sorted_from(old(v)@, start as int),
        is_child(e),
    ensures
        final(v)@.len() == old(v)@.len() + 1,
        forall|k: int| 0 <= k < start ==> final(v)@[k] == old(v)@[k],
        sorted_from(final(v)@, start as int),
        ({
            let before = old(v)@.subrange(start as int, old(v)@.len() as int);
            final(v)@.subrange(start as int, final(v)@.len() as int).to_multiset()
                == before.to_multiset().insert(e)
        }),
{
    let n = v.len();
    let mut pos: usize = start;
    while pos < n && entry_le_exec(&v[pos], &e)
        invariant
            n == v@.len(),
            v@ == old(v)@,
            start <= pos <= n,
            forall|m: int| start <= m < pos ==> entry_le(#[trigger] v@[m], e),
        decreases n - pos,
    {
        pos += 1;
    }
    let ghost old_v = v@;
    proof {
        if pos < n {
            lemma_entry_le_total(old_v[pos as int], e);
        }
    }
    v.insert(pos, e);
    proof {
        let ins = pos as int;
        let st = start as int;
        let nv = v@;
        old_v.insert_ensures(ins, e);
        assert forall|a: int, b: int| st <= a < b < nv.len() implies entry_le(
            #[trigger] nv[a],
            #[trigger] nv[b],
        ) by {
            if b < ins {
            } else if a < ins && b == ins {
            } else if a < ins && b > ins {
                assert(nv[b] == old_v[b - 1]);
                if b - 1 > ins {
                    lemma_entry_le_transitive(e, old_v[ins], old_v[b - 1]);
                }
                lemma_entry_le_transitive(old_v[a], e, old_v[b - 1]);
            } else if a == ins {
                assert(nv[b] == old_v[b - 1]);
                if b - 1 > ins {
                    lemma_entry_le_transitive(e, old_v[ins], old_v[b - 1]);
                }
            } else {
                assert(nv[a] == old_v[a - 1]);
                assert(nv[b] == old_v[b - 1]);
            }
        }
        assert forall|a: int| st <= a < nv.len() implies is_child(#[trigger] nv[a]) by {
            if a > ins {
                assert(nv[a] == old_v[a - 1]);
            }
        }
        let tail_old = old_v.subrange(st, old_v.len() as int);
        let tail_new = nv.subrange(st, nv.len() as int);
        assert(tail_new =~= tail_old.insert(ins - st, e));
        lemma_insert_multiset(tail_old, ins - st, e);
    }
}

/// Inserting an element anywhere adds it to the multiset.
proof fn lemma_insert_multiset<A>(s: Seq<A>, i: int, x: A)
    requires
        0 <= i <= s.len(),
    ensures
        s.insert(i, x).to_multiset() == s.to_multiset().insert(x),
{
    broadcast use vstd::seq_lib::group_to_multiset_ensures;
    let t = s.insert(i, x);
    assert(t.remove(i) =~= s);
    assert(t[i] == x);
    assert(t.to_multiset().remove(x) == s.to_multiset());
    assert(t.contains(x));
    assert(t.to_multiset().count(x) > 0);
    assert(t.to_multiset() =~= s.to_multiset().insert(x));
}

} // verus!
