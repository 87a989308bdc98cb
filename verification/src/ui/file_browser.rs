//! The file browser: which directories are unfolded, and how one is listed.

use crate::text::{begins_with, ends_with, finishes_with, join3, owned, same_text, starts_with};
use vstd::prelude::*;
use vstd::string::*;

verus! {

// ── Listing a directory ─────────────────────────────────────────────────────

/// Something in a directory.
#[derive(Debug, Clone, PartialEq, Eq)]
pub struct DirEntry {
    pub path: String,
    /// The bytes of its name, by which it is sorted.
    pub sort_key: Vec<u8>,
    /// Its name, as it is shown.
    pub name: String,
    pub is_dir: bool,
}

/// Whether a byte string comes before another, byte by byte.
pub open spec fn bytes_less(a: Seq<u8>, b: Seq<u8>) -> bool
    decreases a.len(),
{
    if b.len() == 0 {
        false
    } else if a.len() == 0 {
        true
    } else if a[0] != b[0] {
        a[0] < b[0]
    } else {
        bytes_less(a.drop_first(), b.drop_first())
    }
}

/// Whether an entry is listed before another: directories first, then by
/// name.
pub open spec fn comes_before(a: DirEntry, b: DirEntry) -> bool {
    if a.is_dir != b.is_dir {
        a.is_dir
    } else {
        bytes_less(a.sort_key@, b.sort_key@)
    }
}

/// A sorted list with one more entry, behind those that it does not come
/// before.
pub open spec fn inserted(list: Seq<DirEntry>, entry: DirEntry) -> Seq<DirEntry>
    decreases list.len(),
{
    if list.len() > 0 && comes_before(entry, list.last()) {
        inserted(list.drop_last(), entry).push(list.last())
    } else {
        list.push(entry)
    }
}

/// Entries in the order in which they are listed. Those that are alike keep
/// theirs.
pub open spec fn sorted(entries: Seq<DirEntry>) -> Seq<DirEntry>
    decreases entries.len(),
{
    if entries.len() == 0 {
        Seq::empty()
    } else {
        inserted(sorted(entries.drop_last()), entries.last())
    }
}

/// Whether an entry is shown: hidden files and build output are not.
pub open spec fn is_visible(name: Seq<char>) -> bool {
    !begins_with(name, "."@) && name != "target"@
}

/// The entries that are shown.
pub open spec fn visible(entries: Seq<DirEntry>) -> Seq<DirEntry>
    decreases entries.len(),
{
    if entries.len() == 0 {
        Seq::empty()
    } else if is_visible(entries.last().name@) {
        visible(entries.drop_last()).push(entries.last())
    } else {
        visible(entries.drop_last())
    }
}

fn less(a: &Vec<u8>, b: &Vec<u8>) -> (r: bool)
    ensures
        r == bytes_less(a@, b@),
{
    let mut i: usize = 0;
    assert(a@.skip(0) =~= a@);
    assert(b@.skip(0) =~= b@);
    while i < a.len() && i < b.len() && a[i] == b[i]
        invariant
            i <= a.len(),
            i <= b.len(),
            bytes_less(a@, b@) == bytes_less(a@.skip(i as int), b@.skip(i as int)),
        decreases a.len() - i,
    {
        assert(a@.skip(i as int).drop_first() =~= a@.skip(i + 1));
        assert(b@.skip(i as int).drop_first() =~= b@.skip(i + 1));
        i = i + 1;
    }
    if i >= b.len() {
        false
    } else if i >= a.len() {
        true
    } else {
        a[i] < b[i]
    }
}

fn is_before(a: &DirEntry, b: &DirEntry) -> (r: bool)
    ensures
        r == comes_before(*a, *b),
{
    if a.is_dir != b.is_dir {
        a.is_dir
    } else {
        less(&a.sort_key, &b.sort_key)
    }
}

fn insert_entry(list: &mut Vec<DirEntry>, entry: DirEntry)
    ensures
        final(list)@ == inserted(old(list)@, entry),
{
    let mut at: usize = list.len();
    assert(list@.take(at as int) =~= list@);
    assert(list@.skip(at as int) =~= Seq::empty());
    assert(inserted(list@, entry) + list@.skip(at as int) =~= inserted(list@, entry));
    while at > 0 && is_before(&entry, &list[at - 1])
        invariant
            at <= list@.len(),
            list@ == old(list)@,
            inserted(list@, entry) == inserted(list@.take(at as int), entry) + list@.skip(
                at as int,
            ),
        decreases at,
    {
        proof {
            let head = list@.take(at as int);
            assert(head.drop_last() =~= list@.take(at - 1));
            assert(head.last() == list@[at - 1]);
            assert(inserted(list@.take(at - 1), entry).push(head.last()) + list@.skip(at as int)
                =~= inserted(list@.take(at - 1), entry) + list@.skip(at - 1));
        }
        at = at - 1;
    }
    proof {
        let head = list@.take(at as int);
        if at > 0 {
            assert(head.last() == list@[at - 1]);
        }
        assert(head.push(entry) + list@.skip(at as int) =~= list@.insert(at as int, entry));
    }
    list.insert(at, entry);
}

/// The entries of a directory as they are listed: directories first, each
/// kind by name, and without what is not shown.
pub fn list_entries(entries: Vec<DirEntry>) -> (r: Vec<DirEntry>)
    ensures
        r@ == visible(sorted(entries@)),
{
    let mut rest: Vec<DirEntry> = entries;
    let ghost all = rest@;
    let mut reversed: Vec<DirEntry> = Vec::new();
    assert(all.skip(all.len() as int).reverse() =~= Seq::empty());
    loop
        invariant
            rest@.len() <= all.len(),
            rest@ == all.take(rest@.len() as int),
            reversed@ == all.skip(rest@.len() as int).reverse(),
        ensures
            reversed@ == all.reverse(),
        decreases rest.len(),
    {
        let ghost n = rest@.len() as int;
        match rest.pop() {
            Some(entry) => {
                reversed.push(entry);
                assert(rest@ =~= all.take(n - 1));
                assert(reversed@ =~= all.skip(n - 1).reverse());
            },
            None => {
                assert(all.skip(0) =~= all);
                break;
            },
        }
    }
    let mut list: Vec<DirEntry> = Vec::new();
    let ghost mut done: int = 0;
    assert(all.take(0) =~= Seq::empty());
    loop
        invariant
            0 <= done <= all.len(),
            reversed@ == all.skip(done).reverse(),
            list@ == sorted(all.take(done)),
        ensures
            list@ == sorted(all),
        decreases reversed.len(),
    {
        match reversed.pop() {
            Some(entry) => {
                proof {
                    assert(entry == all[done]);
                    assert(all.take(done + 1).drop_last() =~= all.take(done));
                    assert(all.take(done + 1).last() == all[done]);
                    assert(reversed@ =~= all.skip(done + 1).reverse());
                }
                insert_entry(&mut list, entry);
                proof {
                    done = done + 1;
                }
            },
            None => {
                assert(all.take(done) =~= all);
                break;
            },
        }
    }
    keep_visible(list)
}

fn keep_visible(list: Vec<DirEntry>) -> (r: Vec<DirEntry>)
    ensures
        r@ == visible(list@),
{
    let mut rest: Vec<DirEntry> = list;
    let ghost all = rest@;
    let mut at: usize = 0;
    assert(all.take(0) =~= Seq::empty());
    assert(visible(all.take(0)) + all.skip(0) =~= all);
    let ghost mut seen: int = 0;
    while at < rest.len()
        invariant
            0 <= seen <= all.len(),
            at == visible(all.take(seen)).len(),
            rest@ == visible(all.take(seen)) + all.skip(seen),
        decreases rest.len() - at,
    {
        let ghost kept = visible(all.take(seen));
        proof {
            assert(rest@[at as int] == all[seen]);
            assert(all.take(seen + 1).drop_last() =~= all.take(seen));
            assert(all.take(seen + 1).last() == all[seen]);
        }
        let shown: bool = !starts_with(rest[at].name.as_str(), ".") && !same_text(
            rest[at].name.as_str(),
            "target",
        );
        if shown {
            at = at + 1;
            assert(kept.push(all[seen]) + all.skip(seen + 1) =~= rest@);
        } else {
            let _ = rest.remove(at);
            assert(kept + all.skip(seen + 1) =~= rest@);
        }
        proof {
            seen = seen + 1;
        }
    }
    proof {
        assert(seen == all.len()) by {
            if seen < all.len() {
                assert(rest@.len() > at);
            }
        }
        assert(all.take(seen) =~= all);
        assert(visible(all) + all.skip(seen) =~= visible(all));
    }
    rest
}

/// The icon of a file, by the end of its name.
pub open spec fn icon_of(name: Seq<char>) -> Seq<char> {
    if finishes_with(name, ".rs"@) {
        "🦀"@
    } else if finishes_with(name, ".toml"@) {
        "⚙"@
    } else if finishes_with(name, ".md"@) {
        "📝"@
    } else if finishes_with(name, ".lock"@) {
        "🔒"@
    } else {
        "📄"@
    }
}

/// The icon of a file, by the end of its name.
pub fn file_icon(filename: &str) -> (r: &'static str)
    ensures
        r@ == icon_of(filename@),
{
    if ends_with(filename, ".rs") {
        "🦀"
    } else if ends_with(filename, ".toml") {
        "⚙"
    } else if ends_with(filename, ".md") {
        "📝"
    } else if ends_with(filename, ".lock") {
        "🔒"
    } else {
        "📄"
    }
}

// ── What is shown ───────────────────────────────────────────────────────────

/// An entry, with what was read of its own entries where it is unfolded.
#[derive(Debug)]
pub struct DirNode {
    pub entry: DirEntry,
    pub inside: Vec<DirNode>,
}

/// What a directory's nodes are before any of them is looked into: its
/// entries as they are listed, or nothing where it could not be read.
pub fn read_directory(read: Option<Vec<DirEntry>>) -> (r: Vec<DirNode>)
    ensures
        r@.map_values(|node: DirNode| node.entry) == (match read {
            Some(entries) => visible(sorted(entries@)),
            None => Seq::empty(),
        }),
        forall|i: int| 0 <= i < r@.len() ==> (#[trigger] r@[i]).inside@.len() == 0,
{
    let ghost entry_of = |node: DirNode| node.entry;
    let mut nodes: Vec<DirNode> = Vec::new();
    let mut rest: Vec<DirEntry> = match read {
        Some(entries) => list_entries(entries),
        None => Vec::new(),
    };
    let ghost all = rest@;
    assert(nodes@.map_values(entry_of) =~= all.take(0));
    while rest.len() > 0
        invariant
            entry_of == (|node: DirNode| node.entry),
            nodes@.len() <= all.len(),
            rest@ == all.skip(nodes@.len() as int),
            nodes@.map_values(entry_of) == all.take(nodes@.len() as int),
            forall|i: int| 0 <= i < nodes@.len() ==> (#[trigger] nodes@[i]).inside@.len() == 0,
        decreases rest.len(),
    {
        let ghost n = nodes@.len() as int;
        let entry: DirEntry = rest.remove(0);
        nodes.push(DirNode { entry, inside: Vec::new() });
        assert(rest@ =~= all.skip(n + 1));
        assert(nodes@.map_values(entry_of) =~= all.take(n + 1));
    }
    assert(all.take(all.len() as int) =~= all);
    nodes
}

/// A row of the browser, or a step into or out of a directory.
#[derive(Debug, Clone, PartialEq, Eq)]
pub enum BrowserRow<'a> {
    Entry { entry: &'a DirEntry, label: String },
    Enter,
    Leave,
}

/// A row as contracts speak of it.
pub enum ShownRow {
    Entry { entry: DirEntry, text: Seq<char> },
    Enter,
    Leave,
}

impl<'a> View for BrowserRow<'a> {
    type V = ShownRow;

    open spec fn view(&self) -> ShownRow {
        match *self {
            BrowserRow::Entry { entry, label } => ShownRow::Entry { entry: *entry, text: label@ },
            BrowserRow::Enter => ShownRow::Enter,
            BrowserRow::Leave => ShownRow::Leave,
        }
    }
}

/// Rows as contracts speak of them.
pub open spec fn row_views(rows: Seq<BrowserRow>) -> Seq<ShownRow> {
    rows.map_values(|row: BrowserRow| row@)
}

fn push_row<'a>(rows: &mut Vec<BrowserRow<'a>>, row: BrowserRow<'a>)
    ensures
        row_views(final(rows)@) == row_views(old(rows)@).push(row@),
{
    let ghost shown = row@;
    rows.push(row);
    assert(row_views(rows@) =~= row_views(old(rows)@).push(shown));
}

// ── The browser ─────────────────────────────────────────────────────────────

/// The file browser.
#[derive(Debug, Clone)]
pub struct FileBrowser {
    /// The directories that are unfolded, none of them twice.
    pub expanded_dirs: Vec<String>,
}

/// Whether a list of texts holds a text.
pub open spec fn holds_text(list: Seq<String>, text: Seq<char>) -> bool {
    exists|i: int| 0 <= i < list.len() && (#[trigger] list[i])@ == text
}

impl FileBrowser {
    /// No directory is unfolded twice.
    pub open spec fn wf(&self) -> bool {
        forall|i: int, j: int|
            0 <= i < j < self.expanded_dirs@.len() ==> (#[trigger] self.expanded_dirs@[i])@ != (
            #[trigger] self.expanded_dirs@[j])@
    }

    /// Whether a directory is unfolded.
    pub open spec fn expanded(&self, path: Seq<char>) -> bool {
        holds_text(self.expanded_dirs@, path)
    }

    /// A browser with every directory folded.
    pub fn new() -> (r: Self)
        ensures
            r.wf(),
            forall|path: Seq<char>| !r.expanded(path),
    {
        FileBrowser { expanded_dirs: Vec::new() }
    }

    fn place(&self, path: &str) -> (r: Option<usize>)
        ensures
            match r {
                Some(i) => i < self.expanded_dirs@.len() && self.expanded_dirs@[i as int]@ == path@,
                None => !self.expanded(path@),
            },
    {
        let mut i: usize = 0;
        while i < self.expanded_dirs.len()
            invariant
                i <= self.expanded_dirs.len(),
                forall|k: int| 0 <= k < i ==> (#[trigger] self.expanded_dirs@[k])@ != path@,
            decreases self.expanded_dirs.len() - i,
        {
            if same_text(self.expanded_dirs[i].as_str(), path) {
                return Some(i);
            }
            i = i + 1;
        }
        None
    }

    /// Whether a directory is unfolded.
    pub fn is_expanded(&self, path: &str) -> (r: bool)
        ensures
            r == self.expanded(path@),
    {
        match self.place(path) {
            Some(i) => {
                assert(self.expanded_dirs@[i as int]@ == path@);
                true
            },
            None => false,
        }
    }

    /// Whether one directory was folded or unfolded, and nothing else.
    pub open spec fn is_toggled(before: FileBrowser, path: Seq<char>, after: FileBrowser) -> bool {
        forall|p: Seq<char>| #[trigger]
            after.expanded(p) == (if p == path {
                !before.expanded(p)
            } else {
                before.expanded(p)
            })
    }

    /// Folds a directory that is unfolded, or unfolds one that is not.
    pub fn toggle(&mut self, path: &str)
        requires
            old(self).wf(),
        ensures
            final(self).wf(),
            Self::is_toggled(*old(self), path@, *final(self)),
    {
        let ghost before = self.expanded_dirs@;
        match self.place(path) {
            Some(at) => {
                let _ = self.expanded_dirs.remove(at);
                proof {
                    let now = self.expanded_dirs@;
                    assert(now =~= before.remove(at as int));
                    assert(before[at as int]@ == path@);
                    assert forall|p: Seq<char>| #[trigger] self.expanded(p) == (if p == path@ {
                        !old(self).expanded(p)
                    } else {
                        old(self).expanded(p)
                    }) by {
                        if holds_text(now, p) {
                            let i = choose|i: int| 0 <= i < now.len() && (#[trigger] now[i])@ == p;
                            let j = if i < at {
                                i
                            } else {
                                i + 1
                            };
                            assert(before[j]@ == p);
                        }
                        if holds_text(before, p) && p != path@ {
                            let j = choose|j: int|
                                0 <= j < before.len() && (#[trigger] before[j])@ == p;
                            let i = if j < at {
                                j
                            } else {
                                j - 1
                            };
                            assert(now[i]@ == p);
                        }
                    }
                }
            },
            None => {
                self.expanded_dirs.push(owned(path));
                proof {
                    let now = self.expanded_dirs@;
                    let n = before.len() as int;
                    assert(now[n]@ == path@);
                    assert forall|p: Seq<char>| #[trigger] self.expanded(p) == (if p == path@ {
                        !old(self).expanded(p)
                    } else {
                        old(self).expanded(p)
                    }) by {
                        if holds_text(now, p) && p != path@ {
                            let i = choose|i: int| 0 <= i < now.len() && (#[trigger] now[i])@ == p;
                            assert(before[i]@ == p);
                        }
                        if holds_text(before, p) {
                            let j = choose|j: int|
                                0 <= j < before.len() && (#[trigger] before[j])@ == p;
                            assert(now[j]@ == p);
                        }
                    }
                }
            },
        }
    }

    /// Whether the rows of a directory's own entries follow its row: while it
    /// is unfolded.
    pub open spec fn unfolds(&self, entry: DirEntry) -> bool {
        entry.is_dir && self.expanded(entry.path@)
    }

    /// Whether the rows of a directory's own entries follow its row.
    pub fn shows_inside(&self, entry: &DirEntry) -> (r: bool)
        ensures
            r == self.unfolds(*entry),
    {
        entry.is_dir && self.is_expanded(entry.path.as_str())
    }

    /// What is shown of an entry: its row, and after it, one step further in,
    /// what is shown of its own entries, exactly while it is unfolded.
    pub open spec fn node_rows(&self, node: DirNode) -> Seq<ShownRow>
        decreases node,
    {
        let row = ShownRow::Entry { entry: node.entry, text: self.row_text(node.entry) };
        if self.unfolds(node.entry) {
            seq![row, ShownRow::Enter] + self.rows(node.inside@).push(ShownRow::Leave)
        } else {
            seq![row]
        }
    }

    /// What is shown of a directory: all that is shown of each of its entries,
    /// in order.
    pub open spec fn rows(&self, nodes: Seq<DirNode>) -> Seq<ShownRow>
        decreases nodes,
    {
        if nodes.len() == 0 {
            Seq::empty()
        } else {
            self.rows(nodes.drop_last()) + self.node_rows(nodes.last())
        }
    }

    /// What is shown of a directory.
    pub fn outline<'a>(&self, nodes: &'a Vec<DirNode>) -> (r: Vec<BrowserRow<'a>>)
        ensures
            row_views(r@) == self.rows(nodes@),
    {
        let mut out: Vec<BrowserRow<'a>> = Vec::new();
        assert(row_views(out@) =~= Seq::empty());
        self.outline_into(nodes, &mut out);
        assert(Seq::<ShownRow>::empty() + self.rows(nodes@) =~= self.rows(nodes@));
        out
    }

    fn outline_into<'a>(&self, nodes: &'a Vec<DirNode>, out: &mut Vec<BrowserRow<'a>>)
        ensures
            row_views(final(out)@) == row_views(old(out)@) + self.rows(nodes@),
        decreases nodes,
    {
        let ghost start = row_views(out@);
        let mut i: usize = 0;
        assert(nodes@.take(0) =~= Seq::empty());
        assert(start + self.rows(nodes@.take(0)) =~= start);
        while i < nodes.len()
            invariant
                i <= nodes.len(),
                row_views(out@) == start + self.rows(nodes@.take(i as int)),
            decreases nodes.len() - i,
        {
            let ghost done = self.rows(nodes@.take(i as int));
            let node: &'a DirNode = &nodes[i];
            proof {
                assert(nodes@.take(i + 1).drop_last() =~= nodes@.take(i as int));
                assert(nodes@.take(i + 1).last() == *node);
                assert(decreases_to!(*nodes => nodes@[i as int]));
                assert(decreases_to!(*nodes => node.inside));
            }
            push_row(out, BrowserRow::Entry { entry: &node.entry, label: self.row_label(&node.entry) });
            if self.shows_inside(&node.entry) {
                push_row(out, BrowserRow::Enter);
                self.outline_into(&node.inside, out);
                push_row(out, BrowserRow::Leave);
            }
            assert(row_views(out@) =~= start + (done + self.node_rows(*node)));
            i = i + 1;
        }
        assert(nodes@.take(nodes@.len() as int) =~= nodes@);
    }

    /// How an entry is shown: an icon and its name.
    pub open spec fn row_text(&self, entry: DirEntry) -> Seq<char> {
        (if entry.is_dir {
            if self.expanded(entry.path@) {
                "📂"@
            } else {
                "📁"@
            }
        } else {
            icon_of(entry.name@)
        }) + " "@ + entry.name@
    }

    /// How an entry is shown.
    pub fn row_label(&self, entry: &DirEntry) -> (r: String)
        ensures
            r@ == self.row_text(*entry),
    {
        if entry.is_dir {
            if self.is_expanded(entry.path.as_str()) {
                join3("📂", " ", entry.name.as_str())
            } else {
                join3("📁", " ", entry.name.as_str())
            }
        } else {
            join3(file_icon(entry.name.as_str()), " ", entry.name.as_str())
        }
    }

    /// Ends a frame of the browser: a directory that was clicked is folded or
    /// unfolded; a file that was clicked is to be opened.
    pub fn show(&mut self, clicked: Option<&DirEntry>) -> (r: Option<String>)
        requires
            old(self).wf(),
        ensures
            final(self).wf(),
            match clicked {
                None => r is None && *final(self) == *old(self),
                Some(entry) => if entry.is_dir {
                    r is None && Self::is_toggled(*old(self), entry.path@, *final(self))
                } else {
                    &&& r matches Some(path)
                    &&& path@ == entry.path@
                    &&& *final(self) == *old(self)
                },
            },
    {
        match clicked {
            Some(entry) => if entry.is_dir {
                self.toggle(entry.path.as_str());
                None
            } else {
                Some(owned(entry.path.as_str()))
            },
            None => None,
        }
    }

    /// The heading: the name of the project's directory, where it has one.
    pub fn heading(file_name: Option<&str>) -> (r: String)
        ensures
            r@ == (match file_name {
                Some(name) => name@,
                None => "Project"@,
            }),
    {
        match file_name {
            Some(name) => owned(name),
            None => owned("Project"),
        }
    }
}

// ── Laws ────────────────────────────────────────────────────────────────────

/// Folding and unfolding a directory again changes nothing.
pub proof fn law_toggling_twice_changes_nothing(
    first: FileBrowser,
    second: FileBrowser,
    third: FileBrowser,
    path: Seq<char>,
)
    requires
        FileBrowser::is_toggled(first, path, second),
        FileBrowser::is_toggled(second, path, third),
    ensures
        forall|p: Seq<char>| #[trigger] third.expanded(p) == first.expanded(p),
{
    assert forall|p: Seq<char>| #[trigger] third.expanded(p) == first.expanded(p) by {
        assert(second.expanded(p) == second.expanded(p));
    }
}

proof fn lemma_rows_add(browser: FileBrowser, a: Seq<DirNode>, b: Seq<DirNode>)
    ensures
        browser.rows(a + b) == browser.rows(a) + browser.rows(b),
    decreases b.len(),
{
    if b.len() == 0 {
        assert(a + b =~= a);
        assert(browser.rows(a) + browser.rows(b) =~= browser.rows(a));
    } else {
        lemma_rows_add(browser, a, b.drop_last());
        assert((a + b).drop_last() =~= a + b.drop_last());
        assert(browser.rows(a + b) =~= browser.rows(a) + browser.rows(b));
    }
}

/// Wherever a directory stands, the rows of its entries follow its own row
/// while it is unfolded, and do not show while it is folded.
pub proof fn law_inside_shows_while_unfolded(
    browser: FileBrowser,
    above: Seq<DirNode>,
    node: DirNode,
    below: Seq<DirNode>,
)
    ensures
        ({
            let row = ShownRow::Entry { entry: node.entry, text: browser.row_text(node.entry) };
            browser.rows(above + seq![node] + below) == browser.rows(above).push(row) + (
            if browser.unfolds(node.entry) {
                seq![ShownRow::Enter] + browser.rows(node.inside@) + seq![ShownRow::Leave]
            } else {
                Seq::empty()
            }) + browser.rows(below)
        }),
{
    let one = seq![node];
    lemma_rows_add(browser, above + one, below);
    lemma_rows_add(browser, above, one);
    assert(one.drop_last() =~= Seq::<DirNode>::empty());
    assert(browser.rows(Seq::<DirNode>::empty()) =~= Seq::<ShownRow>::empty());
    assert(browser.rows(one) == browser.rows(one.drop_last()) + browser.node_rows(node));
    let row = ShownRow::Entry { entry: node.entry, text: browser.row_text(node.entry) };
    assert(browser.rows(above + one + below) =~= browser.rows(above).push(row) + (
    if browser.unfolds(node.entry) {
        seq![ShownRow::Enter] + browser.rows(node.inside@) + seq![ShownRow::Leave]
    } else {
        Seq::empty()
    }) + browser.rows(below));
}

proof fn lemma_bytes_less_transitive(a: Seq<u8>, b: Seq<u8>, c: Seq<u8>)
    ensures
        bytes_less(a, b) && bytes_less(b, c) ==> bytes_less(a, c),
        !bytes_less(a, b) && !bytes_less(b, c) ==> !bytes_less(a, c),
    decreases a.len() + b.len() + c.len(),
{
    if a.len() > 0 && b.len() > 0 && c.len() > 0 {
        lemma_bytes_less_transitive(a.drop_first(), b.drop_first(), c.drop_first());
    }
}

proof fn lemma_bytes_less_asymmetric(a: Seq<u8>, b: Seq<u8>)
    ensures
        bytes_less(a, b) ==> !bytes_less(b, a),
    decreases a.len(),
{
    if a.len() > 0 && b.len() > 0 {
        lemma_bytes_less_asymmetric(a.drop_first(), b.drop_first());
    }
}

/// No entry comes before one that is listed ahead of it.
pub open spec fn is_sorted(list: Seq<DirEntry>) -> bool {
    forall|i: int, j: int|
        0 <= i < j < list.len() ==> !comes_before(#[trigger] list[j], #[trigger] list[i])
}

proof fn lemma_not_before_transitive(a: DirEntry, b: DirEntry, c: DirEntry)
    requires
        !comes_before(b, a),
        !comes_before(c, b),
    ensures
        !comes_before(c, a),
{
    lemma_bytes_less_transitive(c.sort_key@, b.sort_key@, a.sort_key@);
}

proof fn lemma_inserted(list: Seq<DirEntry>, entry: DirEntry)
    requires
        is_sorted(list),
    ensures
        is_sorted(inserted(list, entry)),
        inserted(list, entry).to_multiset() == list.push(entry).to_multiset(),
    decreases list.len(),
{
    broadcast use vstd::seq_lib::group_to_multiset_ensures;

    if list.len() > 0 && comes_before(entry, list.last()) {
        let head = list.drop_last();
        let last = list.last();
        assert forall|i: int, j: int| 0 <= i < j < head.len() implies !comes_before(
            #[trigger] head[j],
            #[trigger] head[i],
        ) by {
            assert(!comes_before(list[j], list[i]));
        }
        lemma_inserted(head, entry);
        let front = inserted(head, entry);
        let all = inserted(list, entry);
        assert(all == front.push(last));
        assert forall|x: DirEntry| #[trigger] front.contains(x) implies !comes_before(last, x) by {
            assert(front.to_multiset().count(x) > 0);
            assert(head.push(entry).to_multiset().count(x) > 0);
            assert(head.push(entry).contains(x));
            let k = choose|k: int| 0 <= k < head.push(entry).len() && head.push(entry)[k] == x;
            if k < head.len() {
                assert(list[k] == x);
                assert(list[list.len() - 1] == last);
            } else {
                lemma_bytes_less_asymmetric(entry.sort_key@, last.sort_key@);
            }
        }
        assert forall|i: int, j: int| 0 <= i < j < all.len() implies !comes_before(
            #[trigger] all[j],
            #[trigger] all[i],
        ) by {
            if j < front.len() {
                assert(!comes_before(front[j], front[i]));
            } else {
                assert(front.contains(front[i]));
            }
        }
        assert(list =~= head.push(last));
        assert(all.to_multiset() =~= list.push(entry).to_multiset());
    } else {
        let all = list.push(entry);
        assert forall|i: int, j: int| 0 <= i < j < all.len() implies !comes_before(
            #[trigger] all[j],
            #[trigger] all[i],
        ) by {
            if j < list.len() {
                assert(!comes_before(list[j], list[i]));
            } else if i < list.len() - 1 {
                assert(!comes_before(list[list.len() - 1], list[i]));
                lemma_not_before_transitive(list[i], list.last(), entry);
            }
        }
    }
}

/// A listing is in order, and holds the same entries.
pub proof fn law_listing_is_in_order(entries: Seq<DirEntry>)
    ensures
        is_sorted(sorted(entries)),
        sorted(entries).to_multiset() == entries.to_multiset(),
    decreases entries.len(),
{
    broadcast use vstd::seq_lib::group_to_multiset_ensures;

    if entries.len() > 0 {
        let init = entries.drop_last();
        law_listing_is_in_order(init);
        lemma_inserted(sorted(init), entries.last());
        assert(entries =~= init.push(entries.last()));
        assert(sorted(entries).to_multiset() =~= entries.to_multiset());
    } else {
        assert(entries =~= Seq::empty());
    }
}

/// Nothing hidden is listed, and everything else is.
pub proof fn law_only_hidden_entries_are_left_out(entries: Seq<DirEntry>, entry: DirEntry)
    ensures
        visible(entries).contains(entry) <==> entries.contains(entry) && is_visible(entry.name@),
    decreases entries.len(),
{
    if entries.len() > 0 {
        let init = entries.drop_last();
        let last = entries.last();
        law_only_hidden_entries_are_left_out(init, entry);
        let now = visible(entries);
        let before = visible(init);
        assert(entries[entries.len() - 1] == last);
        if init.contains(entry) {
            let i = choose|i: int| 0 <= i < init.len() && init[i] == entry;
            assert(entries[i] == entry);
        }
        if entries.contains(entry) && entry != last {
            let i = choose|i: int| 0 <= i < entries.len() && entries[i] == entry;
            assert(init[i] == entry);
        }
        if is_visible(last.name@) {
            assert(now[before.len() as int] == last);
            if before.contains(entry) {
                let i = choose|i: int| 0 <= i < before.len() && before[i] == entry;
                assert(now[i] == entry);
            }
            if now.contains(entry) && entry != last {
                let i = choose|i: int| 0 <= i < now.len() && now[i] == entry;
                assert(before[i] == entry);
            }
        }
    }
}

/// Names are compared byte by byte from the front: equal beginnings do not
/// count, the first different byte decides, and a name comes before a longer
/// one that begins with it.
pub proof fn law_names_are_compared_byte_by_byte(
    common: Seq<u8>,
    a: Seq<u8>,
    b: Seq<u8>,
)
    ensures
        bytes_less(common + a, common + b) == bytes_less(a, b),
        a.len() > 0 && b.len() > 0 && a[0] != b[0] ==> bytes_less(a, b) == (a[0] < b[0]),
        b.len() > 0 ==> bytes_less(Seq::<u8>::empty(), b),
        !bytes_less(a, Seq::<u8>::empty()),
    decreases common.len(),
{
    if common.len() == 0 {
        assert(common + a =~= a);
        assert(common + b =~= b);
    } else {
        let rest = common.drop_first();
        law_names_are_compared_byte_by_byte(rest, a, b);
        assert((common + a).drop_first() =~= rest + a);
        assert((common + b).drop_first() =~= rest + b);
    }
}

/// Directories come before everything else, and within each kind the names
/// decide.
pub proof fn law_directories_come_first(a: DirEntry, b: DirEntry)
    ensures
        a.is_dir && !b.is_dir ==> comes_before(a, b) && !comes_before(b, a),
        a.is_dir == b.is_dir ==> comes_before(a, b) == bytes_less(a.sort_key@, b.sort_key@),
{
}

/// An entry is left out exactly where its name begins with a dot or is
/// `target`.
pub proof fn law_what_is_hidden(name: Seq<char>)
    ensures
        name.len() > 0 && name[0] == '.' ==> !is_visible(name),
        !is_visible("target"@),
        !(name.len() > 0 && name[0] == '.') && name != "target"@ ==> is_visible(name),
{
    reveal_strlit(".");
    if name.len() > 0 {
        let front = name.subrange(0, 1);
        if name[0] == '.' {
            assert(front =~= "."@);
        } else {
            assert(front[0] != "."@[0]);
        }
    }
}

/// Leaving entries out keeps the others in their order.
pub proof fn law_visible_entries_keep_their_order(
    a: Seq<DirEntry>,
    b: Seq<DirEntry>,
    entry: DirEntry,
)
    ensures
        visible(a + b) == visible(a) + visible(b),
        visible(seq![entry]) == (if is_visible(entry.name@) {
            seq![entry]
        } else {
            Seq::empty()
        }),
    decreases b.len(),
{
    reveal_with_fuel(visible, 2);
    assert(seq![entry].drop_last() =~= Seq::<DirEntry>::empty());
    assert(Seq::<DirEntry>::empty().push(entry) =~= seq![entry]);
    if b.len() == 0 {
        assert(a + b =~= a);
        assert(visible(a) + visible(b) =~= visible(a));
    } else {
        law_visible_entries_keep_their_order(a, b.drop_last(), entry);
        assert((a + b).drop_last() =~= a + b.drop_last());
        assert((a + b).last() == b.last());
        assert(visible(a + b) =~= visible(a) + visible(b));
    }
}

/// Whether two entries are alike: neither is listed before the other.
pub open spec fn alike(a: DirEntry, b: DirEntry) -> bool {
    !comes_before(a, b) && !comes_before(b, a)
}

/// The entries that are like another one, in order.
pub open spec fn those_like(entries: Seq<DirEntry>, x: DirEntry) -> Seq<DirEntry>
    decreases entries.len(),
{
    if entries.len() == 0 {
        Seq::empty()
    } else if alike(entries.last(), x) {
        those_like(entries.drop_last(), x).push(entries.last())
    } else {
        those_like(entries.drop_last(), x)
    }
}

proof fn lemma_inserted_likes(list: Seq<DirEntry>, entry: DirEntry, x: DirEntry)
    ensures
        those_like(inserted(list, entry), x) == (if alike(entry, x) {
            those_like(list, x).push(entry)
        } else {
            those_like(list, x)
        }),
    decreases list.len(),
{
    if list.len() > 0 && comes_before(entry, list.last()) {
        let head = list.drop_last();
        let last = list.last();
        lemma_inserted_likes(head, entry, x);
        let all = inserted(list, entry);
        assert(all.drop_last() =~= inserted(head, entry));
        assert(all.last() == last);
        if alike(entry, x) && !comes_before(x, last) {
            lemma_not_before_transitive(last, x, entry);
        }
    } else {
        assert(list.push(entry).drop_last() =~= list);
    }
}

/// Entries that are alike keep the order in which they were read.
pub proof fn law_listing_keeps_the_order_of_likes(entries: Seq<DirEntry>, x: DirEntry)
    ensures
        those_like(sorted(entries), x) == those_like(entries, x),
    decreases entries.len(),
{
    if entries.len() > 0 {
        law_listing_keeps_the_order_of_likes(entries.drop_last(), x);
        lemma_inserted_likes(sorted(entries.drop_last()), entries.last(), x);
    }
}

/// A row shows an icon, a space and the name: an open or a closed folder, or
/// what the end of a file's name stands for.
pub proof fn law_rows_show_icon_and_name(browser: FileBrowser, entry: DirEntry, stem: Seq<char>)
    ensures
        entry.is_dir && browser.expanded(entry.path@) ==> browser.row_text(entry) == "📂"@ + " "@
            + entry.name@,
        entry.is_dir && !browser.expanded(entry.path@) ==> browser.row_text(entry) == "📁"@ + " "@
            + entry.name@,
        !entry.is_dir ==> browser.row_text(entry) == icon_of(entry.name@) + " "@ + entry.name@,
        icon_of(stem + ".rs"@) == "🦀"@,
        icon_of(stem + ".toml"@) == "⚙"@,
        icon_of(stem + ".md"@) == "📝"@,
        icon_of(stem + ".lock"@) == "🔒"@,
        !finishes_with(stem, ".rs"@) && !finishes_with(stem, ".toml"@) && !finishes_with(
            stem,
            ".md"@,
        ) && !finishes_with(stem, ".lock"@) ==> icon_of(stem) == "📄"@,
        browser.expanded(stem) <==> exists|i: int|
            0 <= i < browser.expanded_dirs@.len() && (#[trigger] browser.expanded_dirs@[i])@
                == stem,
{
    reveal_strlit(".rs");
    reveal_strlit(".toml");
    reveal_strlit(".md");
    reveal_strlit(".lock");
    lemma_ends(stem, ".rs"@);
    lemma_ends(stem, ".toml"@);
    lemma_ends(stem, ".md"@);
    lemma_ends(stem, ".lock"@);
    lemma_last_differs(stem + ".toml"@, ".rs"@);
    lemma_last_differs(stem + ".md"@, ".rs"@);
    lemma_last_differs(stem + ".md"@, ".toml"@);
    lemma_last_differs(stem + ".lock"@, ".rs"@);
    lemma_last_differs(stem + ".lock"@, ".toml"@);
    lemma_last_differs(stem + ".lock"@, ".md"@);
}

proof fn lemma_ends(stem: Seq<char>, end: Seq<char>)
    ensures
        finishes_with(stem + end, end),
{
    assert((stem + end).subrange(stem.len() as int, (stem + end).len() as int) =~= end);
}

proof fn lemma_last_differs(s: Seq<char>, end: Seq<char>)
    requires
        s.len() > 0,
        end.len() > 0,
        s.last() != end.last(),
    ensures
        !finishes_with(s, end),
{
    if finishes_with(s, end) {
        let m = s.len() - end.len();
        assert(s.subrange(m, m + end.len())[end.len() - 1] == end.last());
    }
}

/// Folding or unfolding a directory turns it around, and no other one.
pub proof fn law_toggling_turns_one_around(
    before: FileBrowser,
    path: Seq<char>,
    after: FileBrowser,
    other: Seq<char>,
)
    requires
        FileBrowser::is_toggled(before, path, after),
    ensures
        after.expanded(path) == !before.expanded(path),
        other != path ==> after.expanded(other) == before.expanded(other),
{
}

/// What is shown of a directory is shown of each of its entries, in order;
/// only directories can be unfolded.
pub proof fn law_rows_follow_the_entries(browser: FileBrowser, a: Seq<DirNode>, b: Seq<DirNode>)
    ensures
        browser.rows(a + b) == browser.rows(a) + browser.rows(b),
        forall|entry: DirEntry|
            !entry.is_dir || !browser.expanded(entry.path@) ==> !#[trigger] browser.unfolds(entry),
        forall|entry: DirEntry|
            entry.is_dir && browser.expanded(entry.path@) ==> #[trigger] browser.unfolds(entry),
{
    lemma_rows_add(browser, a, b);
}

} // verus!
