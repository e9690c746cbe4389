//! An in-memory model of a directory tree.
//!
//! The manager's state lives entirely in the filesystem: a project root
//! directory holds one template directory per database kind and an
//! `existing_dbs` directory with one subdirectory per instance. All
//! lifecycle logic is defined — and proved — over this model; the
//! unverified shell mirrors each operation onto the real disk.
//!
//! A node is either a text file or a directory. The mathematical view of
//! a directory is a finite map from entry name to child view, so every
//! contract can speak the language of `Map`, `Set` and `Seq`.

use vstd::prelude::*;

verus! {

/// Mathematical view of a node: a file is its content, a directory is a
/// finite map from entry name to child view.
pub enum FsNodeV {
    File { content: Seq<char> },
    Dir { entries: Map<Seq<char>, FsNodeV> },
}

/// A node of the modelled directory tree. Directory entries carry their
/// name next to the child node; well-formed directories never repeat a
/// name.
#[derive(Debug)]
pub enum FsNode {
    File { content: String },
    Dir { entries: Vec<(String, FsNode)> },
}

/// Folds a sequence of named entries into the map view of a directory.
/// Later entries win, but well-formed directories have no repeated
/// names, so the order never matters there.
pub open spec fn entries_view(es: Seq<(String, FsNode)>) -> Map<Seq<char>, FsNodeV>
    decreases es,
{
    if es.len() == 0 {
        Map::empty()
    } else {
        entries_view(es.subrange(0, es.len() - 1)).insert(
            es[es.len() - 1].0@,
            node_view(es[es.len() - 1].1),
        )
    }
}

/// The view of a single node.
pub open spec fn node_view(n: FsNode) -> FsNodeV
    decreases n,
{
    match n {
        FsNode::File { content } => FsNodeV::File { content: content@ },
        FsNode::Dir { entries } => FsNodeV::Dir { entries: entries_view(entries@) },
    }
}

impl View for FsNode {
    type V = FsNodeV;

    open spec fn view(&self) -> FsNodeV {
        node_view(*self)
    }
}

/// Well-formedness of a sequence of directory entries: children are
/// well-formed and no entry repeats the name of an earlier one.
pub open spec fn entries_wf(es: Seq<(String, FsNode)>) -> bool
    decreases es,
{
    es.len() == 0 || {
        &&& entries_wf(es.subrange(0, es.len() - 1))
        &&& node_wf(es[es.len() - 1].1)
        &&& !entries_view(es.subrange(0, es.len() - 1)).contains_key(es[es.len() - 1].0@)
    }
}

/// Well-formedness of a node: every directory in the tree has pairwise
/// distinct entry names.
pub open spec fn node_wf(n: FsNode) -> bool
    decreases n,
{
    match n {
        FsNode::File { .. } => true,
        FsNode::Dir { entries } => entries_wf(entries@),
    }
}

impl FsNode {
    /// Well-formedness of the whole tree below this node.
    pub open spec fn wf(&self) -> bool {
        node_wf(*self)
    }
}

/// A name is in the view of an entry sequence exactly when some entry
/// carries it.
pub proof fn lemma_entries_view_contains(es: Seq<(String, FsNode)>, k: Seq<char>)
    ensures
        entries_view(es).contains_key(k) <==> exists|i: int| 0 <= i < es.len() && es[i].0@ == k,
    decreases es,
{
    if es.len() > 0 {
        let prefix = es.subrange(0, es.len() - 1);
        lemma_entries_view_contains(prefix, k);
        if entries_view(es).contains_key(k) {
            if es[es.len() - 1].0@ == k {
                assert(es[es.len() - 1].0@ == k);
            } else {
                let i = choose|i: int| 0 <= i < prefix.len() && prefix[i].0@ == k;
                assert(es[i].0@ == k);
            }
        }
        if exists|i: int| 0 <= i < es.len() && es[i].0@ == k {
            let i = choose|i: int| 0 <= i < es.len() && es[i].0@ == k;
            if i < es.len() - 1 {
                assert(prefix[i].0@ == k);
            }
        }
    }
}

/// In a well-formed entry sequence, the view maps each entry's name to
/// that entry's child view, and every child is well-formed.
pub proof fn lemma_entries_view_index(es: Seq<(String, FsNode)>, i: int)
    requires
        entries_wf(es),
        0 <= i < es.len(),
    ensures
        entries_view(es).contains_key(es[i].0@),
        entries_view(es)[es[i].0@] == node_view(es[i].1),
        node_wf(es[i].1),
    decreases es,
{
    let prefix = es.subrange(0, es.len() - 1);
    if i == es.len() - 1 {
    } else {
        lemma_entries_view_index(prefix, i);
        assert(prefix[i] == es[i]);
        if es[es.len() - 1].0@ == es[i].0@ {
            assert(entries_view(prefix).contains_key(es[es.len() - 1].0@));
            assert(false);
        }
    }
}

/// Distinct entries of a well-formed sequence carry distinct names.
pub proof fn lemma_entries_wf_distinct(es: Seq<(String, FsNode)>, i: int, j: int)
    requires
        entries_wf(es),
        0 <= i < j < es.len(),
    ensures
        es[i].0@ != es[j].0@,
    decreases es,
{
    let prefix = es.subrange(0, es.len() - 1);
    if j == es.len() - 1 {
        lemma_entries_view_index(prefix, i);
    } else {
        lemma_entries_wf_distinct(prefix, i, j);
    }
}

/// Appending an entry inserts it into the view.
pub proof fn lemma_entries_view_push(es: Seq<(String, FsNode)>, e: (String, FsNode))
    ensures
        entries_view(es.push(e)) == entries_view(es).insert(e.0@, node_view(e.1)),
        entries_wf(es) && node_wf(e.1) && !entries_view(es).contains_key(e.0@) ==> entries_wf(
            es.push(e),
        ),
{
    let full = es.push(e);
    assert(full.subrange(0, full.len() - 1) =~= es);
    assert(full[full.len() - 1] == e);
}

/// The set of names that a directory view maps to subdirectories.
pub open spec fn dir_name_set(m: Map<Seq<char>, FsNodeV>) -> Set<Seq<char>> {
    m.dom().filter(|k: Seq<char>| m[k] is Dir)
}

/// The names of the subdirectory entries of a sequence, in entry order.
pub open spec fn dir_names_of(es: Seq<(String, FsNode)>) -> Seq<Seq<char>>
    decreases es,
{
    if es.len() == 0 {
        Seq::empty()
    } else {
        let prefix = es.subrange(0, es.len() - 1);
        let last = es[es.len() - 1];
        dir_names_of(prefix) + (if node_view(last.1) is Dir {
            seq![last.0@]
        } else {
            Seq::<Seq<char>>::empty()
        })
    }
}

/// For a well-formed entry sequence, the subdirectory names listed in
/// entry order are exactly the subdirectory names of the view, without
/// repetition.
pub proof fn lemma_dir_names_of(es: Seq<(String, FsNode)>)
    requires
        entries_wf(es),
    ensures
        dir_names_of(es).to_set() == dir_name_set(entries_view(es)),
        dir_names_of(es).no_duplicates(),
    decreases es,
{
    if es.len() > 0 {
        let prefix = es.subrange(0, es.len() - 1);
        let last = es[es.len() - 1];
        lemma_dir_names_of(prefix);
        if node_view(last.1) is Dir {
            assert(dir_names_of(es) =~= dir_names_of(prefix).push(last.0@));
            assert(dir_name_set(entries_view(es)) =~= dir_name_set(entries_view(prefix)).insert(
                last.0@,
            ));
            dir_names_of(prefix).lemma_push_to_set_commute(last.0@);
            assert(dir_names_of(es).to_set() =~= dir_names_of(prefix).to_set().insert(last.0@));
            assert(!dir_names_of(prefix).to_set().contains(last.0@));
            assert forall|j1: int, j2: int|
                0 <= j1 < j2 < dir_names_of(es).len() implies dir_names_of(es)[j1]
                != dir_names_of(es)[j2] by {
                if j2 == dir_names_of(es).len() - 1 {
                    assert(dir_names_of(prefix).contains(dir_names_of(prefix)[j1]));
                }
            }
        } else {
            assert(dir_names_of(es) =~= dir_names_of(prefix));
            assert(dir_name_set(entries_view(es)) =~= dir_name_set(entries_view(prefix)));
        }
    }
}

/// Removing the entry at index `i` of a well-formed sequence removes its
/// name from the view.
pub proof fn lemma_entries_view_remove(es: Seq<(String, FsNode)>, i: int)
    requires
        entries_wf(es),
        0 <= i < es.len(),
    ensures
        entries_view(es.remove(i)) == entries_view(es).remove(es[i].0@),
        entries_wf(es.remove(i)),
    decreases es,
{
    let prefix = es.subrange(0, es.len() - 1);
    let last = es[es.len() - 1];
    let k = es[i].0@;
    if i == es.len() - 1 {
        assert(es.remove(i) =~= prefix);
        lemma_entries_view_contains(prefix, k);
        assert(forall|m: int| 0 <= m < prefix.len() ==> prefix[m] == es[m]);
        assert(!entries_view(prefix).contains_key(k)) by {
            if exists|m: int| 0 <= m < prefix.len() && prefix[m].0@ == k {
                let m = choose|m: int| 0 <= m < prefix.len() && prefix[m].0@ == k;
                lemma_entries_wf_distinct(es, m, i);
            }
        }
        assert(entries_view(prefix).remove(k) =~= entries_view(prefix));
        assert(entries_view(es).remove(k) =~= entries_view(prefix));
    } else {
        lemma_entries_view_remove(prefix, i);
        let shorter = es.remove(i);
        assert(shorter.subrange(0, shorter.len() - 1) =~= prefix.remove(i));
        assert(shorter[shorter.len() - 1] == last);
        lemma_entries_view_index(es, i);
        assert(entries_view(prefix).contains_key(k)) by {
            lemma_entries_view_contains(prefix, k);
            assert(prefix[i].0@ == k);
        }
        assert(last.0@ != k);
        assert(entries_view(shorter) =~= entries_view(es).remove(k));
    }
}

/// Finds the position of a named entry, scanning from the front.
fn find_index(es: &Vec<(String, FsNode)>, name: &String) -> (r: Option<usize>)
    ensures
        (match r {
            Option::Some(i) => i < es@.len() && es@[i as int].0@ == name@,
            Option::None => forall|j: int| 0 <= j < es@.len() ==> es@[j].0@ != name@,
        }),
{
    let n = es.len();
    let mut i: usize = 0;
    while i < n
        invariant
            n == es@.len(),
            i <= n,
            forall|j: int| 0 <= j < i ==> es@[j].0@ != name@,
        decreases n - i,
    {
        if es[i].0 == *name {
            return Some(i);
        }
        i += 1;
    }
    None
}

impl FsNode {
    /// An empty directory.
    pub fn new_dir() -> (r: FsNode)
        ensures
            r@ == (FsNodeV::Dir { entries: Map::<Seq<char>, FsNodeV>::empty() }),
            r.wf(),
    {
        FsNode::Dir { entries: Vec::new() }
    }

    /// A file with the given text content.
    pub fn new_file(content: String) -> (r: FsNode)
        ensures
            r@ == (FsNodeV::File { content: content@ }),
            r.wf(),
    {
        FsNode::File { content }
    }

    /// Whether this node is a directory.
    pub fn is_dir(&self) -> (r: bool)
        ensures
            r == (self@ is Dir),
    {
        match self {
            FsNode::Dir { .. } => true,
            FsNode::File { .. } => false,
        }
    }

    /// The content of a file node.
    pub fn file_content<'a>(&'a self) -> (r: Option<&'a String>)
        ensures
            (match r {
                Option::Some(c) => self@ == (FsNodeV::File { content: c@ }),
                Option::None => self@ is Dir,
            }),
    {
        match self {
            FsNode::File { content } => Some(content),
            FsNode::Dir { .. } => None,
        }
    }

    /// Looks an entry up by name; `None` on files and on absent names.
    pub fn child<'a>(&'a self, name: &String) -> (r: Option<&'a FsNode>)
        requires
            self.wf(),
        ensures
            (match r {
                Option::Some(c) => {
                    &&& self@ is Dir
                    &&& self@->entries.contains_key(name@)
                    &&& c@ == self@->entries[name@]
                    &&& c.wf()
                },
                Option::None => !(self@ is Dir && self@->entries.contains_key(name@)),
            }),
    {
        match self {
            FsNode::File { .. } => None,
            FsNode::Dir { entries } => {
                match find_index(entries, name) {
                    Option::Some(i) => {
                        proof {
                            lemma_entries_view_index(entries@, i as int);
                        }
                        Some(&entries[i].1)
                    },
                    Option::None => {
                        proof {
                            lemma_entries_view_contains(entries@, name@);
                        }
                        None
                    },
                }
            },
        }
    }

    /// Whether a directory has an entry of this name; mirrors a path
    /// existence test.
    pub fn has_child(&self, name: &String) -> (r: bool)
        requires
            self.wf(),
        ensures
            r == (self@ is Dir && self@->entries.contains_key(name@)),
    {
        match self.child(name) {
            Option::Some(_) => true,
            Option::None => false,
        }
    }

    /// Adds or replaces the named entry of a directory.
    fn with_child(self, name: String, node: FsNode) -> (r: FsNode)
        requires
            self.wf(),
            self@ is Dir,
            node.wf(),
        ensures
            r@ == (FsNodeV::Dir { entries: self@->entries.insert(name@, node@) }),
            r.wf(),
    {
        match self {
            FsNode::File { .. } => vstd::pervasive::unreached(),
            FsNode::Dir { entries } => {
                let mut es = entries;
                let ghost es0 = es@;
                match find_index(&es, &name) {
                    Option::Some(i) => {
                        proof {
                            lemma_entries_view_remove(es@, i as int);
                        }
                        es.remove(i);
                        proof {
                            lemma_entries_view_push(es@, (name, node));
                        }
                        es.push((name, node));
                        proof {
                            assert(entries_view(es@) =~= entries_view(es0).insert(
                                name@,
                                node@,
                            ));
                        }
                        FsNode::Dir { entries: es }
                    },
                    Option::None => {
                        proof {
                            lemma_entries_view_contains(es@, name@);
                            lemma_entries_view_push(es@, (name, node));
                        }
                        es.push((name, node));
                        FsNode::Dir { entries: es }
                    },
                }
            },
        }
    }

    /// Adds or replaces the named entry of a directory, in place.
    pub fn set_child(&mut self, name: String, node: FsNode)
        requires
            old(self).wf(),
            old(self)@ is Dir,
            node.wf(),
        ensures
            final(self)@ == (FsNodeV::Dir {
                entries: old(self)@->entries.insert(name@, node@),
            }),
            final(self).wf(),
    {
        let mut tmp = FsNode::Dir { entries: Vec::new() };
        core::mem::swap(self, &mut tmp);
        let updated = tmp.with_child(name, node);
        *self = updated;
    }

    /// Removes and returns the named entry of a directory, in place;
    /// leaves the directory unchanged when the name is absent.
    pub fn take_child(&mut self, name: &String) -> (r: Option<FsNode>)
        requires
            old(self).wf(),
            old(self)@ is Dir,
        ensures
            final(self).wf(),
            (match r {
                Option::Some(c) => {
                    &&& old(self)@->entries.contains_key(name@)
                    &&& c@ == old(self)@->entries[name@]
                    &&& c.wf()
                    &&& final(self)@ == (FsNodeV::Dir {
                        entries: old(self)@->entries.remove(name@),
                    })
                },
                Option::None => !old(self)@->entries.contains_key(name@) && *final(self) == *old(
                    self,
                ),
            }),
    {
        let mut tmp = FsNode::Dir { entries: Vec::new() };
        core::mem::swap(self, &mut tmp);
        match tmp {
            FsNode::File { .. } => vstd::pervasive::unreached(),
            FsNode::Dir { entries } => {
                let mut es = entries;
                match find_index(&es, name) {
                    Option::Some(i) => {
                        proof {
                            lemma_entries_view_index(es@, i as int);
                            lemma_entries_view_remove(es@, i as int);
                        }
                        let pair = es.remove(i);
                        *self = FsNode::Dir { entries: es };
                        Some(pair.1)
                    },
                    Option::None => {
                        proof {
                            lemma_entries_view_contains(es@, name@);
                        }
                        *self = FsNode::Dir { entries: es };
                        None
                    },
                }
            },
        }
    }

    /// The names of the subdirectories of a directory, each exactly once,
    /// in entry order.
    pub fn dir_children(&self) -> (r: Vec<String>)
        requires
            self.wf(),
            self@ is Dir,
        ensures
            r@.map_values(|s: String| s@).to_set() == dir_name_set(self@->entries),
            r@.map_values(|s: String| s@).no_duplicates(),
    {
        match self {
            FsNode::File { .. } => vstd::pervasive::unreached(),
            FsNode::Dir { entries } => {
                let mut out: Vec<String> = Vec::new();
                let n = entries.len();
                let mut i: usize = 0;
                while i < n
                    invariant
                        n == entries@.len(),
                        i <= n,
                        entries_wf(entries@),
                        *self == (FsNode::Dir { entries: *entries }),
                        out@.map_values(|s: String| s@) == dir_names_of(
                            entries@.subrange(0, i as int),
                        ),
                    decreases n - i,
                {
                    let ghost out0 = out@;
                    let ghost f = |s: String| s@;
                    if entries[i].1.is_dir() {
                        out.push(entries[i].0.clone());
                        proof {
                            assert(out@.map_values(f) =~= out0.map_values(f).push(
                                entries@[i as int].0@,
                            ));
                        }
                    }
                    proof {
                        let prefix1 = entries@.subrange(0, i + 1);
                        assert(prefix1.subrange(0, prefix1.len() - 1) =~= entries@.subrange(
                            0,
                            i as int,
                        ));
                        assert(prefix1[prefix1.len() - 1] == entries@[i as int]);
                        if node_view(entries@[i as int].1) is Dir {
                            assert(dir_names_of(prefix1) =~= dir_names_of(
                                entries@.subrange(0, i as int),
                            ).push(entries@[i as int].0@));
                        } else {
                            assert(dir_names_of(prefix1) =~= dir_names_of(
                                entries@.subrange(0, i as int),
                            ));
                        }
                    }
                    i += 1;
                }
                proof {
                    assert(entries@.subrange(0, n as int) =~= entries@);
                    lemma_dir_names_of(entries@);
                }
                out
            },
        }
    }

    /// A copy of the whole tree below this node; the original is kept,
    /// which is how a template directory turns into a new instance.
    pub fn deep_copy(&self) -> (r: FsNode)
        requires
            self.wf(),
        ensures
            r@ == self@,
            r.wf(),
        decreases *self,
    {
        match self {
            FsNode::File { content } => FsNode::File { content: content.clone() },
            FsNode::Dir { entries } => {
                let mut out: Vec<(String, FsNode)> = Vec::new();
                let n = entries.len();
                let mut i: usize = 0;
                while i < n
                    invariant
                        n == entries@.len(),
                        i <= n,
                        entries_wf(entries@),
                        *self == (FsNode::Dir { entries: *entries }),
                        entries_wf(out@),
                        entries_view(out@) == entries_view(entries@.subrange(0, i as int)),
                        forall|j: int| #![auto]
                            0 <= j < out@.len() ==> out@[j].0@ == entries@[j].0@,
                        out@.len() == i,
                    decreases n - i,
                {
                    proof {
                        lemma_entries_view_index(entries@, i as int);
                        assert(decreases_to!(*self => (*self)->entries));
                        assert(decreases_to!((*self)->entries => (*self)->entries[i as int]));
                        assert(decreases_to!(
                            (*self)->entries[i as int] => (*self)->entries[i as int].1
                        ));
                        assert(decreases_to!(*self => entries@[i as int].1));
                    }
                    let name_c = entries[i].0.clone();
                    let child_c = entries[i].1.deep_copy();
                    proof {
                        lemma_entries_view_push(out@, (name_c, child_c));
                        lemma_entries_view_contains(out@, name_c@);
                        if exists|j: int| 0 <= j < out@.len() && out@[j].0@ == name_c@ {
                            let j = choose|j: int|
                                0 <= j < out@.len() && out@[j].0@ == name_c@;
                            lemma_entries_wf_distinct(entries@, j, i as int);
                        }
                        let prefix1 = entries@.subrange(0, i + 1);
                        assert(prefix1 =~= entries@.subrange(0, i as int).push(
                            entries@[i as int],
                        ));
                        lemma_entries_view_push(
                            entries@.subrange(0, i as int),
                            entries@[i as int],
                        );
                    }
                    out.push((name_c, child_c));
                    i += 1;
                }
                proof {
                    assert(entries@.subrange(0, n as int) =~= entries@);
                }
                FsNode::Dir { entries: out }
            },
        }
    }
}

} // verus!
