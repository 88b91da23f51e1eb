//! Where configuration files are looked for, and a record of what is on
//! disk to look in.
//!
//! Nothing here touches the disk. A caller looks at the paths it cares about
//! and writes down what it saw in a [`Snapshot`]; the search then runs on the
//! snapshot.

use crate::error::{ConfigError, Failure};
use vstd::prelude::*;
use vstd::string::*;

verus! {

/// What was seen at one path.
#[derive(Debug, PartialEq, Eq)]
pub enum Node {
    /// A directory.
    Directory,
    /// A regular file, with its contents as text.
    File(String),
    /// A regular file that could not be read as text, with the reason.
    Unreadable(String),
}

/// The mathematical value of a [`Node`].
pub ghost enum Entry {
    Directory,
    File(Seq<char>),
    Unreadable(Seq<char>),
}

impl View for Node {
    type V = Entry;

    open spec fn view(&self) -> Entry {
        match self {
            Node::Directory => Entry::Directory,
            Node::File(text) => Entry::File(text@),
            Node::Unreadable(cause) => Entry::Unreadable(cause@),
        }
    }
}

/// What was seen on disk: a node for each path at which there was a
/// directory or a regular file. A path without a node is one where there was
/// neither, or one that nobody looked at.
#[derive(Debug)]
pub struct Snapshot {
    /// The paths in the order in which they were written down. Where a path
    /// occurs twice, the later node stands.
    nodes: Vec<(String, Node)>,
}

/// The map that a list of nodes stands for: later nodes overwrite earlier
/// ones of the same path.
spec fn mapped(nodes: Seq<(String, Node)>) -> Map<Seq<char>, Entry>
    decreases nodes.len(),
{
    if nodes.len() == 0 {
        Map::empty()
    } else {
        mapped(nodes.drop_last()).insert(nodes.last().0@, nodes.last().1@)
    }
}

/// A path that no node is for is not in the map.
proof fn lemma_mapped_misses(nodes: Seq<(String, Node)>, path: Seq<char>)
    requires
        forall|k: int| 0 <= k < nodes.len() ==> (#[trigger] nodes[k]).0@ != path,
    ensures
        !mapped(nodes).contains_key(path),
    decreases nodes.len(),
{
    if nodes.len() > 0 {
        lemma_mapped_misses(nodes.drop_last(), path);
    }
}

/// The last node for a path is the one in the map.
proof fn lemma_mapped_finds(nodes: Seq<(String, Node)>, j: int)
    requires
        0 <= j < nodes.len(),
        forall|k: int| j < k < nodes.len() ==> (#[trigger] nodes[k]).0@ != nodes[j].0@,
    ensures
        mapped(nodes).contains_key(nodes[j].0@),
        mapped(nodes)[nodes[j].0@] == nodes[j].1@,
    decreases nodes.len(),
{
    if j < nodes.len() - 1 {
        lemma_mapped_finds(nodes.drop_last(), j);
    }
}

impl View for Snapshot {
    type V = Map<Seq<char>, Entry>;

    closed spec fn view(&self) -> Map<Seq<char>, Entry> {
        mapped(self.nodes@)
    }
}

impl Snapshot {
    /// A snapshot of nothing.
    pub fn new() -> (files: Snapshot)
        ensures
            files@ == Map::<Seq<char>, Entry>::empty(),
    {
        Snapshot { nodes: Vec::new() }
    }

    /// Writes down what was seen at `path`, in place of anything written down
    /// for it before.
    pub fn insert(&mut self, path: &str, node: Node)
        ensures
            final(self)@ == old(self)@.insert(path@, node@),
    {
        let ghost before = self.nodes@;
        self.nodes.push((path.to_owned(), node));
        assert(self.nodes@.drop_last() =~= before);
    }

    /// What was seen at `path`, if anything.
    pub fn get(&self, path: &str) -> (found: Option<&Node>)
        ensures
            match found {
                Some(node) => self@.contains_key(path@) && self@[path@] == node@,
                None => !self@.contains_key(path@),
            },
    {
        let wanted = path.to_owned();
        let mut i: usize = self.nodes.len();
        while i > 0
            invariant
                i <= self.nodes.len(),
                wanted@ == path@,
                forall|k: int| i <= k < self.nodes.len() ==> (#[trigger] self.nodes@[k]).0@ != path@,
            decreases i,
        {
            i -= 1;
            if self.nodes[i].0 == wanted {
                proof {
                    lemma_mapped_finds(self.nodes@, i as int);
                }
                return Some(&self.nodes[i].1);
            }
        }
        proof {
            lemma_mapped_misses(self.nodes@, path@);
        }
        None
    }

    /// Whether a directory was seen at `path`.
    pub fn is_dir(&self, path: &str) -> (yes: bool)
        ensures
            yes == is_dir(self@, path@),
    {
        match self.get(path) {
            Some(Node::Directory) => true,
            _ => false,
        }
    }

    /// Whether a regular file was seen at `path`, readable or not.
    pub fn is_file(&self, path: &str) -> (yes: bool)
        ensures
            yes == is_file(self@, path@),
    {
        match self.get(path) {
            Some(Node::File(_)) => true,
            Some(Node::Unreadable(_)) => true,
            _ => false,
        }
    }
}

/// Whether `files` has a directory at `path`.
pub open spec fn is_dir(files: Map<Seq<char>, Entry>, path: Seq<char>) -> bool {
    files.contains_key(path) && files[path] is Directory
}

/// Whether `files` has a regular file at `path`, readable or not.
pub open spec fn is_file(files: Map<Seq<char>, Entry>, path: Seq<char>) -> bool {
    files.contains_key(path) && !(files[path] is Directory)
}

/// The names under which a configuration file may stand, relative to the
/// project root, the one that wins first.
pub open spec fn candidate_names() -> Seq<Seq<char>> {
    seq![
        ".lift/config.toml"@,
        ".lift.toml"@,
        ".muse/config.toml"@,
        ".muse.toml"@,
        ".muse/config"@,
    ]
}

/// The path of `name` under `root`: the two with one `/` between them, and
/// none added where `root` is empty or brings its own.
pub open spec fn joined_path(root: Seq<char>, name: Seq<char>) -> Seq<char> {
    if root.len() == 0 || root.last() == '/' {
        root + name
    } else {
        root + seq!['/'] + name
    }
}

/// The places under `root` where a configuration file may stand, the one
/// that wins first.
pub open spec fn candidates(root: Seq<char>) -> Seq<Seq<char>> {
    candidate_names().map_values(|name: Seq<char>| joined_path(root, name))
}

/// The candidates under `root` at which `files` has a regular file, in the
/// order of the candidates.
pub open spec fn present(files: Map<Seq<char>, Entry>, root: Seq<char>) -> Seq<Seq<char>> {
    candidates(root).filter(|path: Seq<char>| is_file(files, path))
}

/// What a search under `root` gives: the candidates that are there, or the
/// complaint that `root` is no directory.
pub open spec fn located(files: Map<Seq<char>, Entry>, root: Seq<char>) -> Result<
    Seq<Seq<char>>,
    Failure,
> {
    if is_dir(files, root) {
        Ok(present(files, root))
    } else {
        Err(Failure::FolderNotFound(root))
    }
}

/// Nothing is left where no item is kept.
proof fn lemma_filter_skips(items: Seq<Seq<char>>, keep: spec_fn(Seq<char>) -> bool)
    requires
        forall|i: int| 0 <= i < items.len() ==> !keep(#[trigger] items[i]),
    ensures
        items.filter(keep) == Seq::<Seq<char>>::empty(),
    decreases items.len(),
{
    reveal(Seq::filter);
    if items.len() > 0 {
        lemma_filter_skips(items.drop_last(), keep);
    }
}

/// The first item that is kept is the first item that is left.
proof fn lemma_filter_first(items: Seq<Seq<char>>, keep: spec_fn(Seq<char>) -> bool, k: int)
    requires
        0 <= k < items.len(),
        keep(items[k]),
        forall|j: int| 0 <= j < k ==> !keep(#[trigger] items[j]),
    ensures
        items.filter(keep).len() >= 1,
        items.filter(keep)[0] == items[k],
    decreases items.len(),
{
    reveal(Seq::filter);
    if k == items.len() - 1 {
        lemma_filter_skips(items.drop_last(), keep);
    } else {
        lemma_filter_first(items.drop_last(), keep, k);
    }
}

/// What is left of items that are all different is all different.
proof fn lemma_filter_distinct(items: Seq<Seq<char>>, keep: spec_fn(Seq<char>) -> bool)
    requires
        items.no_duplicates(),
    ensures
        items.filter(keep).no_duplicates(),
    decreases items.len(),
{
    reveal(Seq::filter);
    if items.len() > 0 {
        let before = items.drop_last();
        lemma_filter_distinct(before, keep);
        if before.filter(keep).contains(items.last()) {
            before.lemma_filter_contains_rev(keep, items.last());
        }
    }
}

/// Two names that differ give two paths that differ under one root.
proof fn lemma_joined_path_tells_apart(root: Seq<char>, a: Seq<char>, b: Seq<char>)
    requires
        a != b,
    ensures
        joined_path(root, a) != joined_path(root, b),
{
    let lead = if root.len() == 0 || root.last() == '/' {
        root
    } else {
        root + seq!['/']
    };
    assert(joined_path(root, a) =~= lead + a);
    assert(joined_path(root, b) =~= lead + b);
    assert((lead + a).subrange(lead.len() as int, (lead + a).len() as int) =~= a);
    assert((lead + b).subrange(lead.len() as int, (lead + b).len() as int) =~= b);
}

/// No candidate stands twice in the list, so no path is found twice.
pub proof fn lemma_present_distinct(files: Map<Seq<char>, Entry>, root: Seq<char>)
    ensures
        candidates(root).no_duplicates(),
        present(files, root).no_duplicates(),
{
    let names = candidate_names();
    assert(names.no_duplicates()) by {
        reveal_strlit(".lift/config.toml");
        reveal_strlit(".lift.toml");
        reveal_strlit(".muse/config.toml");
        reveal_strlit(".muse.toml");
        reveal_strlit(".muse/config");
        assert(names[0].len() == 17 && names[0][1] == 'l');
        assert(names[1].len() == 10 && names[1][1] == 'l');
        assert(names[2].len() == 17 && names[2][1] == 'm');
        assert(names[3].len() == 10 && names[3][1] == 'm');
        assert(names[4].len() == 12);
    }
    assert forall|i: int, j: int|
        0 <= i < candidates(root).len() && 0 <= j < candidates(root).len() && i != j implies candidates(
        root,
    )[i] != candidates(root)[j] by {
        lemma_joined_path_tells_apart(root, names[i], names[j]);
    }
    lemma_filter_distinct(candidates(root), |path: Seq<char>| is_file(files, path));
}

/// A directory that holds none of the candidates has no configuration file:
/// the search finds nothing, and does not fail.
pub proof fn lemma_none_present(files: Map<Seq<char>, Entry>, root: Seq<char>)
    requires
        forall|k: int|
            0 <= k < candidates(root).len() ==> !is_file(files, #[trigger] candidates(root)[k]),
    ensures
        present(files, root) == Seq::<Seq<char>>::empty(),
{
    lemma_filter_skips(candidates(root), |path: Seq<char>| is_file(files, path));
}

/// Of the candidates that are there, the one that comes first in the order
/// of the candidates is found first, whatever else is there.
pub proof fn lemma_first_present(files: Map<Seq<char>, Entry>, root: Seq<char>, k: int)
    requires
        0 <= k < candidates(root).len(),
        is_file(files, candidates(root)[k]),
        forall|j: int| 0 <= j < k ==> !is_file(files, #[trigger] candidates(root)[j]),
    ensures
        present(files, root).len() >= 1,
        present(files, root)[0] == candidates(root)[k],
{
    lemma_filter_first(candidates(root), |path: Seq<char>| is_file(files, path), k);
}

/// The names under which a configuration file may stand: see
/// [`candidate_names`].
pub fn configuration_files() -> (names: Vec<&'static str>)
    ensures
        names.deep_view() == candidate_names(),
{
    let names = vec![
        ".lift/config.toml",
        ".lift.toml",
        ".muse/config.toml",
        ".muse.toml",
        ".muse/config",
    ];
    names
}

/// The path of `name` under `root`: see [`joined_path`].
pub fn join_path(root: &str, name: &str) -> (path: String)
    ensures
        path@ == joined_path(root@, name@),
{
    let n = root.unicode_len();
    let mut path = root.to_owned();
    if n > 0 && root.get_char(n - 1) != '/' {
        proof {
            reveal_strlit("/");
        }
        path.append("/");
    }
    path.append(name);
    path
}

/// The mathematical value of the outcome of a search.
pub open spec fn listing(found: Result<Vec<String>, ConfigError>) -> Result<
    Seq<Seq<char>>,
    Failure,
> {
    match found {
        Ok(paths) => Ok(paths.deep_view()),
        Err(error) => Err(error@),
    }
}

/// Finds the configuration files under the directory `path`: those of the
/// candidates at which there is a regular file, the one that wins first. A
/// directory without any gives an empty list. Where `path` is no directory,
/// the search fails with `FolderNotFound` of that path.
pub fn locate_files(path: &str, files: &Snapshot) -> (found: Result<Vec<String>, ConfigError>)
    ensures
        listing(found) == located(files@, path@),
        !is_dir(files@, path@) ==> listing(found) == Err::<Seq<Seq<char>>, Failure>(
            Failure::FolderNotFound(path@),
        ),
        is_dir(files@, path@) && (forall|k: int|
            0 <= k < candidates(path@).len() ==> !is_file(files@, #[trigger] candidates(path@)[k]))
            ==> listing(found) == Ok::<Seq<Seq<char>>, Failure>(Seq::empty()),
{
    proof {
        if forall|k: int|
            0 <= k < candidates(path@).len() ==> !is_file(files@, #[trigger] candidates(path@)[k]) {
            lemma_none_present(files@, path@);
        }
    }
    if !files.is_dir(path) {
        return Err(ConfigError::FolderNotFound(path.to_owned()));
    }
    let names = configuration_files();
    let ghost places = candidates(path@);
    let ghost there = |place: Seq<char>| is_file(files@, place);
    let mut valid_files: Vec<String> = Vec::new();
    let mut i: usize = 0;
    proof {
        lemma_filter_skips(places.take(0), there);
    }
    while i < names.len()
        invariant
            i <= names.len(),
            names.deep_view() == candidate_names(),
            places == candidates(path@),
            there == |place: Seq<char>| is_file(files@, place),
            valid_files.deep_view() == places.take(i as int).filter(there),
        decreases names.len() - i,
    {
        let place = join_path(path, names[i]);
        proof {
            assert(places.take(i + 1) =~= places.take(i as int).push(place@));
            places.take(i as int).lemma_filter_push(place@, there);
        }
        if files.is_file(place.as_str()) {
            valid_files.push(place);
        }
        i += 1;
    }
    assert(places.take(i as int) =~= places);
    Ok(valid_files)
}

} // verus!
