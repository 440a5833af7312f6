//! Sets of asset files that come with the program, such as templates: either
//! embedded in the binary with their contents, or known by name and read
//! from a directory when they are needed.

use crate::paths::{join, path_joined};
use crate::text::same_text;
use vstd::prelude::*;

verus! {

/// The first contents listed under `name` among `pairs[from..]`, if any.
pub open spec fn lookup(pairs: Seq<(Seq<char>, Seq<char>)>, name: Seq<char>, from: int) -> Option<
    Seq<char>,
>
    decreases pairs.len() - from,
{
    if from < 0 || from >= pairs.len() {
        None
    } else if pairs[from].0 == name {
        Some(pairs[from].1)
    } else {
        lookup(pairs, name, from + 1)
    }
}

/// The value of an optional string slice.
pub open spec fn opt_str(s: Option<&'static str>) -> Option<Seq<char>> {
    match s {
        Some(s) => Some(s@),
        None => None,
    }
}

/// The values of a list of pairs of string slices.
pub open spec fn pair_views(pairs: Seq<(&'static str, &'static str)>) -> Seq<
    (Seq<char>, Seq<char>),
> {
    pairs.map_values(|p: (&'static str, &'static str)| (p.0@, p.1@))
}

/// The values of a list of string slices.
pub open spec fn str_views(strs: Seq<&'static str>) -> Seq<Seq<char>> {
    strs.map_values(|s: &'static str| s@)
}

/// A list of files: their names, and their contents where they are embedded.
pub trait FileList {
    /// The names of the files, in order.
    spec fn listed(&self) -> Seq<Seq<char>>;

    /// The embedded files, as pairs of a name and contents, in order.
    spec fn embedded(&self) -> Seq<(Seq<char>, Seq<char>)>;

    /// The embedded contents of the first file called `name`.
    fn get(&self, name: &str) -> (contents: Option<&'static str>)
        ensures
            opt_str(contents) == lookup(self.embedded(), name@, 0),
    ;

    /// All the embedded files.
    fn contents(&self) -> (pairs: Vec<(&'static str, &'static str)>)
        ensures
            pair_views(pairs@) == self.embedded(),
    ;

    /// The names of all the files.
    fn names(&self) -> (names: Vec<&'static str>)
        ensures
            str_views(names@) == self.listed(),
    ;
}

/// Files known by name only.
pub struct NameList(pub &'static [&'static str]);

/// Files embedded with their contents.
pub struct ContentList(pub &'static [(&'static str, &'static str)]);

impl FileList for NameList {
    open spec fn listed(&self) -> Seq<Seq<char>> {
        str_views(self.0@)
    }

    open spec fn embedded(&self) -> Seq<(Seq<char>, Seq<char>)> {
        Seq::empty()
    }

    fn get(&self, _name: &str) -> (contents: Option<&'static str>) {
        None
    }

    fn contents(&self) -> (pairs: Vec<(&'static str, &'static str)>) {
        let pairs: Vec<(&'static str, &'static str)> = Vec::new();
        assert(pair_views(pairs@) == Seq::<(Seq<char>, Seq<char>)>::empty());
        pairs
    }

    fn names(&self) -> (names: Vec<&'static str>) {
        let mut names: Vec<&'static str> = Vec::new();
        let mut i: usize = 0;
        while i < self.0.len()
            invariant
                i <= self.0@.len(),
                names@ == self.0@.take(i as int),
            decreases self.0@.len() - i,
        {
            names.push(self.0[i]);
            i += 1;
        }
        assert(names@ == self.0@);
        names
    }
}

impl FileList for ContentList {
    open spec fn listed(&self) -> Seq<Seq<char>> {
        self.0@.map_values(|p: (&'static str, &'static str)| p.0@)
    }

    open spec fn embedded(&self) -> Seq<(Seq<char>, Seq<char>)> {
        pair_views(self.0@)
    }

    fn get(&self, name: &str) -> (contents: Option<&'static str>) {
        let ghost all = pair_views(self.0@);
        let mut i: usize = 0;
        while i < self.0.len()
            invariant
                i <= self.0@.len(),
                all == pair_views(self.0@),
                lookup(all, name@, 0) == lookup(all, name@, i as int),
            decreases self.0@.len() - i,
        {
            assert(all[i as int] == (self.0@[i as int].0@, self.0@[i as int].1@));
            if same_text(self.0[i].0, name) {
                return Some(self.0[i].1);
            }
            i += 1;
        }
        None
    }

    fn contents(&self) -> (pairs: Vec<(&'static str, &'static str)>) {
        let mut pairs: Vec<(&'static str, &'static str)> = Vec::new();
        let mut i: usize = 0;
        while i < self.0.len()
            invariant
                i <= self.0@.len(),
                pairs@ == self.0@.take(i as int),
            decreases self.0@.len() - i,
        {
            pairs.push(self.0[i]);
            i += 1;
        }
        assert(pairs@ == self.0@);
        pairs
    }

    fn names(&self) -> (names: Vec<&'static str>) {
        let mut names: Vec<&'static str> = Vec::new();
        let mut i: usize = 0;
        while i < self.0.len()
            invariant
                i <= self.0@.len(),
                str_views(names@) == self.listed().take(i as int),
            decreases self.0@.len() - i,
        {
            let ghost before = names@;
            names.push(self.0[i].0);
            proof {
                assert(str_views(names@) == str_views(before).push(self.0@[i as int].0@));
                assert(self.listed().take(i + 1) == self.listed().take(i as int).push(
                    self.0@[i as int].0@,
                ));
            }
            i += 1;
        }
        assert(self.listed().take(i as int) == self.listed());
        names
    }
}

/// A set of asset files in a directory.
pub struct Assets<F: FileList> {
    /// The directory path for this set of assets.
    pub dir: &'static str,
    /// The names and (possibly) contents of the assets.
    files: F,
}

/// Asset files embedded in the binary.
pub type EmbeddedAssets = Assets<ContentList>;

/// Asset files read from the file system.
pub type FileAssets = Assets<NameList>;

/// The paths of the files called `names` in the directory `dir`, each with
/// its name.
pub open spec fn asset_paths(dir: Seq<char>, names: Seq<Seq<char>>) -> Seq<
    (Seq<char>, Seq<char>),
> {
    names.map_values(|n: Seq<char>| (n, path_joined(dir, n)))
}

/// The values of a list of pairs of a string slice and a string.
pub open spec fn named_views(pairs: Seq<(&'static str, String)>) -> Seq<(Seq<char>, Seq<char>)> {
    pairs.map_values(|p: (&'static str, String)| (p.0@, p.1@))
}

impl<F: FileList> Assets<F> {
    /// The files of this set.
    pub closed spec fn files(&self) -> F {
        self.files
    }

    /// The directory of this set.
    pub closed spec fn directory(&self) -> Seq<char> {
        self.dir@
    }

    /// Check whether a given asset file is available (embedded or on disk).
    pub fn contains(&self, name: &str) -> (found: bool)
        ensures
            found == self.files().listed().contains(name@),
    {
        let names = self.files.names();
        let ghost all = str_views(names@);
        let mut i: usize = 0;
        while i < names.len()
            invariant
                i <= names@.len(),
                all == str_views(names@),
                all == self.files().listed(),
                forall|j: int| 0 <= j < i ==> all[j] != name@,
            decreases names@.len() - i,
        {
            assert(all[i as int] == names@[i as int]@);
            if same_text(names[i], name) {
                return true;
            }
            i += 1;
        }
        false
    }

    /// The path from which an asset file is read: that of `name` in the
    /// directory of this set; none for a name that is not in the set.
    pub fn read_path(&self, name: &str) -> (path: Option<String>)
        ensures
            match path {
                Some(p) => self.files().listed().contains(name@) && p@ == path_joined(
                    self.directory(),
                    name@,
                ),
                None => !self.files().listed().contains(name@),
            },
    {
        if self.contains(name) {
            Some(join(self.dir, name))
        } else {
            None
        }
    }

    /// All the assets to read from disk: their names, each with the path it
    /// is read from.
    pub fn read_all(&self) -> (paths: Vec<(&'static str, String)>)
        ensures
            named_views(paths@) == asset_paths(self.directory(), self.files().listed()),
    {
        let names = self.files.names();
        let ghost goal = asset_paths(self.dir@, self.files().listed());
        let mut paths: Vec<(&'static str, String)> = Vec::new();
        let mut i: usize = 0;
        while i < names.len()
            invariant
                i <= names@.len(),
                str_views(names@) == self.files().listed(),
                goal == asset_paths(self.dir@, self.files().listed()),
                named_views(paths@) == goal.take(i as int),
            decreases names@.len() - i,
        {
            let ghost before = paths@;
            let name = names[i];
            let path = join(self.dir, name);
            paths.push((name, path));
            proof {
                assert(str_views(names@)[i as int] == name@);
                assert(named_views(paths@) == named_views(before).push((name@, path@)));
                assert(goal.take(i + 1) == goal.take(i as int).push(goal[i as int]));
            }
            i += 1;
        }
        assert(goal.take(i as int) == goal);
        paths
    }

    /// Get the embedded contents of a file. If this is a filesystem-only asset
    /// set, this always returns None.
    pub fn get(&self, name: &str) -> (contents: Option<&'static str>)
        ensures
            opt_str(contents) == lookup(self.files().embedded(), name@, 0),
    {
        self.files.get(name)
    }

    /// Get all the embedded files, as `(name, contents)` pairs. If this is a
    /// filesystem-only asset set, this is always empty.
    pub fn contents(&self) -> (pairs: Vec<(&'static str, &'static str)>)
        ensures
            pair_views(pairs@) == self.files().embedded(),
    {
        self.files.contents()
    }
}

impl Assets<ContentList> {
    /// A set of embedded assets.
    pub fn new(dir: &'static str, contents: ContentList) -> (assets: Self)
        ensures
            assets.directory() == dir@,
            assets.files() == contents,
    {
        Self { dir, files: contents }
    }
}

impl Assets<NameList> {
    /// A set of assets in the file system.
    pub fn new(dir: &'static str, names: NameList) -> (assets: Self)
        ensures
            assets.directory() == dir@,
            assets.files() == names,
    {
        Self { dir, files: names }
    }
}

} // verus!
