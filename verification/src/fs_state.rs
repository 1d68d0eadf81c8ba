//! An explicit model of the slice of the filesystem the pipeline mutates.
//!
//! The pipeline's observable effect is a set of sidecar files next to the
//! scanned tracks. [`FsState`] holds that state as a finite map from paths to
//! file contents, so every sidecar transition can be stated and proved over
//! [`Map`]. The unverified binary performs the same transitions on the real
//! filesystem, in the order the verified pipeline prescribes.

use vstd::prelude::*;

verus! {

/// One file: its path and its textual contents.
pub struct FsFile {
    pub path: String,
    pub contents: String,
}

/// The failures the filesystem model can report. Deleting a missing file
/// reports [`FsError::NotFound`]; creating a file that is already present
/// reports [`FsError::AlreadyExists`]. Both are benign for the sidecar
/// writer, which treats them as idempotent outcomes.
#[derive(Clone, Copy, Debug, PartialEq, Eq, Structural)]
pub enum FsError {
    NotFound,
    AlreadyExists,
}

/// A finite map from paths to file contents, stored as a vector of files
/// with pairwise distinct paths.
pub struct FsState {
    files: Vec<FsFile>,
}

/// The mathematical reading of a file list: later entries shadow earlier
/// ones, though a well-formed [`FsState`] never contains a duplicate path.
pub open spec fn files_as_map(s: Seq<FsFile>) -> Map<Seq<char>, Seq<char>>
    decreases s.len(),
{
    if s.len() == 0 {
        Map::empty()
    } else {
        files_as_map(s.drop_last()).insert(s.last().path@, s.last().contents@)
    }
}

/// No two entries share a path.
pub open spec fn paths_distinct(s: Seq<FsFile>) -> bool {
    forall|i: int, j: int|
        0 <= i < j < s.len() ==> s[i].path@ != s[j].path@
}

/// A path is in the map's domain exactly when some entry carries it.
proof fn lemma_files_as_map_contains(s: Seq<FsFile>, p: Seq<char>)
    ensures
        files_as_map(s).dom().contains(p) <==> exists|i: int|
            0 <= i < s.len() && s[i].path@ == p,
    decreases s.len(),
{
    if s.len() > 0 {
        lemma_files_as_map_contains(s.drop_last(), p);
        if s.last().path@ == p {
            assert(s[s.len() - 1].path@ == p);
        } else if files_as_map(s).dom().contains(p) {
            let i = choose|i: int| 0 <= i < s.drop_last().len() && s.drop_last()[i].path@ == p;
            assert(s[i].path@ == p);
        } else if exists|i: int| 0 <= i < s.len() && s[i].path@ == p {
            let i = choose|i: int| 0 <= i < s.len() && s[i].path@ == p;
            assert(s.drop_last()[i].path@ == p);
        }
    }
}

/// Under distinctness, the map agrees with each entry.
proof fn lemma_files_as_map_index(s: Seq<FsFile>, i: int)
    requires
        paths_distinct(s),
        0 <= i < s.len(),
    ensures
        files_as_map(s).dom().contains(s[i].path@),
        files_as_map(s)[s[i].path@] == s[i].contents@,
    decreases s.len(),
{
    if i < s.len() - 1 {
        lemma_files_as_map_index(s.drop_last(), i);
        assert(s.drop_last()[i] == s[i]);
    }
}

/// Replacing the contents at one index is an insert on the map.
proof fn lemma_files_as_map_update(s: Seq<FsFile>, i: int, f: FsFile)
    requires
        paths_distinct(s),
        0 <= i < s.len(),
        f.path@ == s[i].path@,
    ensures
        files_as_map(s.update(i, f)) =~= files_as_map(s).insert(f.path@, f.contents@),
    decreases s.len(),
{
    let t = s.update(i, f);
    if i == s.len() - 1 {
        assert(t.drop_last() =~= s.drop_last());
    } else {
        assert(t.drop_last() =~= s.drop_last().update(i, f));
        assert(t.last() == s.last());
        lemma_files_as_map_update(s.drop_last(), i, f);
        assert(s.drop_last()[i] == s[i]);
    }
}

/// Deleting one entry is a remove on the map.
proof fn lemma_files_as_map_remove(s: Seq<FsFile>, i: int)
    requires
        paths_distinct(s),
        0 <= i < s.len(),
    ensures
        files_as_map(s.remove(i)) =~= files_as_map(s).remove(s[i].path@),
    decreases s.len(),
{
    let p = s[i].path@;
    if i == s.len() - 1 {
        assert(s.remove(i) =~= s.drop_last());
        lemma_files_as_map_contains(s.drop_last(), p);
        assert(forall|j: int|
            0 <= j < s.drop_last().len() ==> s.drop_last()[j].path@ != p);
        assert(!files_as_map(s.drop_last()).dom().contains(p));
        assert(files_as_map(s.drop_last()).insert(p, s[i].contents@).remove(p)
            =~= files_as_map(s.drop_last()));
    } else {
        let t = s.remove(i);
        assert(t.drop_last() =~= s.drop_last().remove(i));
        assert(t.last() == s.last());
        lemma_files_as_map_remove(s.drop_last(), i);
        assert(s.drop_last()[i] == s[i]);
        assert(s.last().path@ != p);
    }
}

impl View for FsState {
    type V = Map<Seq<char>, Seq<char>>;

    closed spec fn view(&self) -> Map<Seq<char>, Seq<char>> {
        files_as_map(self.files@)
    }
}

impl FsState {
    /// Entries never repeat a path, so the vector and its map agree.
    pub closed spec fn wf(&self) -> bool {
        paths_distinct(self.files@)
    }

    /// An empty filesystem.
    pub fn new() -> (r: FsState)
        ensures
            r.wf(),
            r@ == Map::<Seq<char>, Seq<char>>::empty(),
    {
        FsState { files: Vec::new() }
    }

    /// Index of the entry carrying `path`, when one exists.
    fn find(&self, path: &String) -> (r: Option<usize>)
        requires
            self.wf(),
        ensures
            match r {
                Some(i) => i < self.files@.len() && self.files@[i as int].path@ == path@
                    && self@.dom().contains(path@),
                None => !self@.dom().contains(path@),
            },
    {
        let n = self.files.len();
        let mut i: usize = 0;
        while i < n
            invariant
                n == self.files@.len(),
                i <= n,
                self.wf(),
                forall|j: int| 0 <= j < i ==> self.files@[j].path@ != path@,
            decreases n - i,
        {
            if self.files[i].path == *path {
                proof {
                    lemma_files_as_map_index(self.files@, i as int);
                }
                return Some(i);
            }
            i += 1;
        }
        proof {
            lemma_files_as_map_contains(self.files@, path@);
        }
        None
    }

    /// Whether a file exists at `path`.
    pub fn contains_path(&self, path: &String) -> (r: bool)
        requires
            self.wf(),
        ensures
            r == self@.dom().contains(path@),
    {
        self.find(path).is_some()
    }

    /// The contents of the file at `path`, when one exists.
    pub fn read(&self, path: &String) -> (r: Option<&String>)
        requires
            self.wf(),
        ensures
            match r {
                Some(c) => self@.dom().contains(path@) && c@ == self@[path@],
                None => !self@.dom().contains(path@),
            },
    {
        match self.find(path) {
            Some(i) => {
                proof {
                    lemma_files_as_map_index(self.files@, i as int);
                }
                Some(&self.files[i].contents)
            },
            None => None,
        }
    }

    /// Write `contents` to `path`, creating the file or replacing what was
    /// there.
    pub fn write(&mut self, path: String, contents: String)
        requires
            old(self).wf(),
        ensures
            final(self).wf(),
            final(self)@ == old(self)@.insert(path@, contents@),
    {
        match self.find(&path) {
            Some(i) => {
                proof {
                    lemma_files_as_map_update(
                        self.files@,
                        i as int,
                        FsFile { path: path, contents: contents },
                    );
                }
                self.files.set(i, FsFile { path, contents });
            },
            None => {
                proof {
                    lemma_files_as_map_contains(self.files@, path@);
                }
                self.files.push(FsFile { path, contents });
                proof {
                    assert(self.files@.drop_last() =~= old(self).files@);
                    assert(forall|j: int|
                        0 <= j < old(self).files@.len()
                            ==> old(self).files@[j].path@ != path@);
                }
            },
        }
    }

    /// Create the file at `path` only when nothing exists there; report
    /// [`FsError::AlreadyExists`], changing nothing, otherwise.
    pub fn create_new(&mut self, path: String, contents: String) -> (r: Result<(), FsError>)
        requires
            old(self).wf(),
        ensures
            final(self).wf(),
            match r {
                Ok(()) => !old(self)@.dom().contains(path@)
                    && final(self)@ == old(self)@.insert(path@, contents@),
                Err(e) => e == FsError::AlreadyExists
                    && old(self)@.dom().contains(path@)
                    && final(self)@ == old(self)@,
            },
    {
        match self.find(&path) {
            Some(_) => Err(FsError::AlreadyExists),
            None => {
                proof {
                    lemma_files_as_map_contains(self.files@, path@);
                }
                self.files.push(FsFile { path, contents });
                proof {
                    assert(self.files@.drop_last() =~= old(self).files@);
                    assert(forall|j: int|
                        0 <= j < old(self).files@.len()
                            ==> old(self).files@[j].path@ != path@);
                }
                Ok(())
            },
        }
    }

    /// Delete the file at `path`; report [`FsError::NotFound`], changing
    /// nothing, when no file is there.
    pub fn remove_file(&mut self, path: &String) -> (r: Result<(), FsError>)
        requires
            old(self).wf(),
        ensures
            final(self).wf(),
            match r {
                Ok(()) => old(self)@.dom().contains(path@)
                    && final(self)@ == old(self)@.remove(path@),
                Err(e) => e == FsError::NotFound
                    && !old(self)@.dom().contains(path@)
                    && final(self)@ == old(self)@,
            },
    {
        match self.find(path) {
            Some(i) => {
                proof {
                    lemma_files_as_map_remove(self.files@, i as int);
                }
                self.files.remove(i);
                Ok(())
            },
            None => Err(FsError::NotFound),
        }
    }
}

} // verus!
