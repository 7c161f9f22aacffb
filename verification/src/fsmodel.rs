//! A value-level model of the few filesystem facts the install/sync logic
//! reads and writes: which path holds which bytes under which mode. The
//! shell around the library loads real files into this model and applies
//! the model's changes back to disk.

use vstd::prelude::*;
use vstd::string::*;
use crate::strutil::str_eq;

verus! {

/// One regular file: its path, contents and permission mode.
pub struct FsFile {
    pub path: String,
    pub bytes: Vec<u8>,
    pub mode: u32,
}

/// A filesystem fragment as a value: a list of files, later entries
/// overriding earlier ones with the same path.
pub struct FsModel {
    pub files: Vec<FsFile>,
}

/// What a filesystem fragment denotes: path to contents and mode.
pub type FsMap = Map<Seq<char>, (Seq<u8>, u32)>;

/// The map a file list denotes: path to contents and mode, last entry wins.
pub open spec fn map_of(files: Seq<FsFile>) -> Map<Seq<char>, (Seq<u8>, u32)>
    decreases files.len(),
{
    if files.len() == 0 {
        Map::empty()
    } else {
        map_of(files.drop_last()).insert(
            files.last().path@,
            (files.last().bytes@, files.last().mode),
        )
    }
}

proof fn lemma_map_of_no_match(files: Seq<FsFile>, p: Seq<char>)
    requires
        forall|j: int| 0 <= j < files.len() ==> files[j].path@ != p,
    ensures
        !map_of(files).dom().contains(p),
    decreases files.len(),
{
    if files.len() > 0 {
        lemma_map_of_no_match(files.drop_last(), p);
    }
}

proof fn lemma_map_of_last_match(files: Seq<FsFile>, p: Seq<char>, k: int)
    requires
        0 <= k < files.len(),
        files[k].path@ == p,
        forall|j: int| k < j < files.len() ==> files[j].path@ != p,
    ensures
        map_of(files).dom().contains(p),
        map_of(files)[p] == (files[k].bytes@, files[k].mode),
    decreases files.len(),
{
    if k < files.len() - 1 {
        lemma_map_of_last_match(files.drop_last(), p, k);
    }
}

impl FsModel {
    /// The map of paths to file contents and modes that this model denotes.
    pub open spec fn as_map(&self) -> Map<Seq<char>, (Seq<u8>, u32)> {
        map_of(self.files@)
    }

    /// An empty filesystem model.
    pub fn new() -> (r: FsModel)
        ensures
            r.as_map() == Map::<Seq<char>, (Seq<u8>, u32)>::empty(),
    {
        FsModel { files: Vec::new() }
    }

    /// Existence check for a path.
    pub fn contains_path(&self, path: &str) -> (r: bool)
        ensures
            r == self.as_map().dom().contains(path@),
    {
        let mut i: usize = self.files.len();
        loop
            invariant
                0 <= i <= self.files.len(),
                forall|j: int| i <= j < self.files@.len() ==> self.files@[j].path@ != path@,
            decreases i,
        {
            if i == 0 {
                proof {
                    lemma_map_of_no_match(self.files@, path@);
                }
                return false;
            }
            if str_eq(self.files[i - 1].path.as_str(), path) {
                proof {
                    lemma_map_of_last_match(self.files@, path@, i - 1);
                }
                return true;
            }
            i = i - 1;
        }
    }

    /// Looks a path up, returning the file that the model holds there.
    pub fn read(&self, path: &str) -> (r: Option<&FsFile>)
        ensures
            match r {
                Some(f) => self.as_map().dom().contains(path@) && f.path@ == path@
                    && self.as_map()[path@] == (f.bytes@, f.mode),
                None => !self.as_map().dom().contains(path@),
            },
    {
        let mut i: usize = self.files.len();
        loop
            invariant
                0 <= i <= self.files.len(),
                forall|j: int| i <= j < self.files@.len() ==> self.files@[j].path@ != path@,
            decreases i,
        {
            if i == 0 {
                proof {
                    lemma_map_of_no_match(self.files@, path@);
                }
                return None;
            }
            if str_eq(self.files[i - 1].path.as_str(), path) {
                proof {
                    lemma_map_of_last_match(self.files@, path@, i - 1);
                }
                return Some(&self.files[i - 1]);
            }
            i = i - 1;
        }
    }

    /// Writes a file: afterwards the model maps the path to exactly the
    /// given bytes and mode, and no other path changes.
    pub fn write(&mut self, path: &str, bytes: Vec<u8>, mode: u32)
        ensures
            final(self).as_map() == old(self).as_map().insert(path@, (bytes@, mode)),
    {
        let entry = FsFile { path: String::from_str(path), bytes, mode };
        proof {
            assert(self.files@.push(entry).drop_last() =~= self.files@);
        }
        self.files.push(entry);
    }
}

/// Copies a byte vector; the copy holds exactly the same bytes.
pub fn copy_bytes(src: &Vec<u8>) -> (r: Vec<u8>)
    ensures
        r@ == src@,
{
    let mut out: Vec<u8> = Vec::new();
    let mut i: usize = 0;
    while i < src.len()
        invariant
            0 <= i <= src@.len(),
            out@ =~= src@.take(i as int),
        decreases src@.len() - i,
    {
        out.push(src[i]);
        i = i + 1;
    }
    proof {
        assert(out@ =~= src@);
    }
    out
}

} // verus!
