//! Directory layout of the installed game, dotted ids derived from
//! relative paths, and iteration over pre-gathered directory listings.
//! Walking the file system itself happens outside this crate and hands
//! these types plain path strings.

use vstd::prelude::*;
use crate::util::dir::path_join;

verus! {

/// The configuration subdirectories.
#[derive(Debug)]
pub struct ConfigDir {
    pub animations: String,
    pub entities: String,
    pub models: String,
    pub shaders: String,
    pub textures: String,
}

impl ConfigDir {
    fn new(dir: &str) -> (r: Self)
        ensures
            r.animations@ == dir@ + "/"@ + "animations"@,
            r.entities@ == dir@ + "/"@ + "entities"@,
            r.models@ == dir@ + "/"@ + "models"@,
            r.shaders@ == dir@ + "/"@ + "shaders"@,
            r.textures@ == dir@ + "/"@ + "textures"@,
    {
        ConfigDir {
            animations: path_join(dir, "animations"),
            entities: path_join(dir, "entities"),
            models: path_join(dir, "models"),
            shaders: path_join(dir, "shaders"),
            textures: path_join(dir, "textures"),
        }
    }
}

/// The asset subdirectories, configuration included.
#[derive(Debug)]
pub struct AssetsDir {
    pub cfg: ConfigDir,
    pub maps: String,
    pub shaders: String,
    pub textures: String,
    pub ui: String,
    pub scripts: String,
}

impl AssetsDir {
    fn new(dir: &str) -> (r: Self)
        ensures
            r.cfg.entities@ == dir@ + "/"@ + "cfg"@ + "/"@ + "entities"@,
            r.maps@ == dir@ + "/"@ + "maps"@,
            r.shaders@ == dir@ + "/"@ + "shaders"@,
            r.textures@ == dir@ + "/"@ + "textures"@,
            r.ui@ == dir@ + "/"@ + "ui"@,
            r.scripts@ == dir@ + "/"@ + "scripts"@,
    {
        let cfg_dir = path_join(dir, "cfg");
        AssetsDir {
            cfg: ConfigDir::new(cfg_dir.as_str()),
            maps: path_join(dir, "maps"),
            shaders: path_join(dir, "shaders"),
            textures: path_join(dir, "textures"),
            ui: path_join(dir, "ui"),
            scripts: path_join(dir, "scripts"),
        }
    }
}

/// The game's directory layout, derived from its root.
#[derive(Debug)]
pub struct Dirs {
    pub root: String,
    pub assets: AssetsDir,
    pub config: String,
}

impl Dirs {
    pub fn new(root: String) -> (r: Self)
        ensures
            r.root@ == root@,
            r.config@ == root@ + "/"@ + "config"@,
            r.assets.maps@ == root@ + "/"@ + "assets"@ + "/"@ + "maps"@,
            r.assets.cfg.entities@
                == root@ + "/"@ + "assets"@ + "/"@ + "cfg"@ + "/"@ + "entities"@,
    {
        let assets_dir = path_join(root.as_str(), "assets");
        Dirs {
            assets: AssetsDir::new(assets_dir.as_str()),
            config: path_join(root.as_str(), "config"),
            root,
        }
    }
}

/// A dotted identifier derived from a relative path: the path's parts
/// joined with dots.
#[derive(Default, Debug, PartialEq, PartialOrd, Eq)]
pub struct DirID {
    id: String,
}

impl DirID {
    pub closed spec fn spec_id(self) -> Seq<char> {
        self.id@
    }

    /// An id over the given dotted text.
    pub fn from_text(id: String) -> (r: Self)
        ensures
            r.spec_id() == id@,
    {
        DirID { id }
    }

    /// The dotted text of this id.
    pub fn id(&self) -> (r: &String)
        ensures
            r@ == self.spec_id(),
    {
        &self.id
    }

    /// This id with one more dotted part appended.
    pub fn extend(&self, s: &str) -> (r: Self)
        ensures
            r.spec_id() == self.spec_id() + "."@ + s@,
    {
        DirID { id: self.id.clone().concat(".").concat(s) }
    }
}

/// Walks a pre-gathered list of file paths in order.
pub struct RecursiveDirIterator {
    dirs: Vec<String>,
    idx: usize,
}

impl RecursiveDirIterator {
    pub closed spec fn spec_dirs(self) -> Seq<String> {
        self.dirs@
    }

    pub closed spec fn spec_idx(self) -> int {
        self.idx as int
    }

    /// An iterator over the given paths, from the first.
    pub fn from_paths(dirs: Vec<String>) -> (r: Self)
        ensures
            r.spec_dirs() == dirs@,
            r.spec_idx() == 0,
    {
        RecursiveDirIterator { dirs, idx: 0 }
    }

    /// The next path, until the list is exhausted.
    pub fn next(&mut self) -> (r: Option<String>)
        ensures
            final(self).spec_dirs() == old(self).spec_dirs(),
            old(self).spec_idx() < old(self).spec_dirs().len() ==> {
                &&& r matches Some(p)
                    && p == old(self).spec_dirs()[old(self).spec_idx()]
                &&& final(self).spec_idx() == old(self).spec_idx() + 1
            },
            old(self).spec_idx() >= old(self).spec_dirs().len() ==> r is None
                && final(self).spec_idx() == old(self).spec_idx(),
    {
        if self.idx < self.dirs.len() {
            let p = self.dirs[self.idx].clone();
            self.idx += 1;
            Some(p)
        } else {
            None
        }
    }
}

/// Walks a pre-gathered list of file paths paired with their dotted ids.
pub struct RecursiveDirIteratorWithID {
    dirs: Vec<(String, DirID)>,
    idx: usize,
}

impl RecursiveDirIteratorWithID {
    pub closed spec fn spec_dirs(self) -> Seq<(String, DirID)> {
        self.dirs@
    }

    pub closed spec fn spec_idx(self) -> int {
        self.idx as int
    }

    /// An iterator over the given entries, from the first.
    pub fn from_entries(dirs: Vec<(String, DirID)>) -> (r: Self)
        ensures
            r.spec_dirs() == dirs@,
            r.spec_idx() == 0,
    {
        RecursiveDirIteratorWithID { dirs, idx: 0 }
    }

    /// The next path and id, until the list is exhausted.
    pub fn next(&mut self) -> (r: Option<(String, DirID)>)
        ensures
            final(self).spec_dirs() == old(self).spec_dirs(),
            old(self).spec_idx() < old(self).spec_dirs().len() ==> {
                &&& r matches Some(p)
                    && p.0 == old(self).spec_dirs()[old(self).spec_idx()].0
                    && p.1.spec_id()
                        == old(self).spec_dirs()[old(self).spec_idx()].1.spec_id()
                &&& final(self).spec_idx() == old(self).spec_idx() + 1
            },
            old(self).spec_idx() >= old(self).spec_dirs().len() ==> r is None
                && final(self).spec_idx() == old(self).spec_idx(),
    {
        if self.idx < self.dirs.len() {
            let p = self.dirs[self.idx].0.clone();
            let id = DirID { id: self.dirs[self.idx].1.id.clone() };
            self.idx += 1;
            Some((p, id))
        } else {
            None
        }
    }
}

} // verus!
