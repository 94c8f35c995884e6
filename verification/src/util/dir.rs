//! Well-known directories under the game's root, and iteration over
//! file paths gathered from disk.

use vstd::prelude::*;

verus! {

/// `base` and `part` joined with a single path separator.
pub fn path_join(base: &str, part: &str) -> (r: String)
    ensures
        r@ == base@ + "/"@ + part@,
{
    String::from_str(base).concat("/").concat(part)
}

/// Walks a pre-gathered list of file paths in order; the walk over the
/// file system that gathers them happens outside this crate.
pub struct RecursiveDirectoryIterator {
    dirs: Vec<String>,
    idx: usize,
}

impl RecursiveDirectoryIterator {
    pub closed spec fn spec_dirs(self) -> Seq<String> {
        self.dirs@
    }

    pub closed spec fn spec_idx(self) -> int {
        self.idx as int
    }

    /// An iterator over the given paths, from the first.
    pub fn from_paths(dirs: Vec<String>) -> (r: Self)
        ensures
            r.spec_dirs() == dirs@,
            r.spec_idx() == 0,
    {
        RecursiveDirectoryIterator { dirs, idx: 0 }
    }

    /// The next path, until the list is exhausted.
    pub fn next(&mut self) -> (r: Option<String>)
        ensures
            final(self).spec_dirs() == old(self).spec_dirs(),
            old(self).spec_idx() < old(self).spec_dirs().len() ==> {
                &&& r matches Some(p)
                    && p == old(self).spec_dirs()[old(self).spec_idx()]
                &&& final(self).spec_idx() == old(self).spec_idx() + 1
            },
            old(self).spec_idx() >= old(self).spec_dirs().len() ==> r is None
                && final(self).spec_idx() == old(self).spec_idx(),
    {
        if self.idx < self.dirs.len() {
            let p = self.dirs[self.idx].clone();
            self.idx += 1;
            Some(p)
        } else {
            None
        }
    }
}

/// The asset subdirectories under a root.
#[derive(Debug)]
pub struct AssetsDir {
    pub cfg: String,
    pub maps: String,
    pub shaders: String,
    pub textures: String,
    pub ui: String,
}

impl AssetsDir {
    fn new(dir: &str) -> (r: Self)
        ensures
            r.cfg@ == dir@ + "/"@ + "cfg"@,
            r.maps@ == dir@ + "/"@ + "maps"@,
            r.shaders@ == dir@ + "/"@ + "shaders"@,
            r.textures@ == dir@ + "/"@ + "textures"@,
            r.ui@ == dir@ + "/"@ + "ui"@,
    {
        AssetsDir {
            cfg: path_join(dir, "cfg"),
            maps: path_join(dir, "maps"),
            shaders: path_join(dir, "shaders"),
            textures: path_join(dir, "textures"),
            ui: path_join(dir, "ui"),
        }
    }
}

/// The game's directory layout, derived from its root.
#[derive(Debug)]
pub struct Dirs {
    pub root: String,
    pub assets: AssetsDir,
    pub config: String,
}

impl Dirs {
    pub fn new(root: String) -> (r: Self)
        ensures
            r.root@ == root@,
            r.config@ == root@ + "/"@ + "config"@,
            r.assets.cfg@ == root@ + "/"@ + "assets"@ + "/"@ + "cfg"@,
            r.assets.maps@ == root@ + "/"@ + "assets"@ + "/"@ + "maps"@,
            r.assets.shaders@ == root@ + "/"@ + "assets"@ + "/"@ + "shaders"@,
            r.assets.textures@ == root@ + "/"@ + "assets"@ + "/"@ + "textures"@,
            r.assets.ui@ == root@ + "/"@ + "assets"@ + "/"@ + "ui"@,
    {
        let assets_dir = path_join(root.as_str(), "assets");
        Dirs {
            assets: AssetsDir::new(assets_dir.as_str()),
            config: path_join(root.as_str(), "config"),
            root,
        }
    }
}

} // verus!
