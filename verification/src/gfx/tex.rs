//! Images contributed by plugins and the texture archive built from them.
//!
//! An image is a name plus raw RGBA pixel data, rows top-first. Turning an
//! image into a texture flips the rows bottom-first — the layout the
//! graphics backend expects for upload — and fails exactly when the pixel
//! buffer does not match the stated dimensions.

use vstd::prelude::*;
use crate::util::storage::NameMap;

verus! {

/// Failure while turning an image into a texture.
#[derive(Debug)]
pub enum TextureLoadError {
    Standard(String),
}

impl TextureLoadError {
    pub open spec fn spec_message(&self) -> Seq<char> {
        match self {
            TextureLoadError::Standard(msg) => msg@,
        }
    }

    /// The human-readable message carried by this error.
    pub fn message(&self) -> (r: &String)
        ensures
            r@ == self.spec_message(),
    {
        match self {
            TextureLoadError::Standard(msg) => msg,
        }
    }
}

/// A decoded image: RGBA bytes, four per pixel, rows top-first.
pub struct Image {
    pub width: u32,
    pub height: u32,
    pub pixels: Vec<u8>,
}

impl Image {
    /// The pixel buffer holds exactly four bytes per stated pixel.
    pub open spec fn spec_valid(self) -> bool {
        self.pixels@.len() == 4 * (self.width as nat) * (self.height as nat)
    }
}

/// A texture ready for the backend: same bytes as the source image with
/// the row order reversed.
pub struct Texture {
    pub width: u32,
    pub height: u32,
    pub data: Vec<u8>,
}

/// The bytes of `img` with rows in reverse order.
pub open spec fn spec_flipped_rows(img: Image) -> Seq<u8> {
    let stride = 4 * (img.width as int);
    Seq::new(
        img.pixels@.len(),
        |p: int| img.pixels@[(img.height - 1 - p / stride) * stride + p % stride],
    )
}

/// Number of images among the first `upto` archive entries whose pixel
/// buffer does not match their stated dimensions.
pub open spec fn spec_invalid_count(m: NameMap<Image>, upto: int) -> int
    decreases upto,
{
    if upto <= 0 {
        0
    } else {
        spec_invalid_count(m, upto - 1) + if m.val_at(upto - 1).spec_valid() {
            0int
        } else {
            1int
        }
    }
}

proof fn lemma_invalid_count_zero(m: NameMap<Image>, upto: int)
    requires
        0 <= upto,
    ensures
        spec_invalid_count(m, upto) >= 0,
        (spec_invalid_count(m, upto) == 0) <==> (forall|j: int| 0 <= j < upto
            ==> m.val_at(j).spec_valid()),
    decreases upto,
{
    if upto > 0 {
        lemma_invalid_count_zero(m, upto - 1);
    }
}

/// Turns one image into a texture: the same bytes with the row order
/// reversed. Fails exactly when the pixel buffer does not hold four
/// bytes per stated pixel.
fn texture_from_image(id: &str, img: &Image) -> (r: Result<Texture, TextureLoadError>)
    ensures
        r is Ok <==> img.spec_valid(),
        r matches Ok(t) ==> t.width == img.width && t.height == img.height
            && t.data@ == spec_flipped_rows(*img),
        r matches Err(e) ==> e.spec_message() == "could not convert "@ + id@
            + " to srgb tex"@,
{
    let len = img.pixels.len();
    proof {
        assert((img.width as int) * (img.height as int) <= u64::MAX) by (nonlinear_arith)
            requires
                img.width <= u32::MAX,
                img.height <= u32::MAX,
        {}
    }
    let wh = (img.width as u64) * (img.height as u64);
    proof {
        assert((len == 4 * (img.width as int) * (img.height as int))
            <==> (len % 4 == 0 && len / 4 == wh)) by (nonlinear_arith)
            requires
                wh == (img.width as int) * (img.height as int),
                len >= 0,
        {}
        assert(img.spec_valid() <==> (len == 4 * (img.width as int) * (img.height as int)));
    }
    if !(len % 4 == 0 && (len / 4) as u64 == wh) {
        return Err(TextureLoadError::Standard(
            String::from_str("could not convert ").concat(id).concat(" to srgb tex"),
        ));
    }
    let data = flip_rows(img);
    Ok(Texture { width: img.width, height: img.height, data })
}

/// The image's bytes with rows in reverse order, built row by row.
fn flip_rows(img: &Image) -> (r: Vec<u8>)
    requires
        img.spec_valid(),
    ensures
        r@ == spec_flipped_rows(*img),
{
    let mut data: Vec<u8> = Vec::new();
    let h = img.height as usize;
    let plen = img.pixels.len();
    if h == 0 {
        proof {
            assert(img.pixels@.len() == 0) by (nonlinear_arith)
                requires
                    img.pixels@.len() == 4 * (img.width as int) * (img.height as int),
                    img.height == 0,
            {}
            assert(data@ =~= spec_flipped_rows(*img));
        }
        return data;
    }
    proof {
        assert(4 * (img.width as int) <= img.pixels@.len()) by (nonlinear_arith)
            requires
                4 * (img.width as int) * (img.height as int) == img.pixels@.len(),
                img.height >= 1,
        {}
    }
    let w4 = 4 * (img.width as usize);
    let ghost stride = 4 * (img.width as int);
    let mut row: usize = 0;
    while row < h
        invariant
            h == img.height as int,
            h >= 1,
            plen == img.pixels@.len(),
            w4 == stride,
            stride == 4 * (img.width as int),
            stride * h == plen,
            row <= h,
            data@.len() == row * stride,
            forall|p: int| 0 <= p < data@.len() ==> data@[p] == spec_flipped_rows(*img)[p],
        decreases h - row,
    {
        proof {
            assert(((h - 1 - row) as int) * stride + stride <= plen
                && (row * stride) + stride <= plen) by (nonlinear_arith)
                requires
                    stride * h == plen,
                    0 <= row < h,
                    0 <= stride,
            {}
        }
        let src_base = (h - 1 - row) * w4;
        let mut c: usize = 0;
        while c < w4
            invariant
                h == img.height as int,
                plen == img.pixels@.len(),
                w4 == stride,
                stride == 4 * (img.width as int),
                stride * h == plen,
                0 <= row < h,
                src_base == (h - 1 - row) * stride,
                src_base + stride <= plen,
                (row * stride) + stride <= plen,
                c <= w4,
                data@.len() == row * stride + c,
                forall|p: int| 0 <= p < data@.len() ==> data@[p] == spec_flipped_rows(*img)[p],
            decreases w4 - c,
        {
            let b = img.pixels[src_base + c];
            data.push(b);
            proof {
                let p0 = row * stride + c;
                assert(0 <= p0 < plen);
                vstd::arithmetic::div_mod::lemma_fundamental_div_mod_converse(
                    p0, stride, row as int, c as int);
                assert(p0 / stride == row && p0 % stride == c);
                assert((img.height - 1 - p0 / stride) * stride + p0 % stride
                    == src_base + c);
                assert(spec_flipped_rows(*img)[p0] == img.pixels@[src_base + c]);
                assert(data@[p0] == img.pixels@[src_base + c]);
            }
            c += 1;
        }
        row += 1;
        proof {
            assert(data@.len() == (row - 1) * stride + stride);
            assert((row - 1) * stride + stride == row * stride) by (nonlinear_arith) {}
        }
    }
    proof {
        assert(data@.len() == plen) by (nonlinear_arith)
            requires
                data@.len() == row * stride,
                row == h,
                stride * h == plen,
        {}
        assert(data@ =~= spec_flipped_rows(*img));
    }
    data
}

/// Images registered by a plugin, keyed by name.
pub struct ImageArchive {
    pub(crate) images: NameMap<Image>,
}

impl ImageArchive {
    pub closed spec fn wf(self) -> bool {
        self.images.wf()
    }

    pub closed spec fn spec_images(self) -> NameMap<Image> {
        self.images
    }

    pub fn new() -> (r: Self)
        ensures
            r.wf(),
            r.spec_images().len() == 0,
    {
        ImageArchive { images: NameMap::new() }
    }
}

impl Default for ImageArchive {
    fn default() -> (r: Self)
        ensures
            r.wf(),
            r.spec_images().len() == 0,
    {
        ImageArchive { images: NameMap::new() }
    }
}

/// Textures built out of plugin images, keyed by name and ready for the
/// backend to upload.
pub struct TextureArchive {
    textures: NameMap<std::rc::Rc<Texture>>,
}

impl TextureArchive {
    pub closed spec fn wf(self) -> bool {
        self.textures.wf()
    }

    pub closed spec fn spec_textures(self) -> NameMap<std::rc::Rc<Texture>> {
        self.textures
    }

    pub open spec fn has_texture(self, name: Seq<char>) -> bool {
        self.spec_textures().has_key(name)
    }

    pub open spec fn texture_of(self, name: Seq<char>) -> std::rc::Rc<Texture> {
        self.spec_textures().spec_get(name)->Some_0
    }

    pub fn new() -> (r: Self)
        ensures
            r.wf(),
            r.spec_textures().len() == 0,
    {
        TextureArchive { textures: NameMap::new() }
    }

    /// Converts every image of the archive into a texture under the same
    /// name, with its rows flipped for upload. An image whose pixel
    /// buffer does not match its dimensions contributes an error instead
    /// of a texture; the call succeeds exactly when every image converted.
    pub fn add_image_archive(&mut self, archive: ImageArchive) -> (r: Result<
        (),
        Vec<TextureLoadError>,
    >)
        requires
            old(self).wf(),
            archive.wf(),
        ensures
            final(self).wf(),
            r is Ok <==> (forall|j: int| 0 <= j < archive.spec_images().len()
                ==> archive.spec_images().val_at(j).spec_valid()),
            forall|k: Seq<char>| #[trigger] archive.spec_images().has_key(k)
                && archive.spec_images().spec_get(k)->Some_0.spec_valid() ==> {
                &&& final(self).has_texture(k)
                &&& final(self).texture_of(k) == (Texture {
                    width: archive.spec_images().spec_get(k)->Some_0.width,
                    height: archive.spec_images().spec_get(k)->Some_0.height,
                    data: final(self).texture_of(k).data,
                })
                &&& final(self).texture_of(k).data@
                    == spec_flipped_rows(archive.spec_images().spec_get(k)->Some_0)
            },
            forall|k: Seq<char>| !archive.spec_images().has_key(k) ==>
                final(self).spec_textures().spec_get(k)
                    == old(self).spec_textures().spec_get(k),
            r matches Err(errs) ==> errs@.len()
                == spec_invalid_count(archive.spec_images(), archive.spec_images().len() as int)
                && errs@.len() > 0,
    {
        let ghost arch = archive.spec_images();
        let ghost n = arch.len() as int;
        let mut errors: Vec<TextureLoadError> = Vec::new();
        let count = archive.images.count();
        let mut i: usize = 0;
        while i < count
            invariant
                self.wf(),
                arch.wf(),
                arch == archive.spec_images(),
                n == arch.len(),
                count == n,
                i <= count,
                errors@.len() == spec_invalid_count(arch, i as int),
                forall|j: int| 0 <= j < i && arch.val_at(j).spec_valid() ==> {
                    &&& self.spec_textures().has_key(arch.key_at(j))
                    &&& self.spec_textures().spec_get(arch.key_at(j)) matches Some(t)
                        && t.width == arch.val_at(j).width
                        && t.height == arch.val_at(j).height
                        && t.data@ == spec_flipped_rows(arch.val_at(j))
                },
                forall|k: Seq<char>| (forall|j: int| 0 <= j < n ==> arch.key_at(j) != k) ==>
                    self.spec_textures().spec_get(k)
                        == old(self).spec_textures().spec_get(k),
            decreases count - i,
        {
            let key = archive.images.key_index(i).clone();
            let img = archive.images.val_index(i);
            let ghost prev = *self;
            let converted = texture_from_image(key.as_str(), img);
            match converted {
                Ok(tex) => {
                    proof {
                        arch.lemma_idx_unique(key@, i as int);
                    }
                    self.textures.insert(key, std::rc::Rc::new(tex));
                    proof {
                        assert forall|j: int| 0 <= j < i + 1 && arch.val_at(j).spec_valid()
                            implies {
                            &&& self.spec_textures().has_key(arch.key_at(j))
                            &&& self.spec_textures().spec_get(arch.key_at(j)) matches Some(t)
                                && t.width == arch.val_at(j).width
                                && t.height == arch.val_at(j).height
                                && t.data@ == spec_flipped_rows(arch.val_at(j))
                        } by {
                            if j < i {
                                assert(arch.key_at(j) != arch.key_at(i as int));
                                assert(self.spec_textures().spec_get(arch.key_at(j))
                                    == prev.spec_textures().spec_get(arch.key_at(j)));
                            }
                        }
                        assert forall|k: Seq<char>| (forall|j: int| 0 <= j < n
                            ==> arch.key_at(j) != k) implies
                            self.spec_textures().spec_get(k)
                                == old(self).spec_textures().spec_get(k) by {
                            assert(arch.key_at(i as int) != k);
                        }
                    }
                },
                Err(err) => {
                    errors.push(err);
                },
            }
            i += 1;
        }
        proof {
            lemma_invalid_count_zero(arch, n);
            assert forall|k: Seq<char>| #[trigger] arch.has_key(k)
                && arch.spec_get(k)->Some_0.spec_valid() implies {
                &&& self.has_texture(k)
                &&& self.texture_of(k) == (Texture {
                    width: arch.spec_get(k)->Some_0.width,
                    height: arch.spec_get(k)->Some_0.height,
                    data: self.texture_of(k).data,
                })
                &&& self.texture_of(k).data@ == spec_flipped_rows(arch.spec_get(k)->Some_0)
            } by {
                let j = arch.idx_of(k);
                assert(0 <= j < n && arch.key_at(j) == k);
            }
            assert forall|k: Seq<char>| !arch.has_key(k) implies
                self.spec_textures().spec_get(k)
                    == old(self).spec_textures().spec_get(k) by {
                assert forall|j: int| 0 <= j < n implies arch.key_at(j) != k by {}
            }
        }
        if errors.is_empty() {
            Ok(())
        } else {
            Err(errors)
        }
    }

    /// The texture registered under `id`, if any.
    pub fn get(&self, id: &str) -> (r: Option<std::rc::Rc<Texture>>)
        requires
            self.wf(),
        ensures
            match r {
                Some(t) => self.has_texture(id@) && t == self.texture_of(id@),
                None => !self.has_texture(id@),
            },
    {
        match self.textures.get(id) {
            Some(t) => Some(crate::util::rc_clone(t)),
            None => None,
        }
    }
}

impl Default for TextureArchive {
    fn default() -> (r: Self)
        ensures
            r.wf(),
            r.spec_textures().len() == 0,
    {
        TextureArchive { textures: NameMap::new() }
    }
}

impl crate::gfx::TextureLoader for ImageArchive {
    fn register(&mut self, name: String, image: Image)
        ensures
            old(self).wf() ==> {
                &&& final(self).wf()
                &&& final(self).spec_images().spec_get(name@) == Some(image)
                &&& forall|k: Seq<char>| k != name@ ==>
                    final(self).spec_images().spec_get(k) == old(self).spec_images().spec_get(k)
            },
    {
        self.images.insert(name, image);
    }
}

} // verus!
