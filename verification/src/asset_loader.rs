//! Caches of loaded resources, keyed by the path they were loaded from.
//!
//! Loading the same path twice gives the same shared resource, as long as
//! some holder still keeps it alive; once every holder has dropped it, the
//! next load of that path loads it anew.
use vstd::prelude::*;
use std::sync::{Arc, Weak};
use std::marker::PhantomData;
use crate::text::{str_eq, ends_with};
use crate::misc::Color32;
use crate::graphics::texture::Texture;
use crate::graphics::shader::{shader_sources, spec_shader_sources, Shader};

verus! {

/// Why a resource could not be loaded.
#[derive(Debug)]
pub enum ResourceError {
    /// The resource's data is not in the expected format.
    ParseError,
    /// The resource's file could not be read.
    IOError(std::io::Error),
}

/// `std::io::Error`, carried by `ResourceError`.
#[verifier::external_type_specification]
#[verifier::external_body]
pub struct ExIoError(std::io::Error);

/// Reads a resource of type `TResource` from a path.
pub trait ResourceLoader<TResource> {
    fn load_resource(path: &str) -> Result<TResource, ResourceError>;
}

/// A loaded resource together with the path it was loaded from.
pub struct LoadedAsset<TResource> {
    pub inner: TResource,
    pub loaded_path: String,
}

impl<TResource> LoadedAsset<TResource> {
    pub fn new(asset: TResource, path: &str) -> (r: LoadedAsset<TResource>)
        ensures
            r.inner == asset,
            r.loaded_path@ == path@,
    {
        LoadedAsset { inner: asset, loaded_path: path.to_string() }
    }
}

impl<TResource> std::ops::Deref for LoadedAsset<TResource> {
    type Target = TResource;

    /// The resource itself.
    fn deref(&self) -> (r: &TResource)
        ensures
            *r == self.inner,
    {
        &self.inner
    }
}

/// A non-owning reference to a shared loaded resource (a `std::sync::Weak`).
/// Trusted: Verus does not see inside it; it only holds the reference.
#[verifier::external_body]
#[verifier::reject_recursive_types(TResource)]
pub struct CachedRef<TResource> {
    weak: Weak<LoadedAsset<TResource>>,
}

/// `Arc::downgrade`: a non-owning reference to `asset`.
/// Trusted: nothing is claimed of the result.
#[verifier::external_body]
fn downgrade<TResource>(asset: &Arc<LoadedAsset<TResource>>) -> (r: CachedRef<TResource>) {
    CachedRef { weak: Arc::downgrade(asset) }
}

/// `Weak::upgrade`: the resource, if some holder still keeps it alive.
/// Trusted: the result depends on whether other holders remain, so nothing
/// is claimed of it.
#[verifier::external_body]
fn upgrade<TResource>(r: &CachedRef<TResource>) -> (a: Option<Arc<LoadedAsset<TResource>>>) {
    r.weak.upgrade()
}

/// A cache of resources loaded by `TResourceLoader`, by path.
#[verifier::reject_recursive_types(TResource)]
pub struct ResourceCache<TResource, TResourceLoader> where TResourceLoader: ResourceLoader<TResource> {
    cache: Vec<(String, CachedRef<TResource>)>,
    /// The paths whose loader results the cache has taken in, in order.
    loads: Ghost<Seq<Seq<char>>>,
    phantom: PhantomData<TResourceLoader>,
}

/// What `load(path)` does, as seen in the cached paths (`before`, `after`)
/// and the loads taken in (`loads`, `loads_after`), `ok` telling whether it
/// succeeded:
/// - either it is a hit: no load is taken in, `path` was cached and stays
///   so, and the result is the cached resource;
/// - or exactly one load of `path` is taken in (the loader's result, as
///   `store_loaded` takes it), after which `path` is cached exactly when
///   the load succeeded, the other paths staying as they were;
/// - a path without an entry is always loaded.
pub open spec fn spec_load_result(
    before: Set<Seq<char>>,
    loads: Seq<Seq<char>>,
    path: Seq<char>,
    ok: bool,
    after: Set<Seq<char>>,
    loads_after: Seq<Seq<char>>,
) -> bool {
    &&& loads_after == loads || loads_after == loads.push(path)
    &&& loads_after == loads ==> before.contains(path) && ok && after == before
    &&& loads_after == loads.push(path) ==> after == (if ok { before.insert(path) } else { before.remove(path) })
    &&& !before.contains(path) ==> loads_after == loads.push(path)
}

spec fn spec_paths_distinct<TResource>(cache: Seq<(String, CachedRef<TResource>)>) -> bool {
    forall|i: int, j: int| 0 <= i < cache.len() && 0 <= j < cache.len() && i != j
        ==> (#[trigger] cache[i]).0@ != (#[trigger] cache[j]).0@
}

spec fn spec_paths<TResource>(cache: Seq<(String, CachedRef<TResource>)>) -> Set<Seq<char>> {
    Set::new(|k: Seq<char>| exists|i: int| 0 <= i < cache.len() && (#[trigger] cache[i]).0@ == k)
}

impl<TResource, TResourceLoader> View for ResourceCache<TResource, TResourceLoader> where TResourceLoader: ResourceLoader<TResource> {
    /// The paths that have an entry in the cache.
    type V = Set<Seq<char>>;

    closed spec fn view(&self) -> Set<Seq<char>> {
        spec_paths(self.cache@)
    }
}

impl<TResource, TResourceLoader> ResourceCache<TResource, TResourceLoader> where TResourceLoader: ResourceLoader<TResource> {
    #[verifier::type_invariant]
    spec fn paths_distinct(&self) -> bool {
        spec_paths_distinct(self.cache@)
    }

    /// An empty cache.
    pub fn new() -> (r: ResourceCache<TResource, TResourceLoader>)
        ensures
            r@ == Set::<Seq<char>>::empty(),
            r.spec_loads() == Seq::<Seq<char>>::empty(),
    {
        let r = ResourceCache { cache: Vec::new(), loads: Ghost(Seq::empty()), phantom: PhantomData };
        assert(r@ =~= Set::<Seq<char>>::empty());
        r
    }

    /// The paths whose loader results the cache has taken in, in order.
    pub closed spec fn spec_loads(&self) -> Seq<Seq<char>> {
        self.loads@
    }

    /// Forgets every entry; resources that holders keep stay alive, but the
    /// next load of any path loads it anew.
    pub fn clear(&mut self)
        ensures
            final(self)@ == Set::<Seq<char>>::empty(),
            final(self).spec_loads() == old(self).spec_loads(),
    {
        let loads = self.loads;
        *self = ResourceCache { cache: Vec::new(), loads, phantom: PhantomData };
        assert(self@ =~= Set::<Seq<char>>::empty());
    }

    /// The position of the entry for `path`.
    fn find(&self, path: &str) -> (r: Option<usize>)
        ensures
            r matches Some(i) ==> i < self.cache@.len() && self.cache@[i as int].0@ == path@,
            r is None ==> forall|i: int| 0 <= i < self.cache@.len() ==> (#[trigger] self.cache@[i]).0@ != path@,
            r is Some <==> self@.contains(path@),
    {
        let mut i: usize = 0;
        while i < self.cache.len()
            invariant
                i <= self.cache@.len(),
                forall|j: int| 0 <= j < i ==> (#[trigger] self.cache@[j]).0@ != path@,
            decreases self.cache@.len() - i,
        {
            if str_eq(self.cache[i].0.as_str(), path) {
                assert(self.cache@[i as int].0@ == path@);
                return Some(i);
            }
            i = i + 1;
        }
        None
    }

    /// Forgets the entry for `path`, if any; the entries of other paths stay.
    pub fn unload(&mut self, path: &str)
        ensures
            final(self)@ == old(self)@.remove(path@),
            final(self).spec_loads() == old(self).spec_loads(),
    {
        proof { use_type_invariant(&*self); }
        if let Some(i) = self.find(path) {
            let mut cache: Vec<(String, CachedRef<TResource>)> = Vec::new();
            std::mem::swap(&mut cache, &mut self.cache);
            let ghost old_c = cache@;
            let _ = cache.remove(i);
            proof { lemma_remove_entry(old_c, cache@, i as int, path@); }
            self.cache = cache;
        } else {
            assert(self@ =~= old(self)@.remove(path@));
        }
    }

    /// What a cache hit gives: `hit` is what the entry for `path` still
    /// holds (`None` once every holder dropped it). A live resource loaded
    /// from `path` is returned as is and the cache stays; otherwise there is
    /// no hit and the entry for `path` is dropped.
    pub fn take_hit(&mut self, path: &str, hit: Option<Arc<LoadedAsset<TResource>>>) -> (r: Option<Arc<LoadedAsset<TResource>>>)
        ensures
            (hit matches Some(v) && v.loaded_path@ == path@) ==> r == hit && final(self)@ == old(self)@,
            !(hit matches Some(v) && v.loaded_path@ == path@) ==> r is None && final(self)@ == old(self)@.remove(path@),
            final(self).spec_loads() == old(self).spec_loads(),
    {
        match hit {
            Some(v) => {
                if str_eq(v.loaded_path.as_str(), path) {
                    return Some(v);
                }
            },
            None => {},
        }
        self.unload(path);
        None
    }

    /// Takes in what the loader gave for `path`: its error, returned
    /// unchanged with the cache as it was, or its resource, which becomes a
    /// new shared asset that the cache records for `path`.
    pub fn store_loaded(&mut self, path: &str, loaded: Result<TResource, ResourceError>) -> (r: Result<Arc<LoadedAsset<TResource>>, ResourceError>)
        ensures
            loaded matches Err(e) ==> r == Err::<Arc<LoadedAsset<TResource>>, ResourceError>(e) && final(self)@ == old(self)@,
            loaded matches Ok(v) ==> r matches Ok(a) && a.inner == v && a.loaded_path@ == path@
                && final(self)@ == old(self)@.insert(path@),
            final(self).spec_loads() == old(self).spec_loads().push(path@),
    {
        let res = match loaded {
            Ok(v) => v,
            Err(e) => {
                proof { use_type_invariant(&*self); }
                self.loads = Ghost(self.loads@.push(path@));
                return Err(e);
            },
        };
        self.unload(path);
        proof { use_type_invariant(&*self); }
        let ghost mid = self@;
        assert(!mid.contains(path@));
        let asset = Arc::new(LoadedAsset::new(res, path));
        let store = downgrade(&asset);
        let mut cache: Vec<(String, CachedRef<TResource>)> = Vec::new();
        std::mem::swap(&mut cache, &mut self.cache);
        let ghost old_c = cache@;
        cache.push((path.to_string(), store));
        proof {
            let n = old_c.len() as int;
            assert forall|a: int, b: int| 0 <= a < cache@.len() && 0 <= b < cache@.len() && a != b
                implies (#[trigger] cache@[a]).0@ != (#[trigger] cache@[b]).0@ by {
                if a != n && b != n {
                    assert(cache@[a] == old_c[a]);
                    assert(cache@[b] == old_c[b]);
                } else if a == n {
                    assert(cache@[b] == old_c[b]);
                    assert(mid.contains(old_c[b].0@));
                } else {
                    assert(cache@[a] == old_c[a]);
                    assert(mid.contains(old_c[a].0@));
                }
            }
            assert forall|k: Seq<char>| spec_paths(cache@).contains(k) <==> mid.insert(path@).contains(k) by {
                if spec_paths(cache@).contains(k) {
                    let j = choose|j: int| 0 <= j < cache@.len() && (#[trigger] cache@[j]).0@ == k;
                    if j < n {
                        assert(cache@[j] == old_c[j]);
                    }
                }
                if mid.contains(k) {
                    let j = choose|j: int| 0 <= j < old_c.len() && (#[trigger] old_c[j]).0@ == k;
                    assert(cache@[j] == old_c[j]);
                }
                if k == path@ {
                    assert(cache@[n].0@ == path@);
                }
            }
            assert(spec_paths(cache@) =~= mid.insert(path@));
            assert(mid.insert(path@) =~= old(self)@.insert(path@));
        }
        self.cache = cache;
        self.loads = Ghost(self.loads@.push(path@));
        Ok(asset)
    }

    /// The shared resource loaded from `path`: while some holder keeps the
    /// resource cached for `path` alive it is returned without loading
    /// (`take_hit`); otherwise the loader is asked once and its result taken
    /// in (`store_loaded`).
    pub fn load(&mut self, path: &str) -> (r: Result<Arc<LoadedAsset<TResource>>, ResourceError>)
        ensures
            r matches Ok(a) ==> a.loaded_path@ == path@,
            spec_load_result(old(self)@, old(self).spec_loads(), path@, r is Ok, final(self)@, final(self).spec_loads()),
    {
        if let Some(i) = self.find(path) {
            let hit = upgrade(&self.cache[i].1);
            if let Some(v) = self.take_hit(path, hit) {
                return Ok(v);
            }
        }
        let ghost mid = self@;
        assert(!mid.contains(path@));
        assert(mid =~= old(self)@.remove(path@));
        let loaded = TResourceLoader::load_resource(path);
        let r = self.store_loaded(path, loaded);
        assert(old(self)@.remove(path@).insert(path@) =~= old(self)@.insert(path@));
        assert(old(self).spec_loads().push(path@) != old(self).spec_loads()) by {
            assert(old(self).spec_loads().push(path@).len() != old(self).spec_loads().len());
        }
        r
    }
}

/// Removing the entry at `i`, which holds `path`, removes `path` from the
/// set of cached paths and keeps the paths distinct.
proof fn lemma_remove_entry<TResource>(
    old_c: Seq<(String, CachedRef<TResource>)>,
    new_c: Seq<(String, CachedRef<TResource>)>,
    i: int,
    path: Seq<char>,
)
    requires
        spec_paths_distinct(old_c),
        0 <= i < old_c.len(),
        old_c[i].0@ == path,
        new_c == old_c.remove(i),
    ensures
        spec_paths_distinct(new_c),
        spec_paths(new_c) == spec_paths(old_c).remove(path),
{
    assert forall|a: int, b: int| 0 <= a < new_c.len() && 0 <= b < new_c.len() && a != b
        implies (#[trigger] new_c[a]).0@ != (#[trigger] new_c[b]).0@ by {
        let oa = if a < i { a } else { a + 1 };
        let ob = if b < i { b } else { b + 1 };
        assert(new_c[a] == old_c[oa]);
        assert(new_c[b] == old_c[ob]);
    }
    assert forall|k: Seq<char>| spec_paths(new_c).contains(k) <==> spec_paths(old_c).remove(path).contains(k) by {
        if spec_paths(new_c).contains(k) {
            let j = choose|j: int| 0 <= j < new_c.len() && (#[trigger] new_c[j]).0@ == k;
            let oj = if j < i { j } else { j + 1 };
            assert(new_c[j] == old_c[oj]);
            assert(oj != i);
        }
        if spec_paths(old_c).remove(path).contains(k) {
            let j = choose|j: int| 0 <= j < old_c.len() && (#[trigger] old_c[j]).0@ == k;
            assert(j != i);
            let nj = if j < i { j } else { j - 1 };
            assert(new_c[nj] == old_c[j]);
        }
    }
    assert(spec_paths(new_c) =~= spec_paths(old_c).remove(path));
}

/// Forgets the cache entry of a loaded texture.
pub fn unload_texture<L: ResourceLoader<Texture>>(cache: &mut ResourceCache<Texture, L>, asset: &Arc<LoadedAsset<Texture>>)
    ensures
        final(cache)@ == old(cache)@.remove(asset.loaded_path@),
        final(cache).spec_loads() == old(cache).spec_loads(),
{
    cache.unload(asset.loaded_path.as_str());
}

/// The shared texture loaded from `path` (see `ResourceCache::load`).
pub fn load_texture<L: ResourceLoader<Texture>>(cache: &mut ResourceCache<Texture, L>, path: &str) -> (r: Result<Arc<LoadedAsset<Texture>>, ResourceError>)
    ensures
        r matches Ok(a) ==> a.loaded_path@ == path@,
        spec_load_result(old(cache)@, old(cache).spec_loads(), path@, r is Ok, final(cache)@, final(cache).spec_loads()),
{
    cache.load(path)
}

/// Forgets the cache entry of a loaded shader.
pub fn unload_shader<L: ResourceLoader<Shader>>(cache: &mut ResourceCache<Shader, L>, asset: &Arc<LoadedAsset<Shader>>)
    ensures
        final(cache)@ == old(cache)@.remove(asset.loaded_path@),
        final(cache).spec_loads() == old(cache).spec_loads(),
{
    cache.unload(asset.loaded_path.as_str());
}

/// The shared shader loaded from `path` (see `ResourceCache::load`).
pub fn load_shader<L: ResourceLoader<Shader>>(cache: &mut ResourceCache<Shader, L>, path: &str) -> (r: Result<Arc<LoadedAsset<Shader>>, ResourceError>)
    ensures
        r matches Ok(a) ==> a.loaded_path@ == path@,
        spec_load_result(old(cache)@, old(cache).spec_loads(), path@, r is Ok, final(cache)@, final(cache).spec_loads()),
{
    cache.load(path)
}

/// Clears the texture and the shader caches: the next load of any path
/// loads it anew.
pub fn clear_all<LT: ResourceLoader<Texture>, LS: ResourceLoader<Shader>>(
    textures: &mut ResourceCache<Texture, LT>,
    shaders: &mut ResourceCache<Shader, LS>,
)
    ensures
        final(textures)@ == Set::<Seq<char>>::empty(),
        final(shaders)@ == Set::<Seq<char>>::empty(),
        final(textures).spec_loads() == old(textures).spec_loads(),
        final(shaders).spec_loads() == old(shaders).spec_loads(),
{
    textures.clear();
    shaders.clear();
}

/// The kinds of texture file that can be loaded, told apart by extension.
#[derive(Debug, Clone, Copy, PartialEq, Eq, Structural)]
pub enum TextureFileKind {
    /// A `.basis` supercompressed texture.
    Basis,
    /// A `.qoi` image.
    Qoi,
    /// Anything else, which cannot be loaded.
    Unsupported,
}

pub open spec fn spec_has_suffix(s: Seq<char>, suffix: Seq<char>) -> bool {
    suffix.len() <= s.len() && s.subrange(s.len() - suffix.len(), s.len() as int) == suffix
}

/// The kind of texture file at `path`.
pub fn texture_file_kind(path: &str) -> (r: TextureFileKind)
    ensures
        r == (if spec_has_suffix(path@, ".basis"@) {
            TextureFileKind::Basis
        } else if spec_has_suffix(path@, ".qoi"@) {
            TextureFileKind::Qoi
        } else {
            TextureFileKind::Unsupported
        }),
{
    if ends_with(path, ".basis") {
        TextureFileKind::Basis
    } else if ends_with(path, ".qoi") {
        TextureFileKind::Qoi
    } else {
        TextureFileKind::Unsupported
    }
}

/// The image that the QOI decoder reads from `data`: width, height, number
/// of channels and the channel bytes of the pixels, row by row; `None` when
/// `data` is not a QOI image.
pub uninterp spec fn qoi_decoded(data: Seq<u8>) -> Option<(u32, u32, u8, Seq<u8>)>;

/// `qoi::decode_to_vec`, with the header reduced to width, height and
/// channel count.
/// Trusted: the decoded image is named, not described; per the crate's
/// source a decoded header has 3 or 4 channels and between 1 and 400000000
/// pixels, and the pixel bytes number width * height * channels.
#[verifier::external_body]
fn qoi_decode_to_vec(data: Vec<u8>) -> (r: Option<(u32, u32, u8, Vec<u8>)>)
    ensures
        r is None <==> qoi_decoded(data@) is None,
        r matches Some(t) ==> qoi_decoded(data@) == Some((t.0, t.1, t.2, t.3@)),
        r matches Some(t) ==> (t.2 == 3 || t.2 == 4) && 0 < t.0 * t.1 <= 400_000_000
            && t.3@.len() == t.0 * t.1 * t.2,
{
    match qoi::decode_to_vec(data) {
        Ok((header, bytes)) => Some((header.width, header.height, header.channels.as_u8(), bytes)),
        Err(_) => None,
    }
}

/// The pixels of channel bytes with `channels` (3 or 4) bytes per pixel; a
/// pixel without an alpha byte is opaque.
pub open spec fn spec_pixels(bytes: Seq<u8>, channels: u8) -> Seq<Color32> {
    Seq::new((bytes.len() as int / channels as int) as nat, |i: int|
        if channels == 3 {
            Color32 { r: bytes[3 * i], g: bytes[3 * i + 1], b: bytes[3 * i + 2], a: 255 }
        } else {
            Color32 { r: bytes[4 * i], g: bytes[4 * i + 1], b: bytes[4 * i + 2], a: bytes[4 * i + 3] }
        })
}

/// An image decoded to RGBA pixels.
pub struct DecodedImage {
    pub width: u32,
    pub height: u32,
    pub pixels: Vec<Color32>,
}

/// The channel bytes `bytes`, `channels` (3 or 4) per pixel, as RGBA pixels.
pub fn pixels_from_channels(bytes: &Vec<u8>, channels: u8) -> (r: Vec<Color32>)
    requires
        channels == 3 || channels == 4,
    ensures
        r@ == spec_pixels(bytes@, channels),
{
    let c = channels as usize;
    let n = bytes.len() / c;
    assert(n * c <= bytes.len()) by (nonlinear_arith)
        requires n == bytes.len() as int / c as int, c > 0;
    let mut r: Vec<Color32> = Vec::new();
    let mut i: usize = 0;
    while i < n
        invariant
            c == channels as usize,
            c == 3 || c == 4,
            n == bytes@.len() as int / c as int,
            n * c <= bytes.len(),
            i <= n,
            r@.len() == i,
            forall|j: int| 0 <= j < i ==> r@[j] == spec_pixels(bytes@, channels)[j],
        decreases n - i,
    {
        assert(i * c + c <= n * c) by (nonlinear_arith)
            requires i < n, c > 0;
        let p = i * c;
        let px = if c == 3 {
            Color32::new(bytes[p], bytes[p + 1], bytes[p + 2], 255)
        } else {
            Color32::new(bytes[p], bytes[p + 1], bytes[p + 2], bytes[p + 3])
        };
        r.push(px);
        i = i + 1;
    }
    assert(r@ =~= spec_pixels(bytes@, channels));
    r
}

/// Decodes a QOI image to RGBA pixels; fails with `ParseError` when the data
/// is not a QOI image.
pub fn decode_qoi(data: Vec<u8>) -> (r: Result<DecodedImage, ResourceError>)
    ensures
        r is Ok <==> qoi_decoded(data@) is Some,
        r is Err ==> r matches Err(ResourceError::ParseError),
        r matches Ok(img) ==> {
            let d = qoi_decoded(data@)->0;
            &&& img.width == d.0
            &&& img.height == d.1
            &&& img.pixels@ == spec_pixels(d.3, d.2)
            &&& img.pixels@.len() == d.0 * d.1
        },
{
    let ghost input = data@;
    match qoi_decode_to_vec(data) {
        Some((width, height, channels, bytes)) => {
            let pixels = pixels_from_channels(&bytes, channels);
            proof {
                let w = width as int;
                let h = height as int;
                let c = channels as int;
                assert((w * h * c) / c == w * h) by (nonlinear_arith)
                    requires c > 0;
            }
            Ok(DecodedImage { width, height, pixels })
        },
        None => Err(ResourceError::ParseError),
    }
}

/// What the texture loader makes of a texture file: the data of a `.basis`
/// file, which the GPU transcoder takes, or a decoded `.qoi` image.
pub enum TextureFileData {
    Basis(Vec<u8>),
    Image(DecodedImage),
}

/// What the texture loader gives for the bytes `bytes` of the file at
/// `path`, by the file's kind.
pub open spec fn spec_texture_data(path: Seq<char>, bytes: Seq<u8>, r: Result<TextureFileData, ResourceError>) -> bool {
    if spec_has_suffix(path, ".basis"@) {
        match r {
            Ok(TextureFileData::Basis(b)) => b@ == bytes,
            _ => false,
        }
    } else if spec_has_suffix(path, ".qoi"@) {
        match qoi_decoded(bytes) {
            None => match r {
                Err(ResourceError::ParseError) => true,
                _ => false,
            },
            Some(q) => match r {
                Ok(TextureFileData::Image(img)) => img.width == q.0 && img.height == q.1
                    && img.pixels@ == spec_pixels(q.3, q.2),
                _ => false,
            },
        }
    } else {
        match r {
            Err(ResourceError::ParseError) => true,
            _ => false,
        }
    }
}

/// The texture data of the file at `path`, given what reading the file
/// gave: a read error is an `IOError` carrying it; a `.basis` file's bytes
/// are handed on; a `.qoi` file is decoded (`ParseError` when it is not a
/// QOI image); any other kind of file is a `ParseError`.
pub fn texture_file_data(path: &str, read: Result<Vec<u8>, std::io::Error>) -> (r: Result<TextureFileData, ResourceError>)
    ensures
        read matches Err(e) ==> r == Err::<TextureFileData, ResourceError>(ResourceError::IOError(e)),
        read matches Ok(bytes) ==> spec_texture_data(path@, bytes@, r),
{
    let bytes = match read {
        Ok(b) => b,
        Err(e) => return Err(ResourceError::IOError(e)),
    };
    match texture_file_kind(path) {
        TextureFileKind::Basis => Ok(TextureFileData::Basis(bytes)),
        TextureFileKind::Qoi => match decode_qoi(bytes) {
            Ok(img) => Ok(TextureFileData::Image(img)),
            Err(e) => Err(e),
        },
        TextureFileKind::Unsupported => Err(ResourceError::ParseError),
    }
}

/// What the shader loader gives for the text `text` of a shader
/// description file: its stage sources, or a `ParseError`.
pub open spec fn spec_shader_file_result(text: Seq<char>, r: Result<(String, String), ResourceError>) -> bool {
    match spec_shader_sources(text) {
        Ok(p) => match r {
            Ok(q) => q.0@ == p.0 && q.1@ == p.1,
            _ => false,
        },
        Err(_) => match r {
            Err(ResourceError::ParseError) => true,
            _ => false,
        },
    }
}

/// The stage sources of the shader description file, given what reading the
/// file as text gave: a read error is an `IOError` carrying it; text that is
/// not a shader description (including one without a stage) is a
/// `ParseError`.
pub fn shader_file_sources(read: Result<String, std::io::Error>) -> (r: Result<(String, String), ResourceError>)
    ensures
        read matches Err(e) ==> r == Err::<(String, String), ResourceError>(ResourceError::IOError(e)),
        read matches Ok(text) ==> spec_shader_file_result(text@, r),
{
    let text = match read {
        Ok(t) => t,
        Err(e) => return Err(ResourceError::IOError(e)),
    };
    match shader_sources(text.as_str()) {
        Ok(p) => Ok(p),
        Err(_) => Err(ResourceError::ParseError),
    }
}

/// A path that was loaded and then unloaded is no longer cached, and the
/// other cached paths are those cached before the load: `mid` is the cache
/// after a successful `load(path)` from `before`, and `after` the cache after
/// `unload(path)` from `mid`.
pub proof fn law_load_then_unload(before: Set<Seq<char>>, mid: Set<Seq<char>>, after: Set<Seq<char>>, path: Seq<char>)
    requires
        mid == before.insert(path),
        after == mid.remove(path),
    ensures
        !after.contains(path),
        after == before.remove(path),
{
    assert(after =~= before.remove(path));
}

/// A load of a path that is cached after the previous load leaves the set of
/// cached paths as it was, whether it succeeds or fails only in removing
/// that path: `mid` is the cache after a successful `load(path)` from
/// `before`, and `after` the cache after a second `load(path)` from `mid`.
pub proof fn law_second_load(before: Set<Seq<char>>, mid: Set<Seq<char>>, after: Set<Seq<char>>, path: Seq<char>, second_ok: bool)
    requires
        mid == before.insert(path),
        second_ok ==> after == mid.insert(path),
        !second_ok ==> after == mid.remove(path),
    ensures
        second_ok ==> after == mid,
        !second_ok ==> after == before.remove(path),
{
    assert(mid.insert(path) =~= mid);
    assert(mid.remove(path) =~= before.remove(path));
}

/// After `unload(path)` or `clear`, the next `load(path)` loads the path
/// anew, whatever holders still keep the old resource: `before` is the set
/// of cached paths before the unload, `cached` the set after it (a subset of
/// `before` without `path`), and `loads`, `loads_after`, `ok` and `after`
/// describe the following `load(path)` as `load` states it.
pub proof fn law_load_after_unload_reloads(
    before: Set<Seq<char>>,
    cached: Set<Seq<char>>,
    loads: Seq<Seq<char>>,
    path: Seq<char>,
    ok: bool,
    after: Set<Seq<char>>,
    loads_after: Seq<Seq<char>>,
)
    requires
        cached.subset_of(before.remove(path)),
        spec_load_result(cached, loads, path, ok, after, loads_after),
    ensures
        loads_after == loads.push(path),
        after == (if ok { cached.insert(path) } else { cached }),
{
    assert(!cached.contains(path));
    assert(cached.remove(path) =~= cached);
}

/// A second load of a path whose resource is still cached and alive is a
/// hit: when the second `load(path)` takes in no load, it succeeded and the
/// cached paths are those after the first load.
pub proof fn law_hit_keeps_cache(
    before: Set<Seq<char>>,
    loads: Seq<Seq<char>>,
    path: Seq<char>,
    mid: Set<Seq<char>>,
    loads_mid: Seq<Seq<char>>,
    ok: bool,
    after: Set<Seq<char>>,
)
    requires
        spec_load_result(before, loads, path, true, mid, loads_mid),
        spec_load_result(mid, loads_mid, path, ok, after, loads_mid),
    ensures
        ok,
        after == mid,
        mid.contains(path),
{
}

} // verus!
