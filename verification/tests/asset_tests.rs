use std::sync::atomic::{AtomicUsize, Ordering};
use std::sync::Arc;

use nanogame3d::asset_loader::{clear_all, decode_qoi, load_shader, load_texture, shader_file_sources, texture_file_data, texture_file_kind, unload_texture, LoadedAsset, ResourceCache, ResourceError, ResourceLoader, TextureFileData, TextureFileKind};
use nanogame3d::graphics::buffer::Buffer;
use nanogame3d::graphics::material::{texture_units, blend_func_default_dst, blend_func_default_src, default_depth_test, default_depth_write, BlendEquation, BlendFunction, CullMode, DepthCompare, MaterialState, TextureSampler};
use nanogame3d::graphics::shader::{shader_sources, Shader, ShaderSourceError};
use nanogame3d::bsp::textures::{material_path, prop_material_path, split_by_transparency};
use nanogame3d::graphics::texture::{gl_format, Texture, TextureFormat};
use nanogame3d::misc::Color32;
use nanogame3d::ui::font::{coverage_texels, GlyphAtlas};
use nanogame3d::ui::painter::{nineslice_layout, nineslice_rects};
use nanogame3d::misc::Rectangle;
use nanogame3d::serialization::SerializedResource;

static LOADS: AtomicUsize = AtomicUsize::new(0);

struct LenLoader;

impl ResourceLoader<usize> for LenLoader {
    fn load_resource(path: &str) -> Result<usize, ResourceError> {
        LOADS.fetch_add(1, Ordering::SeqCst);
        if path.starts_with("bad") {
            Err(ResourceError::ParseError)
        } else {
            Ok(path.len())
        }
    }
}

#[test]
fn cache_shares_live_resources_and_reloads_dropped_ones() {
    let mut cache: ResourceCache<usize, LenLoader> = ResourceCache::new();
    let before = LOADS.load(Ordering::SeqCst);
    let a = cache.load("models/box.glb").unwrap();
    let b = cache.load("models/box.glb").unwrap();
    assert!(Arc::ptr_eq(&a, &b));
    assert_eq!(a.inner, 14);
    assert_eq!(a.loaded_path, "models/box.glb");
    assert_eq!(LOADS.load(Ordering::SeqCst), before + 1);
    drop(a);
    drop(b);
    let c = cache.load("models/box.glb").unwrap();
    assert_eq!(c.inner, 14);
    assert_eq!(LOADS.load(Ordering::SeqCst), before + 2);
}

#[test]
fn cache_failed_load_and_unload() {
    let mut cache: ResourceCache<usize, LenLoader> = ResourceCache::new();
    assert!(matches!(cache.load("bad/file"), Err(ResourceError::ParseError)));
    let a = cache.load("x").unwrap();
    cache.unload("x");
    let b = cache.load("x").unwrap();
    assert!(!Arc::ptr_eq(&a, &b));
    cache.clear();
    let c = cache.load("x").unwrap();
    assert!(!Arc::ptr_eq(&b, &c));
}

struct TexLoader;

impl ResourceLoader<Texture> for TexLoader {
    fn load_resource(path: &str) -> Result<Texture, ResourceError> {
        if path.ends_with(".qoi") {
            Ok(Texture::new(TextureFormat::RGBA8888, 4, 2, 1, 7))
        } else {
            Err(ResourceError::ParseError)
        }
    }
}

#[test]
fn texture_cache_functions() {
    let mut cache: ResourceCache<Texture, TexLoader> = ResourceCache::new();
    let t = load_texture(&mut cache, "a.qoi").unwrap();
    assert_eq!(t.inner.handle(), 7);
    let t2 = load_texture(&mut cache, "a.qoi").unwrap();
    assert!(Arc::ptr_eq(&t, &t2));
    unload_texture(&mut cache, &t);
    let t3 = load_texture(&mut cache, "a.qoi").unwrap();
    assert!(!Arc::ptr_eq(&t, &t3));
    assert!(load_texture(&mut cache, "a.png").is_err());
}

#[test]
fn loaded_asset_records_path() {
    let a = LoadedAsset::new(5u8, "p/q");
    assert_eq!(a.inner, 5);
    assert_eq!(a.loaded_path, "p/q");
}

#[test]
fn texture_file_kinds() {
    assert_eq!(texture_file_kind("tex/wall.basis"), TextureFileKind::Basis);
    assert_eq!(texture_file_kind("tex/wall.qoi"), TextureFileKind::Qoi);
    assert_eq!(texture_file_kind("tex/wall.png"), TextureFileKind::Unsupported);
    assert_eq!(texture_file_kind("qoi"), TextureFileKind::Unsupported);
    assert_eq!(texture_file_kind(".qoi"), TextureFileKind::Qoi);
}

fn qoi_header(w: u32, h: u32, channels: u8) -> Vec<u8> {
    let mut v = b"qoif".to_vec();
    v.extend_from_slice(&w.to_be_bytes());
    v.extend_from_slice(&h.to_be_bytes());
    v.push(channels);
    v.push(0);
    v
}

const QOI_END: [u8; 8] = [0, 0, 0, 0, 0, 0, 0, 1];

#[test]
fn qoi_rgba_decodes_to_pixels() {
    let mut data = qoi_header(2, 1, 4);
    data.extend_from_slice(&[0xff, 10, 20, 30, 40]);
    data.extend_from_slice(&[0xff, 50, 60, 70, 80]);
    data.extend_from_slice(&QOI_END);
    let img = decode_qoi(data).unwrap();
    assert_eq!((img.width, img.height), (2, 1));
    assert_eq!(img.pixels, vec![Color32::new(10, 20, 30, 40), Color32::new(50, 60, 70, 80)]);
}

#[test]
fn qoi_rgb_pixels_are_opaque() {
    let mut data = qoi_header(1, 2, 3);
    data.extend_from_slice(&[0xfe, 1, 2, 3]);
    data.extend_from_slice(&[0xfe, 4, 5, 6]);
    data.extend_from_slice(&QOI_END);
    let img = decode_qoi(data).unwrap();
    assert_eq!((img.width, img.height), (1, 2));
    assert_eq!(img.pixels, vec![Color32::new(1, 2, 3, 255), Color32::new(4, 5, 6, 255)]);
}

#[test]
fn qoi_garbage_is_a_parse_error() {
    assert!(matches!(decode_qoi(b"not an image".to_vec()), Err(ResourceError::ParseError)));
}

#[test]
fn texture_records_format_and_size() {
    let t = Texture::new(TextureFormat::DXT1, 64, 32, 3, 11);
    assert_eq!(t.width(), 64);
    assert_eq!(t.height(), 64);
    assert_eq!(t.levels(), 3);
    assert!(matches!(t.format(), TextureFormat::DXT1));
    assert_eq!(t.handle(), 11);
    assert_eq!(t.level_size(2), (16, 8));
    assert!(!t.can_set_region());
    assert_eq!(t.gl_description(), (0x83F0, 0, 0, true));
    assert_eq!(gl_format(TextureFormat::RGB565), (0x1907, 0x1907, 0x8363, false));
    assert_eq!(gl_format(TextureFormat::RGBA8888), (0x1908, 0x1908, 0x1401, false));
    let u = Texture::new(TextureFormat::RGBA4444, 8, 8, 1, 2);
    assert!(u.can_set_region());
}

#[test]
fn buffer_and_shader_handles() {
    let mut b = Buffer::new(1024, 3);
    assert_eq!(b.size(), 1024);
    assert_eq!(b.handle(), 3);
    b.resize(4096);
    assert_eq!(b.size(), 4096);
    assert_eq!(b.handle(), 3);
    let s = Shader::new(9);
    assert_eq!(s.handle(), 9);
}

#[test]
fn material_defaults_and_gl_state() {
    assert_eq!(blend_func_default_src(), BlendFunction::One);
    assert_eq!(blend_func_default_dst(), BlendFunction::Zero);
    assert!(default_depth_test());
    assert!(default_depth_write());
    assert_eq!(CullMode::default(), CullMode::Back);
    assert_eq!(DepthCompare::default(), DepthCompare::LessOrEqual);
    assert_eq!(BlendEquation::default(), BlendEquation::Add);
    let m = MaterialState::new();
    let gl = m.gl_state();
    assert_eq!(gl.cull_face, Some(0x0405));
    assert!(gl.depth_test && gl.depth_mask && !gl.blend);
    assert_eq!(gl.depth_func, 0x0203);
    assert_eq!(gl.blend_equation, 0x8006);
    assert_eq!((gl.blend_src, gl.blend_dst), (1, 0));
    let mut m2 = m;
    m2.cull = CullMode::Off;
    m2.blend = true;
    m2.blend_equation = BlendEquation::ReverseSubtract;
    m2.blend_src = BlendFunction::SrcAlpha;
    m2.blend_dst = BlendFunction::OneMinusSrcAlpha;
    m2.depth_cmp = DepthCompare::Always;
    let gl2 = m2.gl_state();
    assert_eq!(gl2.cull_face, None);
    assert_eq!(gl2.blend_equation, 0x800B);
    assert_eq!((gl2.blend_src, gl2.blend_dst), (0x0302, 0x0303));
    assert_eq!(gl2.depth_func, 0x0207);
    assert_eq!(BlendFunction::OneMinusDstColor.to_gl(), 0x0307);
}

#[test]
fn sampler_gl_params() {
    let tex = Arc::new(LoadedAsset::new(Texture::new(TextureFormat::RGBA8888, 2, 2, 1, 1), "t"));
    let s = TextureSampler { texture: SerializedResource::new(tex), filter: true, wrap_s: false, wrap_t: true };
    assert_eq!(s.gl_params(), (0x2601, 0x2601, 0x812F, 0x2901));
    let tex = Arc::new(LoadedAsset::new(Texture::new(TextureFormat::RGBA8888, 2, 2, 1, 1), "t"));
    let s = TextureSampler { texture: SerializedResource::new(tex), filter: false, wrap_s: true, wrap_t: false };
    assert_eq!(s.gl_params(), (0x2600, 0x2600, 0x2901, 0x812F));
}

#[test]
fn shader_description_sources() {
    let (vs, ps) = shader_sources("vs = \"void main() {}\"\nps = \"void main() { gl_FragColor = vec4(1.0); }\"\n").unwrap();
    assert_eq!(vs, "#version 100\nprecision highp float;\n\nvoid main() {}");
    assert_eq!(ps, "#version 100\nprecision highp float;\n\nvoid main() { gl_FragColor = vec4(1.0); }");
    assert_eq!(shader_sources("vs = \"a\"\n"), Err(ShaderSourceError::MissingStage));
    assert_eq!(shader_sources("ps = \"a\"\n"), Err(ShaderSourceError::MissingStage));
    assert_eq!(shader_sources("vs = 3\nps = \"a\"\n"), Err(ShaderSourceError::ParseError));
    assert_eq!(shader_sources("vs = \"a\"\nps = [1]\n"), Err(ShaderSourceError::ParseError));
    assert_eq!(shader_sources("vs = [\n"), Err(ShaderSourceError::ParseError));
}

#[test]
fn material_paths_and_passes() {
    assert_eq!(material_path("e1u1/floor1_3"), "content/materials/e1u1/floor1_3.toml");
    assert_eq!(prop_material_path("crate"), "content/models/crate_PROP.toml");
    let (opaque, transp) = split_by_transparency(&vec![false, true, false, true, true]);
    assert_eq!(opaque, vec![0, 2]);
    assert_eq!(transp, vec![1, 3, 4]);
    let (opaque, transp) = split_by_transparency(&vec![]);
    assert!(opaque.is_empty() && transp.is_empty());
}

#[test]
fn glyph_atlas_places_glyphs() {
    let mut atlas = GlyphAtlas::new();
    let empty = atlas.place_glyph(0, 0).unwrap();
    assert_eq!((empty.x, empty.y, empty.w, empty.h), (0, 0, 0, 0));
    let a = atlas.place_glyph(10, 12).unwrap();
    let b = atlas.place_glyph(10, 12).unwrap();
    assert_eq!((a.w, a.h, b.w, b.h), (10, 12, 10, 12));
    assert!(a.x + a.w <= b.x || b.x + b.w <= a.x || a.y + a.h <= b.y || b.y + b.h <= a.y);
    assert!(atlas.place_glyph(0, 5).is_none());
    assert!(atlas.place_glyph(2048, 4).is_none());
    let texels = coverage_texels(&vec![0, 128, 255]);
    assert_eq!(texels, vec![Color32::new(255, 255, 255, 0), Color32::new(255, 255, 255, 128), Color32::new(255, 255, 255, 255)]);
}

#[test]
fn nineslice_cuts_nine_regions() {
    let tex = Rectangle { x: 10, y: 20, w: 32, h: 16 };
    let r = nineslice_rects(tex, (4, 6, 3, 5));
    let got: Vec<(i32, i32, i32, i32)> = r.iter().map(|q| (q.x, q.y, q.w, q.h)).collect();
    assert_eq!(got, vec![
        (10, 20, 4, 3), (14, 20, 22, 3), (36, 20, 6, 3),
        (10, 23, 4, 8), (14, 23, 22, 8), (36, 23, 6, 8),
        (10, 31, 4, 5), (14, 31, 22, 5), (36, 31, 6, 5),
    ]);
    let area: i32 = r.iter().map(|q| q.w * q.h).sum();
    assert_eq!(area, 32 * 16);
}

#[test]
fn texture_units_number_texture_params_in_order() {
    assert_eq!(texture_units(&vec![false, true, false, true, true]), vec![None, Some(0), None, Some(1), Some(2)]);
    assert_eq!(texture_units(&vec![]), Vec::<Option<u32>>::new());
}

#[test]
fn buffer_size_follows_last_resize_across_uploads() {
    let mut b = Buffer::new(64, 5);
    assert_eq!(b.set_data(16, 6, 4), (5, 16, 24));
    assert_eq!(b.size(), 64);
    b.resize(128);
    assert_eq!(b.set_data(0, 32, 4), (5, 0, 128));
    b.resize(96);
    assert_eq!(b.set_data(8, 0, 12), (5, 8, 0));
    assert_eq!(b.size(), 96);
    assert_eq!(b.handle(), 5);
}

#[test]
fn cache_take_hit_keeps_only_live_assets_of_the_path() {
    let mut cache: ResourceCache<usize, LenLoader> = ResourceCache::new();
    let a = Arc::new(LoadedAsset::new(3usize, "abc"));
    let r = cache.take_hit("abc", Some(a.clone())).unwrap();
    assert!(Arc::ptr_eq(&a, &r));
    assert!(cache.take_hit("abc", None).is_none());
    let other = Arc::new(LoadedAsset::new(1usize, "z"));
    assert!(cache.take_hit("abc", Some(other)).is_none());
}

#[test]
fn cache_store_loaded_records_or_passes_error_on() {
    let mut cache: ResourceCache<usize, LenLoader> = ResourceCache::new();
    assert!(matches!(cache.store_loaded("p", Err(ResourceError::ParseError)), Err(ResourceError::ParseError)));
    let io = std::io::Error::new(std::io::ErrorKind::NotFound, "gone");
    match cache.store_loaded("p", Err(ResourceError::IOError(io))) {
        Err(ResourceError::IOError(e)) => assert_eq!(e.kind(), std::io::ErrorKind::NotFound),
        _ => panic!("the loader's error comes back unchanged"),
    }
    let before = LOADS.load(Ordering::SeqCst);
    let a = cache.store_loaded("p", Ok(42)).unwrap();
    assert_eq!(a.inner, 42);
    assert_eq!(a.loaded_path, "p");
    // the stored asset is what the next load of the path returns, without loading
    let b = cache.load("p").unwrap();
    assert!(Arc::ptr_eq(&a, &b));
    assert_eq!(b.inner, 42);
    assert_eq!(LOADS.load(Ordering::SeqCst), before);
}

#[test]
fn loaded_asset_derefs_to_resource() {
    let a = LoadedAsset::new(String::from("tex"), "t.qoi");
    assert_eq!(a.len(), 3);
    assert_eq!(&*a, "tex");
}

struct ShaderLoader;

impl ResourceLoader<Shader> for ShaderLoader {
    fn load_resource(path: &str) -> Result<Shader, ResourceError> {
        let read = if path == "missing.shader" {
            Err(std::io::Error::new(std::io::ErrorKind::NotFound, "no such file"))
        } else {
            Ok(String::from("vs = \"a\"\nps = \"b\""))
        };
        shader_file_sources(read).map(|_| Shader::new(11))
    }
}

#[test]
fn shader_cache_load_and_clear_all() {
    let mut textures: ResourceCache<Texture, TexLoader> = ResourceCache::new();
    let mut shaders: ResourceCache<Shader, ShaderLoader> = ResourceCache::new();
    assert!(matches!(load_shader(&mut shaders, "missing.shader"), Err(ResourceError::IOError(_))));
    let s1 = load_shader(&mut shaders, "a.shader").unwrap();
    let s2 = load_shader(&mut shaders, "a.shader").unwrap();
    assert!(Arc::ptr_eq(&s1, &s2));
    assert_eq!(s1.handle(), 11);
    let t1 = load_texture(&mut textures, "a.qoi").unwrap();
    clear_all(&mut textures, &mut shaders);
    let s3 = load_shader(&mut shaders, "a.shader").unwrap();
    let t2 = load_texture(&mut textures, "a.qoi").unwrap();
    assert!(!Arc::ptr_eq(&s1, &s3));
    assert!(!Arc::ptr_eq(&t1, &t2));
}

#[test]
fn texture_and_shader_file_results() {
    let io = std::io::Error::new(std::io::ErrorKind::PermissionDenied, "denied");
    match texture_file_data("a.qoi", Err(io)) {
        Err(ResourceError::IOError(e)) => assert_eq!(e.kind(), std::io::ErrorKind::PermissionDenied),
        _ => panic!("expected an I/O error"),
    }
    match texture_file_data("t.basis", Ok(vec![1, 2, 3])) {
        Ok(TextureFileData::Basis(b)) => assert_eq!(b, vec![1, 2, 3]),
        _ => panic!("expected basis data"),
    }
    assert!(matches!(texture_file_data("t.png", Ok(vec![1])), Err(ResourceError::ParseError)));
    assert!(matches!(texture_file_data("t.qoi", Ok(vec![1, 2])), Err(ResourceError::ParseError)));
    // a 1 x 1 RGBA QOI image holding one opaque red pixel
    let mut qoi = vec![b'q', b'o', b'i', b'f', 0, 0, 0, 1, 0, 0, 0, 1, 4, 0];
    qoi.extend_from_slice(&[0xfe, 255, 0, 0]);
    qoi.extend_from_slice(&[0, 0, 0, 0, 0, 0, 0, 1]);
    match texture_file_data("t.qoi", Ok(qoi)) {
        Ok(TextureFileData::Image(img)) => {
            assert_eq!((img.width, img.height), (1, 1));
            assert_eq!(img.pixels, vec![Color32::new(255, 0, 0, 255)]);
        }
        _ => panic!("expected an image"),
    }
    let io = std::io::Error::new(std::io::ErrorKind::NotFound, "gone");
    assert!(matches!(shader_file_sources(Err(io)), Err(ResourceError::IOError(_))));
    assert!(matches!(shader_file_sources(Ok(String::from("vs = \"a\""))), Err(ResourceError::ParseError)));
    let (vs, ps) = shader_file_sources(Ok(String::from("vs = \"v\"\nps = \"p\""))).unwrap();
    assert!(vs.ends_with("\nv"));
    assert!(ps.ends_with("\np"));
}

#[test]
fn nineslice_layout_pairs_source_and_drawn_pieces() {
    let tex = Rectangle { x: 10, y: 20, w: 32, h: 16 };
    let r = nineslice_layout(tex, 100, 50, (4, 6, 3, 5));
    let src: Vec<(i32, i32, i32, i32)> = r.iter().map(|p| (p.0.x, p.0.y, p.0.w, p.0.h)).collect();
    let dst: Vec<(i32, i32, i32, i32)> = r.iter().map(|p| (p.1.x, p.1.y, p.1.w, p.1.h)).collect();
    let rects: Vec<(i32, i32, i32, i32)> = nineslice_rects(tex, (4, 6, 3, 5)).iter().map(|q| (q.x, q.y, q.w, q.h)).collect();
    assert_eq!(src, rects);
    assert_eq!(dst, vec![
        (0, 0, 4, 3), (4, 0, 90, 3), (94, 0, 6, 3),
        (0, 3, 4, 42), (4, 3, 90, 42), (94, 3, 6, 42),
        (0, 45, 4, 5), (4, 45, 90, 5), (94, 45, 6, 5),
    ]);
}
