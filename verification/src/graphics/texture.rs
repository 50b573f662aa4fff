//! Texture objects and their pixel formats.
use vstd::prelude::*;

verus! {

/// Pixel format of a texture.
#[derive(Clone, Copy, Debug, PartialEq, Eq, Structural)]
pub enum TextureFormat {
    RGB565,
    RGBA4444,
    RGBA8888,
    DXT1,
    DXT1A,
    DXT3,
}

/// `GL_RGB`.
pub const GL_RGB: u32 = 0x1907;
/// `GL_RGBA`.
pub const GL_RGBA: u32 = 0x1908;
/// `GL_UNSIGNED_BYTE`.
pub const GL_UNSIGNED_BYTE: u32 = 0x1401;
/// `GL_UNSIGNED_SHORT_5_6_5`.
pub const GL_UNSIGNED_SHORT_5_6_5: u32 = 0x8363;
/// `GL_UNSIGNED_SHORT_4_4_4_4`.
pub const GL_UNSIGNED_SHORT_4_4_4_4: u32 = 0x8033;
/// `GL_COMPRESSED_RGB_S3TC_DXT1_EXT`.
pub const GL_COMPRESSED_RGB_S3TC_DXT1_EXT: u32 = 0x83F0;
/// `GL_COMPRESSED_RGBA_S3TC_DXT1_EXT`.
pub const GL_COMPRESSED_RGBA_S3TC_DXT1_EXT: u32 = 0x83F1;
/// `GL_COMPRESSED_RGBA_S3TC_DXT3_EXT`.
pub const GL_COMPRESSED_RGBA_S3TC_DXT3_EXT: u32 = 0x83F2;

/// How a texture format is described to OpenGL: internal format, pixel
/// format, pixel type, and whether the data is block-compressed (then the
/// pixel format and type are 0).
pub open spec fn spec_gl_format(fmt: TextureFormat) -> (u32, u32, u32, bool) {
    match fmt {
        TextureFormat::RGB565 => (GL_RGB, GL_RGB, GL_UNSIGNED_SHORT_5_6_5, false),
        TextureFormat::RGBA4444 => (GL_RGBA, GL_RGBA, GL_UNSIGNED_SHORT_4_4_4_4, false),
        TextureFormat::RGBA8888 => (GL_RGBA, GL_RGBA, GL_UNSIGNED_BYTE, false),
        TextureFormat::DXT1 => (GL_COMPRESSED_RGB_S3TC_DXT1_EXT, 0, 0, true),
        TextureFormat::DXT1A => (GL_COMPRESSED_RGBA_S3TC_DXT1_EXT, 0, 0, true),
        TextureFormat::DXT3 => (GL_COMPRESSED_RGBA_S3TC_DXT3_EXT, 0, 0, true),
    }
}

/// The OpenGL description of a texture format.
pub fn gl_format(fmt: TextureFormat) -> (r: (u32, u32, u32, bool))
    ensures
        r == spec_gl_format(fmt),
{
    match fmt {
        TextureFormat::RGB565 => (GL_RGB, GL_RGB, GL_UNSIGNED_SHORT_5_6_5, false),
        TextureFormat::RGBA4444 => (GL_RGBA, GL_RGBA, GL_UNSIGNED_SHORT_4_4_4_4, false),
        TextureFormat::RGBA8888 => (GL_RGBA, GL_RGBA, GL_UNSIGNED_BYTE, false),
        TextureFormat::DXT1 => (GL_COMPRESSED_RGB_S3TC_DXT1_EXT, 0, 0, true),
        TextureFormat::DXT1A => (GL_COMPRESSED_RGBA_S3TC_DXT1_EXT, 0, 0, true),
        TextureFormat::DXT3 => (GL_COMPRESSED_RGBA_S3TC_DXT3_EXT, 0, 0, true),
    }
}

/// A texture object: its format, size, mip level count and GL handle.
pub struct Texture {
    fmt: TextureFormat,
    w: i32,
    h: i32,
    levels: i32,
    handle: u32,
    gl_internal_fmt: u32,
    gl_fmt: u32,
    gl_type: u32,
    is_compressed: bool,
}

impl Texture {
    pub closed spec fn spec_format(&self) -> TextureFormat {
        self.fmt
    }

    pub closed spec fn spec_width(&self) -> i32 {
        self.w
    }

    pub closed spec fn spec_height(&self) -> i32 {
        self.h
    }

    pub closed spec fn spec_levels(&self) -> i32 {
        self.levels
    }

    pub closed spec fn spec_handle(&self) -> u32 {
        self.handle
    }

    /// The GL description that the texture was created with.
    pub closed spec fn spec_gl(&self) -> (u32, u32, u32, bool) {
        (self.gl_internal_fmt, self.gl_fmt, self.gl_type, self.is_compressed)
    }

    /// A texture of format `fmt`, `w` by `h` pixels with `levels` mip levels,
    /// held by the GL texture object `handle`.
    pub fn new(fmt: TextureFormat, w: i32, h: i32, levels: i32, handle: u32) -> (t: Texture)
        ensures
            t.spec_format() == fmt,
            t.spec_width() == w,
            t.spec_height() == h,
            t.spec_levels() == levels,
            t.spec_handle() == handle,
            t.spec_gl() == spec_gl_format(fmt),
    {
        let (gl_internal_fmt, gl_fmt, gl_type, is_compressed) = gl_format(fmt);
        Texture { fmt, w, h, levels, handle, gl_internal_fmt, gl_fmt, gl_type, is_compressed }
    }

    /// The size of mip level `level`: the full size halved `level` times
    /// (an arithmetic shift).
    pub fn level_size(&self, level: i32) -> (r: (i32, i32))
        requires
            0 <= level < 32,
        ensures
            r == (self.spec_width() >> level, self.spec_height() >> level),
            level == 0 ==> r == (self.spec_width(), self.spec_height()),
            self.spec_width() >= 0 ==> 0 <= r.0 <= self.spec_width(),
            self.spec_height() >= 0 ==> 0 <= r.1 <= self.spec_height(),
            self.spec_width() >= 0 && level > 0 ==> 2 * r.0 <= self.spec_width(),
            self.spec_height() >= 0 && level > 0 ==> 2 * r.1 <= self.spec_height(),
    {
        let w = self.w;
        let h = self.h;
        let l: u32 = level as u32;
        assert(w >> level == w >> l && h >> level == h >> l);
        assert(l == 0 ==> w >> l == w) by (bit_vector);
        assert(l == 0 ==> h >> l == h) by (bit_vector);
        assert(w >= 0 && l < 32 ==> 0 <= w >> l <= w) by (bit_vector);
        assert(h >= 0 && l < 32 ==> 0 <= h >> l <= h) by (bit_vector);
        assert(w >= 0 && 0 < l < 32 ==> 2 * (w >> l) <= w) by (bit_vector);
        assert(h >= 0 && 0 < l < 32 ==> 2 * (h >> l) <= h) by (bit_vector);
        (w >> level, h >> level)
    }

    /// Whether a region of the texture can be replaced: only uncompressed
    /// textures allow it.
    pub fn can_set_region(&self) -> (r: bool)
        ensures
            r == !self.spec_gl().3,
    {
        !self.is_compressed
    }

    /// The GL internal format, pixel format, pixel type and compression flag.
    pub fn gl_description(&self) -> (r: (u32, u32, u32, bool))
        ensures
            r == self.spec_gl(),
    {
        (self.gl_internal_fmt, self.gl_fmt, self.gl_type, self.is_compressed)
    }

    pub fn width(&self) -> (r: i32)
        ensures
            r == self.spec_width(),
    {
        self.w
    }

    /// The height the texture reports. As the engine has always done, this
    /// is the texture's width, not the height it was made with; callers that
    /// draw a whole texture by these sizes get a square of the width.
    pub fn height(&self) -> (r: i32)
        ensures
            r == self.spec_width(),
    {
        self.w
    }

    pub fn levels(&self) -> (r: i32)
        ensures
            r == self.spec_levels(),
    {
        self.levels
    }

    pub fn format(&self) -> (r: TextureFormat)
        ensures
            r == self.spec_format(),
    {
        self.fmt
    }

    pub fn handle(&self) -> (r: u32)
        ensures
            r == self.spec_handle(),
    {
        self.handle
    }
}

/// Each texture format has its own GL description, so the description
/// tells the format: the block-compressed formats are exactly DXT1, DXT1A and
/// DXT3, with the S3TC internal formats `GL_COMPRESSED_RGB_S3TC_DXT1_EXT`
/// (0x83F0), `GL_COMPRESSED_RGBA_S3TC_DXT1_EXT` (0x83F1) and
/// `GL_COMPRESSED_RGBA_S3TC_DXT3_EXT` (0x83F2), which are all different; the
/// others are uncompressed RGB or RGBA. A texture records the description of
/// its format.
pub proof fn law_gl_format_tells_format(f1: TextureFormat, f2: TextureFormat)
    ensures
        spec_gl_format(f1) == spec_gl_format(f2) ==> f1 == f2,
        spec_gl_format(f1).3 ==> spec_gl_format(f1).1 == 0 && spec_gl_format(f1).2 == 0,
        spec_gl_format(f1).3 && spec_gl_format(f2).3 && f1 != f2 ==> spec_gl_format(f1).0 != spec_gl_format(f2).0,
        spec_gl_format(f1).3 <==> (f1 == TextureFormat::DXT1 || f1 == TextureFormat::DXT1A || f1 == TextureFormat::DXT3),
        f1 == TextureFormat::DXT1 ==> spec_gl_format(f1).0 == 0x83F0,
        f1 == TextureFormat::DXT1A ==> spec_gl_format(f1).0 == 0x83F1,
        f1 == TextureFormat::DXT3 ==> spec_gl_format(f1).0 == 0x83F2,
        f1 == TextureFormat::RGB565 ==> spec_gl_format(f1).0 == 0x1907,
        f1 == TextureFormat::RGBA4444 || f1 == TextureFormat::RGBA8888 ==> spec_gl_format(f1).0 == 0x1908,
{
}

/// Two textures of different formats are described to GL differently.
pub proof fn law_textures_of_different_formats_differ(t1: Texture, t2: Texture)
    requires
        t1.spec_gl() == spec_gl_format(t1.spec_format()),
        t2.spec_gl() == spec_gl_format(t2.spec_format()),
        t1.spec_format() != t2.spec_format(),
    ensures
        t1.spec_gl() != t2.spec_gl(),
{
    law_gl_format_tells_format(t1.spec_format(), t2.spec_format());
}

} // verus!
