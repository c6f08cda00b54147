//! Icons and previews: pixels in the one form the browser keeps, icons as files, and small copies
//! of pages.

use vstd::prelude::*;
use vstd::string::*;

use crate::address;
use crate::text;

verus! {

// ---------------------------------------------------------------------------
// Pixels
// ---------------------------------------------------------------------------

/// How the bytes of an image make its pixels.
#[derive(Clone, Copy, Debug, PartialEq, Eq, Structural)]
pub enum PixelFormat {
    /// A grey.
    K8,
    /// A grey and an opacity.
    KA8,
    RGB8,
    RGBA8,
    BGRA8,
}

/// An image.
#[derive(Debug)]
pub struct Image {
    pub width: u32,
    pub height: u32,
    pub format: PixelFormat,
    pub data: Vec<u8>,
}

/// How many bytes make a pixel.
pub open spec fn pixel_size(f: PixelFormat) -> int {
    match f {
        PixelFormat::K8 => 1,
        PixelFormat::KA8 => 2,
        PixelFormat::RGB8 => 3,
        PixelFormat::RGBA8 => 4,
        PixelFormat::BGRA8 => 4,
    }
}

/// Red, green, blue and opacity of the pixel that starts at `o`.
pub open spec fn pixel_at(f: PixelFormat, d: Seq<u8>, o: int) -> Seq<u8> {
    match f {
        PixelFormat::K8 => seq![d[o], d[o], d[o], 255u8],
        PixelFormat::KA8 => seq![d[o], d[o], d[o], d[o + 1]],
        PixelFormat::RGB8 => seq![d[o], d[o + 1], d[o + 2], 255u8],
        PixelFormat::RGBA8 => seq![d[o], d[o + 1], d[o + 2], d[o + 3]],
        PixelFormat::BGRA8 => seq![d[o + 2], d[o + 1], d[o], d[o + 3]],
    }
}

/// The pixels from `o` on, one after the other; bytes that make no whole pixel are left out.
pub open spec fn pixels_from(f: PixelFormat, d: Seq<u8>, o: int) -> Seq<u8>
    decreases d.len() - o,
{
    if o < 0 || o + pixel_size(f) > d.len() {
        Seq::empty()
    } else {
        pixel_at(f, d, o) + pixels_from(f, d, o + pixel_size(f))
    }
}

/// The bytes of an image as red, green, blue and opacity. Bytes that are so already stay as they
/// are.
pub open spec fn rgba_of(f: PixelFormat, d: Seq<u8>) -> Seq<u8> {
    if f == PixelFormat::RGBA8 {
        d
    } else {
        pixels_from(f, d, 0)
    }
}

/// The bytes of an image as red, green, blue and opacity.
pub fn to_rgba(f: PixelFormat, d: &Vec<u8>) -> (r: Vec<u8>)
    ensures
        r@ == rgba_of(f, d@),
{
    let mut out: Vec<u8> = Vec::new();
    let n: usize = match f {
        PixelFormat::K8 => 1,
        PixelFormat::KA8 => 2,
        PixelFormat::RGB8 => 3,
        PixelFormat::RGBA8 => 1,
        PixelFormat::BGRA8 => 4,
    };
    let plain: bool = f == PixelFormat::RGBA8;
    let mut o: usize = 0;
    assert(plain ==> out@ =~= d@.take(0));
    assert(!plain ==> out@ + pixels_from(f, d@, 0) =~= rgba_of(f, d@));
    while n <= d.len() - o
        invariant
            o <= d@.len(),
            plain == (f == PixelFormat::RGBA8),
            plain ==> n == 1 && out@ == d@.take(o as int),
            !plain ==> n == pixel_size(f) && out@ + pixels_from(f, d@, o as int) == rgba_of(f, d@),
            n >= 1,
        decreases d@.len() - o,
    {
        let ghost before = out@;
        match f {
            PixelFormat::K8 => {
                out.push(d[o]);
                out.push(d[o]);
                out.push(d[o]);
                out.push(255);
            },
            PixelFormat::KA8 => {
                out.push(d[o]);
                out.push(d[o]);
                out.push(d[o]);
                out.push(d[o + 1]);
            },
            PixelFormat::RGB8 => {
                out.push(d[o]);
                out.push(d[o + 1]);
                out.push(d[o + 2]);
                out.push(255);
            },
            PixelFormat::RGBA8 => {
                out.push(d[o]);
                assert(d@.take(o + 1) =~= d@.take(o as int).push(d@[o as int]));
            },
            PixelFormat::BGRA8 => {
                out.push(d[o + 2]);
                out.push(d[o + 1]);
                out.push(d[o]);
                out.push(d[o + 3]);
            },
        }
        proof {
            if !plain {
                assert(out@ =~= before + pixel_at(f, d@, o as int));
                assert(before + (pixel_at(f, d@, o as int) + pixels_from(f, d@, o + n)) =~= out@
                    + pixels_from(f, d@, o + n));
            }
        }
        o = o + n;
    }
    proof {
        if plain {
            assert(d@.take(o as int) =~= d@);
        } else {
            assert(out@ + Seq::<u8>::empty() =~= out@);
        }
    }
    out
}

// ---------------------------------------------------------------------------
// Icons as files
// ---------------------------------------------------------------------------

/// What `png::Encoder` makes of an image of this size with eight bits of red, green, blue and
/// opacity.
pub uninterp spec fn png_file(width: u32, height: u32, rgba: Seq<u8>) -> Option<Seq<u8>>;

/// The bytes inside an optional list.
pub open spec fn optional_bytes(o: Option<Vec<u8>>) -> Option<Seq<u8>> {
    match o {
        Some(v) => Some(v@),
        None => None,
    }
}

/// Writes an image as a PNG file with `png::Encoder` (`write_header`, `write_image_data`,
/// `finish`). The result depends on the size and the pixels alone. A file starts with the eight
/// bytes that mark a PNG.
#[verifier::external_body]
fn encode_png(width: u32, height: u32, rgba: &Vec<u8>) -> (r: Option<Vec<u8>>)
    requires
        width > 0,
        height > 0,
        rgba@.len() == width * height * 4,
    ensures
        optional_bytes(r) == png_file(width, height, rgba@),
        r matches Some(f) ==> seq![137u8, 80u8, 78u8, 71u8, 13u8, 10u8, 26u8, 10u8].is_prefix_of(
            f@,
        ),
{
    let mut buf: Vec<u8> = Vec::new();
    let mut enc = png::Encoder::new(&mut buf, width, height);
    enc.set_color(png::ColorType::Rgba);
    enc.set_depth(png::BitDepth::Eight);
    let mut writer = enc.write_header().ok()?;
    writer.write_image_data(rgba).ok()?;
    writer.finish().ok()?;
    Some(buf)
}

/// The bytes of an image fill its size.
pub open spec fn fills(width: u32, height: u32, rgba: Seq<u8>) -> bool {
    width > 0 && height > 0 && rgba.len() == width * height * 4
}

/// Do these bytes fill an image of this size?
pub fn fills_image(width: u32, height: u32, rgba: &Vec<u8>) -> (r: bool)
    ensures
        r == fills(width, height, rgba@),
{
    if width == 0 || height == 0 {
        return false;
    }
    assert(width * height <= 0xffff_ffff * 0xffff_ffff) by (nonlinear_arith)
        requires
            width <= 0xffff_ffff,
            height <= 0xffff_ffff,
    ;
    let area: u128 = (width as u128) * (height as u128);
    rgba.len() as u128 == area * 4
}

/// An icon as a PNG file; none where it is empty or its bytes do not fill it.
pub fn favicon_to_png(image: &Image) -> (r: Option<Vec<u8>>)
    ensures
        optional_bytes(r) == if fills(
            image.width,
            image.height,
            rgba_of(image.format, image.data@),
        ) {
            png_file(image.width, image.height, rgba_of(image.format, image.data@))
        } else {
            None
        },
{
    let rgba: Vec<u8> = to_rgba(image.format, &image.data);
    if fills_image(image.width, image.height, &rgba) {
        encode_png(image.width, image.height, &rgba)
    } else {
        None
    }
}

/// A character that the name of a cached icon may have.
pub open spec fn is_host_char(c: char) -> bool {
    ('a' <= c <= 'z') || ('A' <= c <= 'Z') || ('0' <= c <= '9') || c == '.' || c == '-'
}

/// A host whose icon can be cached.
pub open spec fn is_cache_host(h: Seq<char>) -> bool {
    0 < h.len() <= 100 && forall|i: int| 0 <= i < h.len() ==> is_host_char(#[trigger] h[i])
}

/// The file of a host's cached icon.
pub open spec fn cache_file(h: Seq<char>) -> Option<Seq<char>> {
    if is_cache_host(h) {
        Some("favicons/"@ + h + ".png"@)
    } else {
        None
    }
}

/// The file of a host's cached icon; none where the host holds anything but letters, digits, dots
/// and hyphens, or is too long.
pub fn favicon_cache_path(host: &str) -> (r: Option<String>)
    ensures
        address::optional_text(r) == cache_file(host@),
{
    let v: Vec<char> = text::chars_of(host);
    if v.len() == 0 || v.len() > 100 {
        return None;
    }
    let mut i: usize = 0;
    while i < v.len()
        invariant
            i <= v@.len(),
            v@ == host@,
            forall|j: int| 0 <= j < i ==> is_host_char(#[trigger] v@[j]),
        decreases v@.len() - i,
    {
        let c: char = v[i];
        if !(('a' <= c && c <= 'z') || ('A' <= c && c <= 'Z') || ('0' <= c && c <= '9') || c == '.'
            || c == '-') {
            assert(!is_host_char(v@[i as int]));
            return None;
        }
        i = i + 1;
    }
    let mut out: String = "favicons/".to_owned();
    out.append(host);
    out.append(".png");
    Some(out)
}

/// A cached icon stays in the cache: after the directory comes one plain file name, with nothing in
/// it that could lead elsewhere.
pub proof fn cached_icons_stay_in_the_cache(host: Seq<char>)
    ensures
        cache_file(host) matches Some(p) ==> {
            let name = p.skip("favicons/"@.len() as int);
            &&& "favicons/"@.is_prefix_of(p)
            &&& !name.contains('/')
            &&& !name.contains('\\')
            &&& name != "."@
            &&& name != ".."@
        },
{
    if is_cache_host(host) {
        reveal_strlit("favicons/");
        reveal_strlit(".png");
        reveal_strlit(".");
        reveal_strlit("..");
        let p = "favicons/"@ + host + ".png"@;
        let name = p.skip("favicons/"@.len() as int);
        assert(name =~= host + ".png"@);
        assert forall|i: int| 0 <= i < name.len() implies name[i] != '/' && name[i] != '\\' by {
            if i < host.len() {
                assert(name[i] == host[i]);
                assert(is_host_char(host[i]));
            }
        }
        assert(name.len() > 2);
    }
}

/// What is to be kept of a tab's new icon: the file and its bytes, where the tab's page has a host
/// whose icon can be cached and the icon can be written.
pub fn icon_to_cache(tab_url: &str, image: &Image) -> (r: Option<(String, Vec<u8>)>)
    ensures
        match address::host_of_text(tab_url@) {
            Some(h) => match r {
                Some(x) => cache_file(h) == Some(x.0@) && png_file(
                    image.width,
                    image.height,
                    rgba_of(image.format, image.data@),
                ) == Some(x.1@) && fills(
                    image.width,
                    image.height,
                    rgba_of(image.format, image.data@),
                ),
                None => cache_file(h) is None || !fills(
                    image.width,
                    image.height,
                    rgba_of(image.format, image.data@),
                ) || png_file(
                    image.width,
                    image.height,
                    rgba_of(image.format, image.data@),
                ) is None,
            },
            None => r is None,
        },
{
    match address::host_of(tab_url) {
        Some(h) => match favicon_cache_path(h.as_str()) {
            Some(path) => match favicon_to_png(image) {
                Some(png) => Some((path, png)),
                None => None,
            },
            None => None,
        },
        None => None,
    }
}

// ---------------------------------------------------------------------------
// Previews
// ---------------------------------------------------------------------------

/// The greatest width of a preview.
pub const PREVIEW_WIDTH: usize = 320;

/// The width of the preview of a picture.
pub open spec fn preview_width(w: int) -> int {
    if w < PREVIEW_WIDTH {
        w
    } else {
        PREVIEW_WIDTH as int
    }
}

/// The height of the preview of a picture: in proportion, and never nothing.
pub open spec fn preview_height(w: int, h: int) -> int {
    let t = (preview_width(w) * h) / w;
    if t < 1 {
        1
    } else {
        t
    }
}

/// The first `n` pixels of a row of the preview: each is that of the picture at the same place.
pub open spec fn preview_row(raw: Seq<u8>, w: int, h: int, y: int, n: nat) -> Seq<u8>
    decreases n,
{
    if n == 0 {
        Seq::empty()
    } else {
        let sy = (y * h) / preview_height(w, h);
        let sx = ((n - 1) * w) / preview_width(w);
        let o = (sy * w + sx) * 4;
        preview_row(raw, w, h, y, (n - 1) as nat) + raw.subrange(o, o + 4)
    }
}

/// The first `n` rows of the preview.
pub open spec fn preview_rows(raw: Seq<u8>, w: int, h: int, n: nat) -> Seq<u8>
    decreases n,
{
    if n == 0 {
        Seq::empty()
    } else {
        preview_rows(raw, w, h, (n - 1) as nat) + preview_row(
            raw,
            w,
            h,
            n - 1,
            preview_width(w) as nat,
        )
    }
}

/// A picture that is there and whose bytes fill it.
pub open spec fn has_pixels(raw: Seq<u8>, w: int, h: int) -> bool {
    w > 0 && h > 0 && raw.len() >= w * h * 4
}

/// A preview.
#[derive(Debug)]
pub struct Preview {
    pub width: usize,
    pub height: usize,
    pub data: Vec<u8>,
}

proof fn lemma_scaled(i: int, n: int, m: int)
    requires
        0 <= i < m,
        0 < n,
    ensures
        0 <= i * n,
        i * n < n * m,
        0 <= (i * n) / m < n,
{
    assert(0 <= i * n < n * m) by (nonlinear_arith)
        requires
            0 <= i < m,
            0 < n,
    ;
    assert(n * m == m * n) by (nonlinear_arith);
    vstd::arithmetic::div_mod::lemma_multiply_divide_lt(i * n, m, n);
    vstd::arithmetic::div_mod::lemma_div_pos_is_pos(i * n, m);
}

proof fn lemma_pixel_inside(sx: int, sy: int, w: int, h: int)
    requires
        0 <= sx < w,
        0 <= sy < h,
    ensures
        0 <= (sy * w + sx) * 4,
        (sy * w + sx) * 4 + 4 <= w * h * 4,
{
    assert(0 <= sy * w && sy * w + w <= h * w) by (nonlinear_arith)
        requires
            0 <= sy < h,
            0 < w,
    ;
    assert(h * w == w * h) by (nonlinear_arith);
}

proof fn lemma_preview_size(w: int, h: int)
    requires
        0 < w,
        0 < h,
    ensures
        0 < preview_width(w) <= w,
        0 < preview_height(w, h) <= h,
        preview_width(w) * h <= w * h,
        0 <= preview_width(w) * h,
{
    let t = preview_width(w);
    assert(0 <= t * h <= w * h) by (nonlinear_arith)
        requires
            0 <= t <= w,
            0 < h,
    ;
    vstd::arithmetic::div_mod::lemma_div_is_ordered(t * h, w * h, w);
    assert(w * h == h * w) by (nonlinear_arith);
    vstd::arithmetic::div_mod::lemma_div_by_multiple(h, w);
    vstd::arithmetic::div_mod::lemma_div_pos_is_pos(t * h, w);
}

/// The place in a picture of the pixel at this place of its preview.
fn scaled(i: usize, n: usize, m: usize) -> (r: usize)
    requires
        i < m,
        n > 0,
    ensures
        r == (i * n) / (m as int),
        r < n,
{
    proof {
        lemma_scaled(i as int, n as int, m as int);
    }
    assert(i * n <= 0xffff_ffff_ffff_ffff * 0xffff_ffff_ffff_ffff) by (nonlinear_arith)
        requires
            i <= 0xffff_ffff_ffff_ffff,
            n <= 0xffff_ffff_ffff_ffff,
    ;
    let p: u128 = (i as u128) * (n as u128);
    (p / (m as u128)) as usize
}

fn is_filled(raw: &Vec<u8>, w: usize, h: usize) -> (r: bool)
    ensures
        r == has_pixels(raw@, w as int, h as int),
{
    if w == 0 || h == 0 {
        return false;
    }
    assert(w * h <= 0xffff_ffff_ffff_ffff * 0xffff_ffff_ffff_ffff) by (nonlinear_arith)
        requires
            w <= 0xffff_ffff_ffff_ffff,
            h <= 0xffff_ffff_ffff_ffff,
    ;
    let area: u128 = (w as u128) * (h as u128);
    area <= (raw.len() as u128) / 4
}

/// A small copy of a picture, at most 320 pixels wide; none where the picture is empty or its bytes
/// do not fill it.
pub fn capture_thumbnail(raw: &Vec<u8>, w: usize, h: usize) -> (r: Option<Preview>)
    ensures
        match r {
            Some(p) => has_pixels(raw@, w as int, h as int) && p.width == preview_width(w as int)
                && p.height == preview_height(w as int, h as int) && p.data@ == preview_rows(
                raw@,
                w as int,
                h as int,
                p.height as nat,
            ),
            None => !has_pixels(raw@, w as int, h as int),
        },
{
    if !is_filled(raw, w, h) {
        return None;
    }
    proof {
        lemma_preview_size(w as int, h as int);
    }
    assert(raw.len() == raw@.len());
    let tw: usize = if w < PREVIEW_WIDTH {
        w
    } else {
        PREVIEW_WIDTH
    };
    let t: usize = (tw * h) / w;
    let th: usize = if t < 1 {
        1
    } else {
        t
    };
    let mut out: Vec<u8> = Vec::new();
    let mut y: usize = 0;
    assert(out@ =~= preview_rows(raw@, w as int, h as int, 0));
    while y < th
        invariant
            y <= th,
            tw == preview_width(w as int),
            th == preview_height(w as int, h as int),
            0 < tw <= w,
            0 < th <= h,
            has_pixels(raw@, w as int, h as int),
            out@ == preview_rows(raw@, w as int, h as int, y as nat),
        decreases th - y,
    {
        let sy: usize = scaled(y, h, th);
        let ghost start = out@;
        let mut x: usize = 0;
        assert(out@ =~= start + preview_row(raw@, w as int, h as int, y as int, 0));
        while x < tw
            invariant
                x <= tw,
                y < th,
                tw == preview_width(w as int),
                th == preview_height(w as int, h as int),
                0 < tw <= w,
                0 < th <= h,
                has_pixels(raw@, w as int, h as int),
                sy == (y * h) / (th as int),
                sy < h,
                out@ == start + preview_row(raw@, w as int, h as int, y as int, x as nat),
            decreases tw - x,
        {
            let sx: usize = scaled(x, w, tw);
            let ghost before = out@;
            proof {
                lemma_pixel_inside(sx as int, sy as int, w as int, h as int);
                assert(raw.len() == raw@.len());
                assert(0 <= sy * w) by (nonlinear_arith)
                    requires
                        0 <= sy,
                        0 <= w,
                ;
            }
            let o: usize = (sy * w + sx) * 4;
            out.push(raw[o]);
            out.push(raw[o + 1]);
            out.push(raw[o + 2]);
            out.push(raw[o + 3]);
            assert(out@ =~= before + raw@.subrange(o as int, o + 4));
            assert(out@ =~= start + (preview_row(raw@, w as int, h as int, y as int, x as nat)
                + raw@.subrange(o as int, o + 4)));
            x = x + 1;
        }
        y = y + 1;
    }
    Some(Preview { width: tw, height: th, data: out })
}

proof fn lemma_row_len(raw: Seq<u8>, w: int, h: int, y: int, n: nat)
    requires
        has_pixels(raw, w, h),
        0 <= y < preview_height(w, h),
        n <= preview_width(w),
    ensures
        preview_row(raw, w, h, y, n).len() == 4 * n,
    decreases n,
{
    if n > 0 {
        lemma_row_len(raw, w, h, y, (n - 1) as nat);
        lemma_preview_size(w, h);
        lemma_scaled(y, h, preview_height(w, h));
        lemma_scaled(n - 1, w, preview_width(w));
        lemma_pixel_inside(
            ((n - 1) * w) / preview_width(w),
            (y * h) / preview_height(w, h),
            w,
            h,
        );
    }
}

proof fn lemma_rows_len(raw: Seq<u8>, w: int, h: int, n: nat)
    requires
        has_pixels(raw, w, h),
        n <= preview_height(w, h),
    ensures
        preview_rows(raw, w, h, n).len() == 4 * preview_width(w) * n,
    decreases n,
{
    lemma_preview_size(w, h);
    if n > 0 {
        lemma_rows_len(raw, w, h, (n - 1) as nat);
        lemma_row_len(raw, w, h, n - 1, preview_width(w) as nat);
        let t = preview_width(w);
        assert(4 * t * (n - 1) + 4 * t == 4 * t * n) by (nonlinear_arith);
    } else {
        assert(4 * preview_width(w) * 0 == 0) by (nonlinear_arith);
    }
}

/// A preview is at most 320 pixels wide, no larger than the picture, and its bytes fill it.
pub proof fn previews_are_small(raw: Seq<u8>, w: int, h: int)
    requires
        has_pixels(raw, w, h),
    ensures
        0 < preview_width(w) <= PREVIEW_WIDTH,
        preview_width(w) <= w,
        0 < preview_height(w, h) <= h,
        preview_rows(raw, w, h, preview_height(w, h) as nat).len() == 4 * preview_width(w)
            * preview_height(w, h),
{
    lemma_preview_size(w, h);
    lemma_rows_len(raw, w, h, preview_height(w, h) as nat);
}

// ---------------------------------------------------------------------------
// Laws
// ---------------------------------------------------------------------------

/// A pixel keeps its colours: red stays red and blue blue, whichever way round the bytes came, and a
/// pixel without an opacity is opaque.
pub proof fn pixels_keep_their_colours(d: Seq<u8>, r: u8, g: u8, b: u8, a: u8)
    ensures
        rgba_of(PixelFormat::BGRA8, seq![b, g, r, a] + d) == seq![r, g, b, a] + rgba_of(
            PixelFormat::BGRA8,
            d,
        ),
        rgba_of(PixelFormat::RGB8, seq![r, g, b] + d) == seq![r, g, b, 255u8] + rgba_of(
            PixelFormat::RGB8,
            d,
        ),
        rgba_of(PixelFormat::K8, seq![g] + d) == seq![g, g, g, 255u8] + rgba_of(PixelFormat::K8, d),
        rgba_of(PixelFormat::KA8, seq![g, a] + d) == seq![g, g, g, a] + rgba_of(PixelFormat::KA8, d),
        rgba_of(PixelFormat::RGBA8, d) == d,
{
    lemma_shifted(PixelFormat::BGRA8, seq![b, g, r, a], d, 0);
    lemma_shifted(PixelFormat::RGB8, seq![r, g, b], d, 0);
    lemma_shifted(PixelFormat::K8, seq![g], d, 0);
    lemma_shifted(PixelFormat::KA8, seq![g, a], d, 0);
    assert(pixel_at(PixelFormat::BGRA8, seq![b, g, r, a] + d, 0) =~= seq![r, g, b, a]);
    assert(pixel_at(PixelFormat::RGB8, seq![r, g, b] + d, 0) =~= seq![r, g, b, 255u8]);
    assert(pixel_at(PixelFormat::K8, seq![g] + d, 0) =~= seq![g, g, g, 255u8]);
    assert(pixel_at(PixelFormat::KA8, seq![g, a] + d, 0) =~= seq![g, g, g, a]);
}

proof fn lemma_shifted(f: PixelFormat, p: Seq<u8>, d: Seq<u8>, o: int)
    requires
        0 <= o,
        p.len() == pixel_size(f),
    ensures
        pixels_from(f, p + d, p.len() + o) == pixels_from(f, d, o),
    decreases d.len() - o,
{
    if o + pixel_size(f) <= d.len() {
        lemma_shifted(f, p, d, o + pixel_size(f));
        assert(pixel_at(f, p + d, p.len() + o) =~= pixel_at(f, d, o));
    }
}

/// A preview of a small picture is the picture: each of its pixels is the one at the same place.
pub proof fn small_pictures_are_kept_whole(raw: Seq<u8>, w: int, h: int, y: int, n: nat)
    requires
        0 < w <= 320,
        0 < h,
        0 <= y < h,
        n < w,
    ensures
        preview_width(w) == w,
        preview_height(w, h) == h,
        preview_row(raw, w, h, y, n + 1) == preview_row(raw, w, h, y, n) + raw.subrange(
            (y * w + n) * 4,
            (y * w + n) * 4 + 4,
        ),
{
    assert((w * h) / w == h) by (nonlinear_arith)
        requires
            w > 0,
    ;
    assert((y * h) / h == y) by (nonlinear_arith)
        requires
            h > 0,
    ;
    assert((n * w) / w == n) by (nonlinear_arith)
        requires
            w > 0,
    ;
}

/// The icon of a host with a plain name is kept under that name.
pub proof fn plain_hosts_have_a_file(h: Seq<char>)
    requires
        0 < h.len() <= 100,
        forall|i: int|
            0 <= i < h.len() ==> ('a' <= (#[trigger] h[i]) <= 'z') || ('0' <= h[i] <= '9') || h[i]
                == '.' || h[i] == '-',
    ensures
        cache_file(h) == Some("favicons/"@ + h + ".png"@),
{
}

} // verus!
