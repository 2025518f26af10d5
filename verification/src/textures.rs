//! Conversion of decoded glTF images into GPU texture uploads.
use vstd::prelude::*;

verus! {

/// Pixel layout of a decoded glTF image.
#[derive(Clone, Copy, Debug, PartialEq, Eq, Structural)]
pub enum ImageFormat {
    R8,
    R8G8,
    R8G8B8,
    R8G8B8A8,
    R16,
    R16G16,
    R16G16B16,
    R16G16B16A16,
    R32G32B32FLOAT,
    R32G32B32A32FLOAT,
}

/// Texture formats the renderer creates textures in.
#[derive(Clone, Copy, Debug, PartialEq, Eq, Structural)]
pub enum TextureFormat {
    RGBA8,
    RGB8,
    RGBA16,
    RGB16,
    RGBA16Float,
    RGBA32Float,
    RG32Float,
    Depth32,
}

/// The texture format an image of `format` is uploaded as.
pub open spec fn upload_format(format: ImageFormat) -> TextureFormat {
    match format {
        ImageFormat::R8 => TextureFormat::RGBA8,
        ImageFormat::R8G8 => TextureFormat::RGBA8,
        ImageFormat::R16 => TextureFormat::RGBA16,
        ImageFormat::R16G16 => TextureFormat::RGBA16,
        ImageFormat::R8G8B8 => TextureFormat::RGB8,
        ImageFormat::R8G8B8A8 => TextureFormat::RGBA8,
        ImageFormat::R16G16B16 => TextureFormat::RGB16,
        ImageFormat::R16G16B16A16 => TextureFormat::RGBA16,
        ImageFormat::R32G32B32FLOAT => TextureFormat::RGB16,
        ImageFormat::R32G32B32A32FLOAT => TextureFormat::RGBA32Float,
    }
}

/// `pixels` cut into whole chunks of `k` bytes, each replaced by `f` of it;
/// trailing bytes that do not fill a chunk are dropped.
pub open spec fn chunked(pixels: Seq<u8>, k: nat, f: spec_fn(Seq<u8>) -> Seq<u8>) -> Seq<u8>
    decreases pixels.len(),
{
    if k == 0 || pixels.len() < k {
        Seq::empty()
    } else {
        f(pixels.take(k as int)) + chunked(pixels.skip(k as int), k, f)
    }
}

/// Grey pixels (one byte each) widened to RGBA: `r -> (r, r, r, 255)`.
pub open spec fn grey_to_rgba8() -> spec_fn(Seq<u8>) -> Seq<u8> {
    |c: Seq<u8>| seq![c[0], c[0], c[0], 255u8]
}

/// Grey-alpha pixels (two bytes each) widened to RGBA: `(l, a) -> (l, l, l, a)`.
pub open spec fn grey_alpha_to_rgba8() -> spec_fn(Seq<u8>) -> Seq<u8> {
    |c: Seq<u8>| seq![c[0], c[0], c[0], c[1]]
}

/// 16-bit grey pixels (two bytes each) widened to 16-bit RGBA with an opaque
/// alpha: `r -> (r, r, r, 0xffff)`, byte by byte.
pub open spec fn grey_to_rgba16() -> spec_fn(Seq<u8>) -> Seq<u8> {
    |c: Seq<u8>| seq![c[0], c[1], c[0], c[1], c[0], c[1], 255u8, 255u8]
}

/// 16-bit grey-alpha pixels (four bytes each) widened to 16-bit RGBA:
/// `(l, a) -> (l, l, l, a)`, byte by byte.
pub open spec fn grey_alpha_to_rgba16() -> spec_fn(Seq<u8>) -> Seq<u8> {
    |c: Seq<u8>| seq![c[0], c[1], c[0], c[1], c[0], c[1], c[2], c[3]]
}

pub open spec fn expand_r8_spec(pixels: Seq<u8>) -> Seq<u8> {
    chunked(pixels, 1, grey_to_rgba8())
}

pub open spec fn expand_r8g8_spec(pixels: Seq<u8>) -> Seq<u8> {
    chunked(pixels, 2, grey_alpha_to_rgba8())
}

pub open spec fn expand_r16_spec(pixels: Seq<u8>) -> Seq<u8> {
    chunked(pixels, 2, grey_to_rgba16())
}

pub open spec fn expand_r16g16_spec(pixels: Seq<u8>) -> Seq<u8> {
    chunked(pixels, 4, grey_alpha_to_rgba16())
}

/// The pixel data that is uploaded for an image of `format`.
pub open spec fn upload_pixels(format: ImageFormat, pixels: Seq<u8>) -> Seq<u8> {
    match format {
        ImageFormat::R8 => expand_r8_spec(pixels),
        ImageFormat::R8G8 => expand_r8g8_spec(pixels),
        ImageFormat::R16 => expand_r16_spec(pixels),
        ImageFormat::R16G16 => expand_r16g16_spec(pixels),
        _ => pixels,
    }
}

/// The pixel data of `format` is whole pixels: an even number of bytes for
/// two-byte pixels, a multiple of four for four-byte ones.
pub open spec fn whole_pixels(format: ImageFormat, len: nat) -> bool {
    match format {
        ImageFormat::R8G8 => len % 2 == 0,
        ImageFormat::R16 => len % 2 == 0,
        ImageFormat::R16G16 => len % 4 == 0,
        _ => true,
    }
}

/// Adding one more whole chunk to a prefix adds its image to the result.
proof fn lemma_chunked_step(pixels: Seq<u8>, k: nat, f: spec_fn(Seq<u8>) -> Seq<u8>, m: int)
    requires
        k > 0,
        m >= 0,
        (m + 1) * (k as int) <= pixels.len(),
    ensures
        chunked(pixels.take((m + 1) * (k as int)), k, f) == chunked(pixels.take(m * (k as int)), k, f) + f(
            pixels.subrange(m * (k as int), m * (k as int) + (k as int)),
        ),
    decreases m,
{
    assert((m + 1) * (k as int) == m * (k as int) + (k as int)) by (nonlinear_arith);
    let whole = pixels.take((m + 1) * (k as int));
    assert(whole.take(k as int) =~= pixels.take(k as int));
    if m == 0 {
        assert(m * (k as int) == 0) by (nonlinear_arith) requires m == 0;
        assert(whole =~= pixels.take(k as int));
        assert(whole.skip(k as int) =~= Seq::<u8>::empty());
        assert(pixels.take(0) =~= Seq::<u8>::empty());
        assert(pixels.subrange(0, k as int) =~= pixels.take(k as int));
    } else {
        let rest = pixels.skip(k as int);
        let m1 = m - 1;
        assert(m1 * (k as int) + (k as int) == m * (k as int)) by (nonlinear_arith) requires m1 + 1 == m;
        assert((m1 + 1) * (k as int) <= rest.len()) by (nonlinear_arith)
            requires m1 + 1 == m, (m + 1) * (k as int) <= pixels.len(), rest.len() == pixels.len() - (k as int);
        lemma_chunked_step(rest, k, f, m1);
        assert(whole.skip(k as int) =~= rest.take((m1 + 1) * (k as int)));
        let part = pixels.take(m * (k as int));
        assert(m * (k as int) >= (k as int)) by (nonlinear_arith) requires m >= 1;
        assert(part.take(k as int) =~= pixels.take(k as int));
        assert(part.skip(k as int) =~= rest.take(m1 * (k as int)));
        assert(rest.subrange(m1 * (k as int), m1 * (k as int) + (k as int)) =~= pixels.subrange(m * (k as int), m * (k as int) + (k as int)));
        assert(f(pixels.take(k as int)) + (chunked(rest.take(m1 * (k as int)), k, f) + f(
            pixels.subrange(m * (k as int), m * (k as int) + (k as int)),
        )) =~= (f(pixels.take(k as int)) + chunked(rest.take(m1 * (k as int)), k, f)) + f(
            pixels.subrange(m * (k as int), m * (k as int) + (k as int)),
        ));
    }
}

proof fn lemma_chunked_all(pixels: Seq<u8>, k: nat, f: spec_fn(Seq<u8>) -> Seq<u8>, m: int)
    requires
        k > 0,
        m * (k as int) == pixels.len(),
    ensures
        chunked(pixels.take(m * (k as int)), k, f) == chunked(pixels, k, f),
{
    assert(pixels.take(m * (k as int)) =~= pixels);
}

/// Byte `i` of `chunked(pixels, k, f)` is byte `i % m` of the image of chunk
/// `i / m`, when every chunk's image has `m` bytes; there are `m` bytes per
/// whole chunk.
proof fn lemma_chunked_index(pixels: Seq<u8>, k: nat, f: spec_fn(Seq<u8>) -> Seq<u8>, m: nat)
    requires
        k > 0,
        m > 0,
        forall|c: Seq<u8>| c.len() == k ==> (#[trigger] f(c)).len() == m,
    ensures
        chunked(pixels, k, f).len() == (pixels.len() / k) * m,
        forall|i: int|
            0 <= i < chunked(pixels, k, f).len() ==> #[trigger] chunked(pixels, k, f)[i] == f(
                pixels.subrange((i / m as int) * k, (i / m as int) * k + k),
            )[i % m as int],
    decreases pixels.len(),
{
    if pixels.len() < k {
        assert(pixels.len() / k == 0) by (nonlinear_arith)
            requires pixels.len() < k, k > 0;
    } else {
        let rest = pixels.skip(k as int);
        lemma_chunked_index(rest, k, f, m);
        let head = f(pixels.take(k as int));
        assert(head.len() == m);
        assert(rest.len() / k == pixels.len() / k - 1) by (nonlinear_arith)
            requires rest.len() == pixels.len() - k, pixels.len() >= k, k > 0;
        assert((pixels.len() / k) * m == m + (rest.len() / k) * m) by (nonlinear_arith)
            requires rest.len() / k == pixels.len() / k - 1, pixels.len() / k >= 1;
        let all = chunked(pixels, k, f);
        assert(all == head + chunked(rest, k, f));
        assert forall|i: int| 0 <= i < all.len() implies #[trigger] all[i] == f(
            pixels.subrange((i / m as int) * k, (i / m as int) * k + k),
        )[i % m as int] by {
            if i < m {
                assert(i / m as int == 0 && i % m as int == i) by (nonlinear_arith)
                    requires 0 <= i < m;
                assert(pixels.subrange(0, k as int) =~= pixels.take(k as int));
            } else {
                let i2 = i - m;
                assert(all[i] == chunked(rest, k, f)[i2]);
                assert(i / m as int == i2 / m as int + 1 && i % m as int == i2 % m as int) by (nonlinear_arith)
                    requires i2 == i - m, i >= m, m > 0;
                let q = i2 / m as int;
                assert(q >= 0) by (nonlinear_arith) requires i2 >= 0, m > 0, q == i2 / m as int;
                assert(q * k + k + k <= pixels.len()) by (nonlinear_arith)
                    requires
                        0 <= i2 < (rest.len() / k) * m,
                        q == i2 / m as int,
                        m > 0,
                        k > 0,
                        rest.len() == pixels.len() - k;
                assert(rest.subrange(q * k, q * k + k) =~= pixels.subrange((q + 1) * k, (q + 1) * k + k)) by {
                    assert((q + 1) * k == q * k + k) by (nonlinear_arith);
                }
            }
        }
    }
}

/// The bytes uploaded for an image hold one texel of the upload format per
/// source pixel: grey `r` becomes `(r, r, r, 255)`, grey-alpha `(l, a)`
/// becomes `(l, l, l, a)`, and the 16-bit formats do the same with two-byte
/// channels and an alpha of `0xffff`; the other formats are uploaded as they
/// are.
pub proof fn lemma_upload_texels(format: ImageFormat, pixels: Seq<u8>)
    requires
        whole_pixels(format, pixels.len()),
    ensures
        format == ImageFormat::R8 ==> upload_pixels(format, pixels).len() == 4 * pixels.len() && forall|i: int|
            0 <= i < 4 * pixels.len() ==> #[trigger] upload_pixels(format, pixels)[i] == (if i % 4 == 3 {
                255u8
            } else {
                pixels[i / 4]
            }),
        format == ImageFormat::R8G8 ==> upload_pixels(format, pixels).len() == 2 * pixels.len() && forall|i: int|
            0 <= i < 2 * pixels.len() ==> #[trigger] upload_pixels(format, pixels)[i] == (if i % 4 == 3 {
                pixels[2 * (i / 4) + 1]
            } else {
                pixels[2 * (i / 4)]
            }),
        format == ImageFormat::R16 ==> upload_pixels(format, pixels).len() == 4 * pixels.len() && forall|i: int|
            0 <= i < 4 * pixels.len() ==> #[trigger] upload_pixels(format, pixels)[i] == (if i % 8 >= 6 {
                255u8
            } else {
                pixels[2 * (i / 8) + i % 2]
            }),
        format == ImageFormat::R16G16 ==> upload_pixels(format, pixels).len() == 2 * pixels.len() && forall|i: int|
            0 <= i < 2 * pixels.len() ==> #[trigger] upload_pixels(format, pixels)[i] == (if i % 8 >= 6 {
                pixels[4 * (i / 8) + 2 + i % 2]
            } else {
                pixels[4 * (i / 8) + i % 2]
            }),
        format != ImageFormat::R8 && format != ImageFormat::R8G8 && format != ImageFormat::R16 && format
            != ImageFormat::R16G16 ==> upload_pixels(format, pixels) == pixels,
{
    let n = pixels.len();
    let out = upload_pixels(format, pixels);
    if format == ImageFormat::R8 {
        let f = grey_to_rgba8();
        assert forall|c: Seq<u8>| c.len() == 1 implies (#[trigger] f(c)).len() == 4 by {}
        lemma_chunked_index(pixels, 1, f, 4);
        assert(n / 1 * 4 == 4 * n);
        assert forall|i: int| 0 <= i < 4 * n implies #[trigger] out[i] == (if i % 4 == 3 { 255u8 } else { pixels[i / 4] }) by {
            let q = i / 4;
            assert(0 <= q < n) by (nonlinear_arith) requires 0 <= i < 4 * n, q == i / 4;
            let c = pixels.subrange(q * 1, q * 1 + 1);
            assert(c[0] == pixels[q]);
        }
    } else if format == ImageFormat::R8G8 {
        let f = grey_alpha_to_rgba8();
        assert forall|c: Seq<u8>| c.len() == 2 implies (#[trigger] f(c)).len() == 4 by {}
        lemma_chunked_index(pixels, 2, f, 4);
        assert(n / 2 * 4 == 2 * n) by (nonlinear_arith) requires n % 2 == 0;
        assert forall|i: int| 0 <= i < 2 * n implies #[trigger] out[i] == (if i % 4 == 3 {
            pixels[2 * (i / 4) + 1]
        } else {
            pixels[2 * (i / 4)]
        }) by {
            let q = i / 4;
            assert(0 <= q && 2 * q + 2 <= n) by (nonlinear_arith) requires 0 <= i < 2 * n, q == i / 4, n % 2 == 0;
            let c = pixels.subrange(q * 2, q * 2 + 2);
            assert(c[0] == pixels[2 * q] && c[1] == pixels[2 * q + 1]);
        }
    } else if format == ImageFormat::R16 {
        let f = grey_to_rgba16();
        assert forall|c: Seq<u8>| c.len() == 2 implies (#[trigger] f(c)).len() == 8 by {}
        lemma_chunked_index(pixels, 2, f, 8);
        assert(n / 2 * 8 == 4 * n) by (nonlinear_arith) requires n % 2 == 0;
        assert forall|i: int| 0 <= i < 4 * n implies #[trigger] out[i] == (if i % 8 >= 6 {
            255u8
        } else {
            pixels[2 * (i / 8) + i % 2]
        }) by {
            let q = i / 8;
            assert(0 <= q && 2 * q + 2 <= n) by (nonlinear_arith) requires 0 <= i < 4 * n, q == i / 8, n % 2 == 0;
            let c = pixels.subrange(q * 2, q * 2 + 2);
            assert(c[0] == pixels[2 * q] && c[1] == pixels[2 * q + 1]);
            let r = i % 8;
            assert(r % 2 == i % 2) by (nonlinear_arith) requires r == i % 8, i >= 0;
            assert(out[i] == f(c)[r]);
        }
    } else if format == ImageFormat::R16G16 {
        let f = grey_alpha_to_rgba16();
        assert forall|c: Seq<u8>| c.len() == 4 implies (#[trigger] f(c)).len() == 8 by {}
        lemma_chunked_index(pixels, 4, f, 8);
        assert(n / 4 * 8 == 2 * n) by (nonlinear_arith) requires n % 4 == 0;
        assert forall|i: int| 0 <= i < 2 * n implies #[trigger] out[i] == (if i % 8 >= 6 {
            pixels[4 * (i / 8) + 2 + i % 2]
        } else {
            pixels[4 * (i / 8) + i % 2]
        }) by {
            let q = i / 8;
            assert(0 <= q && 4 * q + 4 <= n) by (nonlinear_arith) requires 0 <= i < 2 * n, q == i / 8, n % 4 == 0;
            let c = pixels.subrange(q * 4, q * 4 + 4);
            assert(c[0] == pixels[4 * q] && c[1] == pixels[4 * q + 1] && c[2] == pixels[4 * q + 2] && c[3]
                == pixels[4 * q + 3]);
            let r = i % 8;
            assert(r % 2 == i % 2) by (nonlinear_arith) requires r == i % 8, i >= 0;
            assert(out[i] == f(c)[r]);
        }
    }
}

/// Widens grey pixels to RGBA.
pub fn expand_r8(pixels: &Vec<u8>) -> (out: Vec<u8>)
    ensures
        out@ == expand_r8_spec(pixels@),
        out.len() == 4 * pixels.len(),
        forall|i: int| 0 <= i < out.len() ==> #[trigger] out[i] == (if i % 4 == 3 { 255u8 } else { pixels[i / 4] }),
{
    proof {
        lemma_upload_texels(ImageFormat::R8, pixels@);
    }
    let mut out: Vec<u8> = Vec::new();
    let mut i: usize = 0;
    while i < pixels.len()
        invariant
            i <= pixels.len(),
            out@ == chunked(pixels@.take(i as int), 1, grey_to_rgba8()),
        decreases pixels.len() - i,
    {
        let r = pixels[i];
        let ghost before = out@;
        out.push(r);
        out.push(r);
        out.push(r);
        out.push(255u8);
        proof {
            lemma_chunked_step(pixels@, 1, grey_to_rgba8(), i as int);
            assert(pixels@.subrange(i as int, i + 1)[0] == r);
            assert(out@ =~= before + grey_to_rgba8()(pixels@.subrange(i as int, i + 1)));
        }
        i = i + 1;
    }
    proof {
        lemma_chunked_all(pixels@, 1, grey_to_rgba8(), pixels.len() as int);
    }
    out
}

/// Widens grey-alpha pixels to RGBA.
pub fn expand_r8g8(pixels: &Vec<u8>) -> (out: Vec<u8>)
    requires
        pixels.len() % 2 == 0,
    ensures
        out@ == expand_r8g8_spec(pixels@),
        out.len() == 2 * pixels.len(),
        forall|i: int|
            0 <= i < out.len() ==> #[trigger] out[i] == (if i % 4 == 3 {
                pixels[2 * (i / 4) + 1]
            } else {
                pixels[2 * (i / 4)]
            }),
{
    proof {
        lemma_upload_texels(ImageFormat::R8G8, pixels@);
    }
    let mut out: Vec<u8> = Vec::new();
    let mut i: usize = 0;
    while i < pixels.len() / 2
        invariant
            pixels.len() % 2 == 0,
            i <= pixels.len() / 2,
            out@ == chunked(pixels@.take(2 * i as int), 2, grey_alpha_to_rgba8()),
        decreases pixels.len() / 2 - i,
    {
        let l = pixels[2 * i];
        let a = pixels[2 * i + 1];
        let ghost before = out@;
        out.push(l);
        out.push(l);
        out.push(l);
        out.push(a);
        proof {
            lemma_chunked_step(pixels@, 2, grey_alpha_to_rgba8(), i as int);
            let c = pixels@.subrange(2 * i as int, 2 * i + 2);
            assert(c[0] == l && c[1] == a);
            assert(out@ =~= before + grey_alpha_to_rgba8()(c));
            assert((i + 1) * 2 == 2 * (i + 1));
        }
        i = i + 1;
    }
    proof {
        lemma_chunked_all(pixels@, 2, grey_alpha_to_rgba8(), (pixels.len() / 2) as int);
    }
    out
}

/// Widens 16-bit grey pixels to 16-bit RGBA with an opaque alpha.
pub fn expand_r16(pixels: &Vec<u8>) -> (out: Vec<u8>)
    requires
        pixels.len() % 2 == 0,
    ensures
        out@ == expand_r16_spec(pixels@),
        out.len() == 4 * pixels.len(),
        forall|i: int|
            0 <= i < out.len() ==> #[trigger] out[i] == (if i % 8 >= 6 { 255u8 } else { pixels[2 * (i / 8) + i % 2] }),
{
    proof {
        lemma_upload_texels(ImageFormat::R16, pixels@);
    }
    let mut out: Vec<u8> = Vec::new();
    let mut i: usize = 0;
    while i < pixels.len() / 2
        invariant
            pixels.len() % 2 == 0,
            i <= pixels.len() / 2,
            out@ == chunked(pixels@.take(2 * i as int), 2, grey_to_rgba16()),
        decreases pixels.len() / 2 - i,
    {
        let r0 = pixels[2 * i];
        let r1 = pixels[2 * i + 1];
        let ghost before = out@;
        out.push(r0);
        out.push(r1);
        out.push(r0);
        out.push(r1);
        out.push(r0);
        out.push(r1);
        out.push(255u8);
        out.push(255u8);
        proof {
            lemma_chunked_step(pixels@, 2, grey_to_rgba16(), i as int);
            let c = pixels@.subrange(2 * i as int, 2 * i + 2);
            assert(c[0] == r0 && c[1] == r1);
            assert(out@ =~= before + grey_to_rgba16()(c));
            assert((i + 1) * 2 == 2 * (i + 1));
        }
        i = i + 1;
    }
    proof {
        lemma_chunked_all(pixels@, 2, grey_to_rgba16(), (pixels.len() / 2) as int);
    }
    out
}

/// Widens 16-bit grey-alpha pixels to 16-bit RGBA.
pub fn expand_r16g16(pixels: &Vec<u8>) -> (out: Vec<u8>)
    requires
        pixels.len() % 4 == 0,
    ensures
        out@ == expand_r16g16_spec(pixels@),
        out.len() == 2 * pixels.len(),
        forall|i: int|
            0 <= i < out.len() ==> #[trigger] out[i] == (if i % 8 >= 6 {
                pixels[4 * (i / 8) + 2 + i % 2]
            } else {
                pixels[4 * (i / 8) + i % 2]
            }),
{
    proof {
        lemma_upload_texels(ImageFormat::R16G16, pixels@);
    }
    let mut out: Vec<u8> = Vec::new();
    let mut i: usize = 0;
    while i < pixels.len() / 4
        invariant
            pixels.len() % 4 == 0,
            i <= pixels.len() / 4,
            out@ == chunked(pixels@.take(4 * i as int), 4, grey_alpha_to_rgba16()),
        decreases pixels.len() / 4 - i,
    {
        let l0 = pixels[4 * i];
        let l1 = pixels[4 * i + 1];
        let a0 = pixels[4 * i + 2];
        let a1 = pixels[4 * i + 3];
        let ghost before = out@;
        out.push(l0);
        out.push(l1);
        out.push(l0);
        out.push(l1);
        out.push(l0);
        out.push(l1);
        out.push(a0);
        out.push(a1);
        proof {
            lemma_chunked_step(pixels@, 4, grey_alpha_to_rgba16(), i as int);
            let c = pixels@.subrange(4 * i as int, 4 * i + 4);
            assert(c[0] == l0 && c[1] == l1 && c[2] == a0 && c[3] == a1);
            assert(out@ =~= before + grey_alpha_to_rgba16()(c));
            assert((i + 1) * 4 == 4 * (i + 1));
        }
        i = i + 1;
    }
    proof {
        lemma_chunked_all(pixels@, 4, grey_alpha_to_rgba16(), (pixels.len() / 4) as int);
    }
    out
}

/// Converts a decoded image into the pixel data and texture format it is
/// uploaded with: one- and two-channel images are widened to four channels,
/// the others are uploaded as they are.
pub fn convert_image(format: ImageFormat, pixels: Vec<u8>) -> (r: (Vec<u8>, TextureFormat))
    requires
        whole_pixels(format, pixels.len() as nat),
    ensures
        r.0@ == upload_pixels(format, pixels@),
        r.1 == upload_format(format),
        format == ImageFormat::R8 ==> r.0.len() == 4 * pixels.len() && r.1 == TextureFormat::RGBA8 && forall|i: int|
            0 <= i < r.0.len() ==> #[trigger] r.0[i] == (if i % 4 == 3 { 255u8 } else { pixels[i / 4] }),
        format == ImageFormat::R8G8 ==> r.0.len() == 2 * pixels.len() && r.1 == TextureFormat::RGBA8 && forall|i: int|
            0 <= i < r.0.len() ==> #[trigger] r.0[i] == (if i % 4 == 3 {
                pixels[2 * (i / 4) + 1]
            } else {
                pixels[2 * (i / 4)]
            }),
        format == ImageFormat::R16 ==> r.0.len() == 4 * pixels.len() && r.1 == TextureFormat::RGBA16 && forall|i: int|
            0 <= i < r.0.len() ==> #[trigger] r.0[i] == (if i % 8 >= 6 { 255u8 } else { pixels[2 * (i / 8) + i % 2] }),
        format == ImageFormat::R16G16 ==> r.0.len() == 2 * pixels.len() && r.1 == TextureFormat::RGBA16 && forall|i: int|
            0 <= i < r.0.len() ==> #[trigger] r.0[i] == (if i % 8 >= 6 {
                pixels[4 * (i / 8) + 2 + i % 2]
            } else {
                pixels[4 * (i / 8) + i % 2]
            }),
        format != ImageFormat::R8 && format != ImageFormat::R8G8 && format != ImageFormat::R16 && format
            != ImageFormat::R16G16 ==> r.0@ == pixels@,
{
    proof {
        lemma_upload_texels(format, pixels@);
    }
    match format {
        ImageFormat::R8 => (expand_r8(&pixels), TextureFormat::RGBA8),
        ImageFormat::R8G8 => (expand_r8g8(&pixels), TextureFormat::RGBA8),
        ImageFormat::R16 => (expand_r16(&pixels), TextureFormat::RGBA16),
        ImageFormat::R16G16 => (expand_r16g16(&pixels), TextureFormat::RGBA16),
        ImageFormat::R8G8B8 => (pixels, TextureFormat::RGB8),
        ImageFormat::R8G8B8A8 => (pixels, TextureFormat::RGBA8),
        ImageFormat::R16G16B16 => (pixels, TextureFormat::RGB16),
        ImageFormat::R16G16B16A16 => (pixels, TextureFormat::RGBA16),
        ImageFormat::R32G32B32FLOAT => (pixels, TextureFormat::RGB16),
        ImageFormat::R32G32B32A32FLOAT => (pixels, TextureFormat::RGBA32Float),
    }
}

/// Formats whose mipmaps the renderer can generate with its compute pass.
pub open spec fn mipmappable(format: TextureFormat) -> bool {
    format == TextureFormat::RGBA8 || format == TextureFormat::RGBA16Float || format == TextureFormat::RGBA32Float
        || format == TextureFormat::RGB8 || format == TextureFormat::RGB16
}

/// Whether mipmaps are generated for textures of `format`.
pub fn supports_mipmaps(format: TextureFormat) -> (r: bool)
    ensures
        r == mipmappable(format),
{
    match format {
        TextureFormat::RGBA8 | TextureFormat::RGBA16Float | TextureFormat::RGBA32Float | TextureFormat::RGB8
        | TextureFormat::RGB16 => true,
        _ => false,
    }
}

/// `floor(log2(n))` for `n >= 1`, and 0 for `n == 0`.
pub open spec fn floor_log2(n: nat) -> nat
    decreases n,
{
    if n < 2 {
        0
    } else {
        1 + floor_log2(n / 2)
    }
}

/// The number of mip levels a texture of `width` by `height` gets: one level
/// per halving of its larger side down to a single texel, at most ten, and
/// a single level for formats without mipmap support.
pub open spec fn mip_levels(width: nat, height: nat, format: TextureFormat) -> nat {
    if mipmappable(format) {
        let m = if width >= height { width } else { height };
        if floor_log2(m) + 1 <= 10 { floor_log2(m) + 1 } else { 10 }
    } else {
        1
    }
}

/// `2^k`.
pub open spec fn pow2_nat(k: nat) -> nat
    decreases k,
{
    if k == 0 { 1 } else { 2 * pow2_nat((k - 1) as nat) }
}

proof fn lemma_floor_log2_below(n: nat, k: nat)
    requires
        k >= 1,
        n < pow2_nat(k),
    ensures
        floor_log2(n) < k,
    decreases k,
{
    if n >= 2 {
        if k == 1 {
            assert(pow2_nat(1) == 2 * pow2_nat(0));
        } else {
            lemma_floor_log2_below(n / 2, (k - 1) as nat);
        }
    }
}

/// `floor(log2(n))` of a `u32` is at most 31.
proof fn lemma_floor_log2_u32(n: nat)
    requires
        n <= u32::MAX,
    ensures
        floor_log2(n) <= 31,
{
    reveal_with_fuel(pow2_nat, 33);
    assert(pow2_nat(32) == 0x1_0000_0000nat);
    lemma_floor_log2_below(n, 32);
}

/// Computes `floor(log2(n))` (0 for `n <= 1`).
pub fn floor_log2_u32(n: u32) -> (r: u32)
    ensures
        r == floor_log2(n as nat),
        r <= 31,
{
    proof {
        lemma_floor_log2_u32(n as nat);
    }
    let mut m = n;
    let mut r: u32 = 0;
    while m >= 2
        invariant
            r + floor_log2(m as nat) == floor_log2(n as nat),
            floor_log2(n as nat) <= 31,
        decreases m,
    {
        m = m / 2;
        r = r + 1;
    }
    r
}

/// The number of mip levels a glTF texture is created with.
pub fn mip_level_count(width: u32, height: u32, format: TextureFormat) -> (r: u32)
    ensures
        r == mip_levels(width as nat, height as nat, format),
        1 <= r <= 10,
{
    if supports_mipmaps(format) {
        let max_dimension = if width >= height { width } else { height };
        let levels = floor_log2_u32(max_dimension) + 1;
        if levels <= 10 { levels } else { 10 }
    } else {
        1
    }
}

// ---------------------------------------------------------------- extensions

/// The glTF extensions the loader understands.
pub open spec fn supported_extension(name: Seq<char>) -> bool {
    name == "KHR_materials_unlit"@ || name == "KHR_materials_pbrSpecularGlossiness"@
        || name == "KHR_materials_emissive_strength"@
}

/// The names among `names` that the loader does not understand, in order.
pub open spec fn unsupported(names: Seq<String>) -> Seq<String>
    decreases names.len(),
{
    if names.len() == 0 {
        Seq::empty()
    } else {
        let rest = unsupported(names.drop_last());
        if supported_extension(names.last()@) {
            rest
        } else {
            rest.push(names.last())
        }
    }
}

/// Whether the loader understands the extension `name`.
pub fn is_supported_extension(name: &String) -> (r: bool)
    ensures
        r == supported_extension(name@),
{
    let unlit = "KHR_materials_unlit".to_owned();
    let spec_gloss = "KHR_materials_pbrSpecularGlossiness".to_owned();
    let emissive = "KHR_materials_emissive_strength".to_owned();
    *name == unlit || *name == spec_gloss || *name == emissive
}

/// The extensions among `names` the loader does not understand, in order.
pub fn unsupported_extensions(names: &Vec<String>) -> (r: Vec<String>)
    ensures
        r@ == unsupported(names@),
{
    let mut r: Vec<String> = Vec::new();
    let mut i: usize = 0;
    while i < names.len()
        invariant
            i <= names.len(),
            r@ == unsupported(names@.take(i as int)),
        decreases names.len() - i,
    {
        proof {
            assert(names@.take(i + 1).drop_last() =~= names@.take(i as int));
        }
        if !is_supported_extension(&names[i]) {
            r.push(names[i].clone());
        }
        i = i + 1;
    }
    assert(names@.take(names.len() as int) =~= names@);
    r
}

/// Checks the extensions a glTF file requires: it is refused, with the list
/// of offending names, when it requires any the loader does not understand.
pub fn check_required_extensions(required: &Vec<String>) -> (r: Result<(), Vec<String>>)
    ensures
        r is Ok <==> unsupported(required@).len() == 0,
        r matches Err(names) ==> names@ == unsupported(required@),
{
    let names = unsupported_extensions(required);
    if names.len() == 0 {
        Ok(())
    } else {
        Err(names)
    }
}

} // verus!
