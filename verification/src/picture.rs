//! PNG encoding of captured window pixels.

use vstd::prelude::*;

verus! {

/// The PNG file that `image` writes (default PNG encoder settings) for a
/// `width` x `height` RGBA8 image whose pixel bytes, row-major and four per pixel,
/// are `rgba`.
pub uninterp spec fn png_encoding(width: u32, height: u32, rgba: Seq<u8>) -> Seq<u8>;

/// The message of the error that PNG encoding of a `width` x `height` image reports.
pub uninterp spec fn png_encoding_error(width: u32, height: u32) -> Seq<char>;

/// `image::RgbaImage::from_raw`, then `DynamicImage::write_to` with
/// `ImageFormat::Png` into memory; an encoding error is rendered by its `Display`.
/// With exactly four bytes per pixel the buffer is accepted as is; the PNG encoder
/// rejects a zero width or height and, writing to memory, fails in no other case.
#[verifier::external_body]
pub(crate) fn encode_png(width: u32, height: u32, rgba: Vec<u8>) -> (r: Result<Vec<u8>, String>)
    requires
        rgba@.len() == 4 * width * height,
    ensures
        r is Ok <==> (width > 0 && height > 0),
        r matches Ok(png) ==> png@ == png_encoding(width, height, rgba@),
        r matches Err(m) ==> m@ == png_encoding_error(width, height),
{
    let image = image::RgbaImage::from_raw(width, height, rgba).expect("four bytes per pixel");
    let mut png = Vec::new();
    match image::DynamicImage::ImageRgba8(image).write_to(&mut std::io::Cursor::new(&mut png), image::ImageFormat::Png) {
        Ok(()) => Ok(png),
        Err(e) => Err(e.to_string()),
    }
}

/// Byte `i` of the opaque RGBA form of BGRA pixels `bgra`: within each whole pixel the
/// blue and red bytes trade places and alpha becomes `0xff`; bytes after the last
/// whole pixel stay as they are.
pub open spec fn opaque_rgba_byte(bgra: Seq<u8>, i: int) -> u8 {
    let whole = bgra.len() - bgra.len() % 4;
    if i >= whole {
        bgra[i]
    } else if i % 4 == 0 {
        bgra[i + 2]
    } else if i % 4 == 2 {
        bgra[i - 2]
    } else if i % 4 == 3 {
        0xffu8
    } else {
        bgra[i]
    }
}

/// Converts BGRA pixels, as a Windows DIB holds them, to opaque RGBA.
pub fn bgra_to_opaque_rgba(bgra: Vec<u8>) -> (rgba: Vec<u8>)
    ensures
        rgba.len() == bgra.len(),
        forall|i: int| 0 <= i < bgra.len() ==> #[trigger] rgba@[i] == opaque_rgba_byte(bgra@, i),
{
    let ghost orig = bgra@;
    let mut px = bgra;
    let n = px.len();
    let whole = n - n % 4;
    let mut k: usize = 0;
    while k < whole
        invariant
            px.len() == n,
            n == orig.len(),
            whole == n - n % 4,
            k % 4 == 0,
            k <= whole,
            forall|i: int| 0 <= i < k ==> #[trigger] px@[i] == opaque_rgba_byte(orig, i),
            forall|i: int| k <= i < n ==> #[trigger] px@[i] == orig[i],
        decreases whole - k,
    {
        let blue = px[k];
        let red = px[k + 2];
        px.set(k, red);
        px.set(k + 2, blue);
        px.set(k + 3, 0xff);
        assert forall|i: int| 0 <= i < k + 4 implies #[trigger] px@[i] == opaque_rgba_byte(orig, i) by {
            if i >= k {
                assert(i - k < 4);
                assert((i - k) % 4 == i % 4 - k % 4) by (nonlinear_arith)
                    requires k % 4 == 0, i >= k, i - k < 4;
            }
        }
        k = k + 4;
    }
    px
}

} // verus!
