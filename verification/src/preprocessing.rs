use vstd::arithmetic::div_mod::{lemma_div_is_ordered, lemma_fundamental_div_mod_converse};
use vstd::prelude::*;

use crate::error::Error;

verus! {

/// One RGB image: `width * height` pixels, row-major, three bytes per pixel.
#[derive(Debug)]
pub struct Image {
    pub width: u32,
    pub height: u32,
    pub data: Vec<u8>,
}

impl Image {
    /// The byte buffer holds exactly three bytes for every pixel.
    pub open spec fn wf(self) -> bool {
        self.data@.len() == 3 * (self.width as int) * (self.height as int)
    }
}

/// Position of channel `c` of pixel `(y, x)` in a canvas byte buffer
/// (fixed 804x32 geometry, row-major, channels interleaved).
pub open spec fn cv_idx(y: int, x: int, c: int) -> int {
    (y * 804 + x) * 3 + c
}

/// Width in pixels that the resized content occupies on the canvas.
/// An image relatively wider than the canvas fills the whole width;
/// otherwise the height is fixed at 32 and the width is `round(32 * w / h)`,
/// written here with integer arithmetic: `floor((64 * w + h) / (2 * h))`.
pub open spec fn content_width(img: Image) -> int {
    if 32 * (img.width as int) > 804 * (img.height as int) {
        804
    } else {
        (64 * (img.width as int) + (img.height as int)) / (2 * (img.height as int))
    }
}

/// The pixels that nearest-neighbor resampling of `src` (a `src_w` by `src_h`
/// RGB image) to `dst_w` by `dst_h` produces. The exact pixel selection is the
/// resampling routine's own; it depends on its arguments alone.
pub uninterp spec fn nearest_resized(
    src: Seq<u8>,
    src_w: int,
    src_h: int,
    dst_w: int,
    dst_h: int,
) -> Seq<u8>;

/// The canvas byte at pixel `(y, x)`, channel `c`, for a source image `img`:
/// resized content on the left, black padding on the right.
pub open spec fn canvas_at(img: Image, y: int, x: int, c: int) -> u8 {
    let cw = content_width(img);
    if x < cw {
        nearest_resized(img.data@, img.width as int, img.height as int, cw, 32)[(y * cw + x) * 3
            + c]
    } else {
        0
    }
}

/// Relies on `image::imageops::resize` with `FilterType::Nearest`: the result
/// is an image of exactly `dst_w` by `dst_h` pixels whose bytes are a function
/// of the source pixels and the four dimensions alone.
#[verifier::external_body]
fn resize_nearest(img: &Image, dst_w: u32, dst_h: u32) -> (r: Image)
    requires
        img.wf(),
        1 <= img.width,
        1 <= img.height,
        1 <= dst_w <= 804,
        1 <= dst_h <= 32,
    ensures
        r.width == dst_w,
        r.height == dst_h,
        r.data@.len() == 3 * (dst_w as int) * (dst_h as int),
        r.data@ == nearest_resized(
            img.data@,
            img.width as int,
            img.height as int,
            dst_w as int,
            dst_h as int,
        ),
{
    let buf: image::RgbImage = image::ImageBuffer::from_raw(
        img.width,
        img.height,
        img.data.clone(),
    ).unwrap();
    let out = image::imageops::resize(&buf, dst_w, dst_h, image::imageops::FilterType::Nearest);
    Image { width: dst_w, height: dst_h, data: out.into_raw() }
}

/// The content width never exceeds the canvas width, and an image relatively
/// wider than the canvas uses all of it.
pub proof fn lemma_content_width_bounds(img: Image)
    requires
        img.height >= 1,
    ensures
        0 <= content_width(img) <= 804,
        32 * (img.width as int) > 804 * (img.height as int) ==> content_width(img) == 804,
{
    let w = img.width as int;
    let h = img.height as int;
    if !(32 * w > 804 * h) {
        assert(64 * w + h <= 1609 * h);
        lemma_div_is_ordered(64 * w + h, 1609 * h, 2 * h);
        lemma_fundamental_div_mod_converse(1609 * h, 2 * h, 804, h);
        assert((64 * w + h) / (2 * h) >= 0) by {
            lemma_div_is_ordered(0, 64 * w + h, 2 * h);
        }
    }
}

/// Normalize one RGB image onto the fixed 804x32 canvas: resize preserving
/// the aspect ratio with nearest-neighbor filtering, paste into the top-left
/// corner, and leave the remaining area black.
pub fn keepratio_resize(img: &Image) -> (r: Result<Image, Error>)
    requires
        img.wf(),
    ensures
        r is Err <==> (img.width == 0 || img.height == 0),
        r is Err ==> r->Err_0 == Error::InvalidImageDimensions,
        r is Ok ==> r->Ok_0.wf() && r->Ok_0.width == 804 && r->Ok_0.height == 32
            && r->Ok_0.data@.len() == 77184,
        r is Ok ==> forall|y: int, x: int, c: int|
            0 <= y < 32 && 0 <= x < 804 && 0 <= c < 3 ==> #[trigger] r->Ok_0.data@[cv_idx(
                y,
                x,
                c,
            )] == canvas_at(*img, y, x, c),
{
    if img.width == 0 || img.height == 0 {
        return Err(Error::InvalidImageDimensions);
    }
    let w64: u64 = img.width as u64;
    let h64: u64 = img.height as u64;
    let tw: u32 = if 32 * w64 > 804 * h64 {
        804
    } else {
        ((64 * w64 + h64) / (2 * h64)) as u32
    };
    proof {
        lemma_content_width_bounds(*img);
    }
    assert(tw as int == content_width(*img));
    let resized: Image = if tw >= 1 {
        resize_nearest(img, tw, 32)
    } else {
        Image { width: 0, height: 0, data: Vec::new() }
    };
    let cw: usize = tw as usize;
    let mut data: Vec<u8> = Vec::new();
    for y in 0..32usize
        invariant
            cw == content_width(*img),
            cw <= 804,
            cw >= 1 ==> resized.data@ == nearest_resized(
                img.data@,
                img.width as int,
                img.height as int,
                cw as int,
                32,
            ),
            cw >= 1 ==> resized.data@.len() == 3 * (cw as int) * 32,
            data@.len() == y * 2412,
            forall|yy: int, xx: int, cc: int|
                0 <= yy < 32 && 0 <= xx < 804 && 0 <= cc < 3 && cv_idx(yy, xx, cc) < data@.len()
                    ==> #[trigger] data@[cv_idx(yy, xx, cc)] == canvas_at(*img, yy, xx, cc),
    {
        for x in 0..804usize
            invariant
                cw == content_width(*img),
                cw <= 804,
                cw >= 1 ==> resized.data@ == nearest_resized(
                    img.data@,
                    img.width as int,
                    img.height as int,
                    cw as int,
                    32,
                ),
                cw >= 1 ==> resized.data@.len() == 3 * (cw as int) * 32,
                y < 32,
                data@.len() == y * 2412 + x * 3,
                forall|yy: int, xx: int, cc: int|
                    0 <= yy < 32 && 0 <= xx < 804 && 0 <= cc < 3 && cv_idx(yy, xx, cc)
                        < data@.len() ==> #[trigger] data@[cv_idx(yy, xx, cc)] == canvas_at(
                        *img,
                        yy,
                        xx,
                        cc,
                    ),
        {
            let mut c: usize = 0;
            while c < 3
                invariant
                    cw == content_width(*img),
                    cw <= 804,
                    cw >= 1 ==> resized.data@ == nearest_resized(
                        img.data@,
                        img.width as int,
                        img.height as int,
                        cw as int,
                        32,
                    ),
                    cw >= 1 ==> resized.data@.len() == 3 * (cw as int) * 32,
                    y < 32,
                    x < 804,
                    c <= 3,
                    data@.len() == y * 2412 + x * 3 + c,
                    forall|yy: int, xx: int, cc: int|
                        0 <= yy < 32 && 0 <= xx < 804 && 0 <= cc < 3 && cv_idx(yy, xx, cc)
                            < data@.len() ==> #[trigger] data@[cv_idx(yy, xx, cc)] == canvas_at(
                            *img,
                            yy,
                            xx,
                            cc,
                        ),
                decreases 3 - c,
            {
                if x < cw {
                    assert((y * cw + x) * 3 + c < 3 * cw * 32) by (nonlinear_arith)
                        requires
                            y < 32,
                            x < cw,
                            c < 3,
                            0 <= y,
                            0 <= x,
                            0 <= c,
                    ;
                    assert(y * cw + x <= 31 * 804 + 803) by (nonlinear_arith)
                        requires
                            y < 32,
                            x < cw,
                            cw <= 804,
                            0 <= y,
                            0 <= x,
                    ;
                    let v: u8 = resized.data[(y * cw + x) * 3 + c];
                    data.push(v);
                } else {
                    data.push(0u8);
                }
                c += 1;
            }
        }
    }
    let canvas = Image { width: 804, height: 32, data };
    assert(canvas.wf());
    Ok(canvas)
}

/// Position of channel `c` of pixel `(y, x)` of chunk `i` in the buffer of
/// one canvas's stacked chunks (chunk-major, then rows, columns, channels).
pub open spec fn chunk_idx(i: int, y: int, x: int, c: int) -> int {
    ((i * 32 + y) * 300 + x) * 3 + c
}

/// Cut one canvas into its three overlapping 300-pixel-wide chunks, stacked
/// into one buffer. Chunk `i` covers canvas columns `i * 252` to
/// `i * 252 + 300`; the stride of 252 leaves a 48-pixel overlap, and the
/// third chunk's right edge lands exactly on the canvas boundary.
pub fn process_chunks(canvas: &Image) -> (r: Vec<u8>)
    requires
        canvas.width == 804,
        canvas.height == 32,
        canvas.data@.len() == 77184,
    ensures
        r@.len() == 86400,
        forall|i: int, y: int, x: int, c: int|
            0 <= i < 3 && 0 <= y < 32 && 0 <= x < 300 && 0 <= c < 3 ==> #[trigger] r@[chunk_idx(
                i,
                y,
                x,
                c,
            )] == canvas.data@[cv_idx(y, i * 252 + x, c)],
{
    let mut out: Vec<u8> = Vec::new();
    for i in 0..3usize
        invariant
            canvas.data@.len() == 77184,
            out@.len() == i * 28800,
            forall|ii: int, yy: int, xx: int, cc: int|
                0 <= ii < 3 && 0 <= yy < 32 && 0 <= xx < 300 && 0 <= cc < 3 && chunk_idx(
                    ii,
                    yy,
                    xx,
                    cc,
                ) < out@.len() ==> #[trigger] out@[chunk_idx(ii, yy, xx, cc)]
                    == canvas.data@[cv_idx(yy, ii * 252 + xx, cc)],
    {
        for y in 0..32usize
            invariant
                canvas.data@.len() == 77184,
                i < 3,
                out@.len() == i * 28800 + y * 900,
                forall|ii: int, yy: int, xx: int, cc: int|
                    0 <= ii < 3 && 0 <= yy < 32 && 0 <= xx < 300 && 0 <= cc < 3 && chunk_idx(
                        ii,
                        yy,
                        xx,
                        cc,
                    ) < out@.len() ==> #[trigger] out@[chunk_idx(ii, yy, xx, cc)]
                        == canvas.data@[cv_idx(yy, ii * 252 + xx, cc)],
        {
            for x in 0..300usize
                invariant
                    canvas.data@.len() == 77184,
                    i < 3,
                    y < 32,
                    out@.len() == i * 28800 + y * 900 + x * 3,
                    forall|ii: int, yy: int, xx: int, cc: int|
                        0 <= ii < 3 && 0 <= yy < 32 && 0 <= xx < 300 && 0 <= cc < 3 && chunk_idx(
                            ii,
                            yy,
                            xx,
                            cc,
                        ) < out@.len() ==> #[trigger] out@[chunk_idx(ii, yy, xx, cc)]
                            == canvas.data@[cv_idx(yy, ii * 252 + xx, cc)],
            {
                let mut c: usize = 0;
                while c < 3
                    invariant
                        canvas.data@.len() == 77184,
                        i < 3,
                        y < 32,
                        x < 300,
                        c <= 3,
                        out@.len() == i * 28800 + y * 900 + x * 3 + c,
                        forall|ii: int, yy: int, xx: int, cc: int|
                            0 <= ii < 3 && 0 <= yy < 32 && 0 <= xx < 300 && 0 <= cc < 3
                                && chunk_idx(ii, yy, xx, cc) < out@.len()
                                ==> #[trigger] out@[chunk_idx(ii, yy, xx, cc)]
                                == canvas.data@[cv_idx(yy, ii * 252 + xx, cc)],
                    decreases 3 - c,
                {
                    let v: u8 = canvas.data[(y * 804 + i * 252 + x) * 3 + c];
                    out.push(v);
                    c += 1;
                }
            }
        }
    }
    out
}

/// Position of channel `c` of pixel `(y, x)` of batch row `k` in the packed
/// channel-first tensor of shape (rows, 3, 32, 300), row-major.
pub open spec fn tensor_idx(k: int, c: int, y: int, x: int) -> int {
    ((k * 3 + c) * 32 + y) * 300 + x
}

/// Normalize every image onto a canvas, cut each canvas into its three
/// chunks, and pack everything into one flat byte tensor of shape
/// (3 * images, 3, 32, 300) in channel-first layout. Tensor row `k` holds
/// chunk `k % 3` of image `k / 3`; dividing each byte by 255 afterwards
/// yields the network's input values.
pub fn process_images(images: &Vec<Image>) -> (r: Result<Vec<u8>, Error>)
    requires
        forall|j: int| 0 <= j < images@.len() ==> (#[trigger] images@[j]).wf(),
    ensures
        r is Err <==> exists|j: int|
            0 <= j < images@.len() && ((#[trigger] images@[j]).width == 0 || images@[j].height
                == 0),
        r is Err ==> r->Err_0 == Error::InvalidImageDimensions,
        r is Ok ==> r->Ok_0@.len() == images@.len() * 86400,
        r is Ok ==> forall|k: int, c: int, y: int, x: int|
            0 <= k < images@.len() * 3 && 0 <= c < 3 && 0 <= y < 32 && 0 <= x < 300
                ==> #[trigger] r->Ok_0@[tensor_idx(k, c, y, x)] == canvas_at(
                images@[k / 3],
                y,
                (k % 3) * 252 + x,
                c,
            ),
{
    let mut out: Vec<u8> = Vec::new();
    let n = images.len();
    for j in 0..n
        invariant
            n == images@.len(),
            forall|jj: int| 0 <= jj < n ==> (#[trigger] images@[jj]).wf(),
            forall|jj: int|
                0 <= jj < j ==> (#[trigger] images@[jj]).width != 0 && images@[jj].height != 0,
            out@.len() == j * 86400,
            forall|k: int, c: int, y: int, x: int|
                0 <= k < j * 3 && 0 <= c < 3 && 0 <= y < 32 && 0 <= x < 300
                    ==> #[trigger] out@[tensor_idx(k, c, y, x)] == canvas_at(
                    images@[k / 3],
                    y,
                    (k % 3) * 252 + x,
                    c,
                ),
    {
        let canvas = match keepratio_resize(&images[j]) {
            Ok(canvas) => canvas,
            Err(e) => {
                return Err(e);
            },
        };
        let chunks = process_chunks(&canvas);
        let ghost img = images@[j as int];
        assert(forall|i: int, y: int, x: int, c: int|
            0 <= i < 3 && 0 <= y < 32 && 0 <= x < 300 && 0 <= c < 3 ==> #[trigger] chunks@[
            chunk_idx(i, y, x, c)] == canvas_at(img, y, i * 252 + x, c));
        for i in 0..3usize
            invariant
                n == images@.len(),
                j < n,
                img == images@[j as int],
                chunks@.len() == 86400,
                forall|ii: int, yy: int, xx: int, cc: int|
                    0 <= ii < 3 && 0 <= yy < 32 && 0 <= xx < 300 && 0 <= cc < 3
                        ==> #[trigger] chunks@[chunk_idx(ii, yy, xx, cc)] == canvas_at(
                        img,
                        yy,
                        ii * 252 + xx,
                        cc,
                    ),
                out@.len() == j * 86400 + i * 28800,
                forall|k: int, c: int, y: int, x: int|
                    0 <= k < j * 3 + i && 0 <= c < 3 && 0 <= y < 32 && 0 <= x < 300
                        ==> #[trigger] out@[tensor_idx(k, c, y, x)] == canvas_at(
                        images@[k / 3],
                        y,
                        (k % 3) * 252 + x,
                        c,
                    ),
        {
            for c in 0..3usize
                invariant
                    n == images@.len(),
                    j < n,
                    i < 3,
                    img == images@[j as int],
                    chunks@.len() == 86400,
                    forall|ii: int, yy: int, xx: int, cc: int|
                        0 <= ii < 3 && 0 <= yy < 32 && 0 <= xx < 300 && 0 <= cc < 3
                            ==> #[trigger] chunks@[chunk_idx(ii, yy, xx, cc)] == canvas_at(
                            img,
                            yy,
                            ii * 252 + xx,
                            cc,
                        ),
                    out@.len() == j * 86400 + i * 28800 + c * 9600,
                    forall|kk: int, cc: int, yy: int, xx: int|
                        0 <= cc < 3 && 0 <= yy < 32 && 0 <= xx < 300 && tensor_idx(kk, cc, yy, xx)
                            < out@.len() && 0 <= kk ==> #[trigger] out@[tensor_idx(kk, cc, yy, xx)]
                            == canvas_at(images@[kk / 3], yy, (kk % 3) * 252 + xx, cc),
            {
                for y in 0..32usize
                    invariant
                        n == images@.len(),
                        j < n,
                        i < 3,
                        c < 3,
                        img == images@[j as int],
                        chunks@.len() == 86400,
                        forall|ii: int, yy: int, xx: int, cc: int|
                            0 <= ii < 3 && 0 <= yy < 32 && 0 <= xx < 300 && 0 <= cc < 3
                                ==> #[trigger] chunks@[chunk_idx(ii, yy, xx, cc)] == canvas_at(
                                img,
                                yy,
                                ii * 252 + xx,
                                cc,
                            ),
                        out@.len() == j * 86400 + i * 28800 + c * 9600 + y * 300,
                        forall|kk: int, cc: int, yy: int, xx: int|
                            0 <= cc < 3 && 0 <= yy < 32 && 0 <= xx < 300 && tensor_idx(
                                kk,
                                cc,
                                yy,
                                xx,
                            ) < out@.len() && 0 <= kk ==> #[trigger] out@[tensor_idx(
                                kk,
                                cc,
                                yy,
                                xx,
                            )] == canvas_at(images@[kk / 3], yy, (kk % 3) * 252 + xx, cc),
                {
                    let mut x: usize = 0;
                    while x < 300
                        invariant
                            n == images@.len(),
                            j < n,
                            i < 3,
                            c < 3,
                            y < 32,
                            x <= 300,
                            img == images@[j as int],
                            chunks@.len() == 86400,
                            forall|ii: int, yy: int, xx: int, cc: int|
                                0 <= ii < 3 && 0 <= yy < 32 && 0 <= xx < 300 && 0 <= cc < 3
                                    ==> #[trigger] chunks@[chunk_idx(ii, yy, xx, cc)] == canvas_at(
                                    img,
                                    yy,
                                    ii * 252 + xx,
                                    cc,
                                ),
                            out@.len() == j * 86400 + i * 28800 + c * 9600 + y * 300 + x,
                            forall|kk: int, cc: int, yy: int, xx: int|
                                0 <= cc < 3 && 0 <= yy < 32 && 0 <= xx < 300 && tensor_idx(
                                    kk,
                                    cc,
                                    yy,
                                    xx,
                                ) < out@.len() && 0 <= kk ==> #[trigger] out@[tensor_idx(
                                    kk,
                                    cc,
                                    yy,
                                    xx,
                                )] == canvas_at(images@[kk / 3], yy, (kk % 3) * 252 + xx, cc),
                        decreases 300 - x,
                    {
                        let v: u8 = chunks[(i * 32 + y) * 900 + x * 3 + c];
                        assert((i * 32 + y) * 900 + x * 3 + c == chunk_idx(
                            i as int,
                            y as int,
                            x as int,
                            c as int,
                        ));
                        out.push(v);
                        assert(out@.len() - 1 == tensor_idx(
                            3 * j + i as int,
                            c as int,
                            y as int,
                            x as int,
                        ));
                        assert((3 * j + i as int) / 3 == j && (3 * j + i as int) % 3 == i as int);
                        x += 1;
                    }
                }
            }
        }
    }
    assert(out@.len() == n * 86400);
    Ok(out)
}

} // verus!
