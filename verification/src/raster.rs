//! The output image: reshaping a pixel buffer, upscaling it, burning in a
//! crosshair and encoding the result.

use vstd::prelude::*;
use crate::codec::jpeg_stream;
use crate::codec::jpeg_write;
use crate::codec::resample;
use crate::codec::MAX_SIDE;
use crate::config::RenderError;
use crate::grid::cell_index;
use crate::grid::lemma_cell_coords;
use crate::grid::lemma_index_split;
use crate::grid::lemma_row_span;

verus! {

/// An RGB image of `width` x `height` pixels: three bytes per pixel, pixels
/// row by row.
pub struct Raster {
    pub width: usize,
    pub height: usize,
    pub data: Vec<u8>,
}

/// Channel `c` of the `i`-th triple of a flat pixel buffer.
pub open spec fn sample(pixels: Seq<u8>, i: int, c: int) -> u8 {
    pixels[3 * i + c]
}

/// The column of the pixel that byte `i` of an image belongs to.
pub open spec fn pixel_x(width: int, i: int) -> int {
    (i / 3) % width
}

/// The row of the pixel that byte `i` of an image belongs to.
pub open spec fn pixel_y(width: int, i: int) -> int {
    (i / 3) / width
}

/// A colour channel replaced by 255 minus its value.
pub open spec fn inverted(v: u8) -> u8 {
    (255 - v) as u8
}

/// Whether pixel `(x, y)` is one of the eight that mark the centre
/// `(cx, cy)`: two on each side of it along both axes, the centre excluded.
pub open spec fn on_crosshair(cx: int, cy: int, x: int, y: int) -> bool {
    ||| (y == cy && (x == cx - 1 || x == cx - 2 || x == cx + 1 || x == cx + 2))
    ||| (x == cx && (y == cy - 1 || y == cy - 2 || y == cy + 1 || y == cy + 2))
}

/// The bytes of an image of the given width after a crosshair was burnt in
/// around `(cx, cy)`: marked pixels inverted, every other byte as it was.
/// Marked coordinates outside the image name no pixel and change nothing.
pub open spec fn crosshair_data(data: Seq<u8>, width: int, cx: int, cy: int) -> Seq<u8> {
    Seq::new(
        data.len(),
        |i: int|
            if on_crosshair(cx, cy, pixel_x(width, i), pixel_y(width, i)) {
                inverted(data[i])
            } else {
                data[i]
            },
    )
}

/// The centre of the crosshair in output-image units: a point given in grid
/// units is multiplied by the interpolation factor, one already given in
/// output-image units is used as it is.
pub open spec fn crosshair_center(x: int, y: int, scaled: bool, k: int) -> (int, int) {
    if scaled {
        (x, y)
    } else {
        (x * k, y * k)
    }
}

/// Whether an image of `width` x `height` pixels can be enlarged `k` times:
/// neither new side may pass `MAX_SIDE`, and the resampler's working buffer
/// of four values per pixel must be addressable.
pub open spec fn upscale_fits(width: int, height: int, k: int) -> bool {
    &&& width * k <= MAX_SIDE
    &&& height * k <= MAX_SIDE
    &&& 4 * ((width * k) * (height * k)) <= usize::MAX
}

/// Every byte of a well-formed image belongs to a pixel inside it.
proof fn lemma_byte_pixel(width: int, height: int, i: int)
    requires
        0 <= width,
        0 <= i < 3 * (width * height),
    ensures
        0 < width,
        0 <= pixel_x(width, i) < width,
        0 <= pixel_y(width, i) < height,
        i / 3 == cell_index(width, pixel_x(width, i), pixel_y(width, i)),
{
    assert(width != 0) by (nonlinear_arith)
        requires
            0 < width * height,
    ;
    lemma_index_split(width, height, i / 3);
}

/// In an image with a crosshair burnt in, every channel of a marked pixel is
/// inverted and every other pixel is as it was.
pub proof fn lemma_crosshair_pixel(
    data: Seq<u8>,
    width: int,
    height: int,
    cx: int,
    cy: int,
    x: int,
    y: int,
    c: int,
)
    requires
        data.len() == 3 * (width * height),
        0 <= x < width,
        0 <= y < height,
        0 <= c < 3,
    ensures
        0 <= 3 * cell_index(width, x, y) + c < data.len(),
        crosshair_data(data, width, cx, cy)[3 * cell_index(width, x, y) + c] == if on_crosshair(
            cx,
            cy,
            x,
            y,
        ) {
            inverted(data[3 * cell_index(width, x, y) + c])
        } else {
            data[3 * cell_index(width, x, y) + c]
        },
{
    lemma_row_span(width, height, y);
    lemma_cell_coords(width, x, y);
}

impl Raster {
    /// The image holds exactly three bytes for each of its pixels.
    pub open spec fn wf(&self) -> bool {
        self.data.len() == 3 * (self.width * self.height)
    }

    /// Channel `c` of the pixel in column `x` of row `y`.
    pub open spec fn channel(&self, x: int, y: int, c: int) -> u8 {
        self.data@[3 * cell_index(self.width as int, x, y) + c]
    }

    /// Lays a flat pixel buffer out as an image: the `i`-th triple becomes the
    /// pixel in column `i mod width` of row `i div width`. Hands back nothing
    /// when the buffer does not hold `width * height` triples.
    pub fn from_pixels(pixels: Vec<u8>, width: usize, height: usize) -> (out: Option<Raster>)
        ensures
            out is Some <==> pixels@.len() == 3 * (width * height),
            out is Some ==> out->0.wf() && out->0.width == width && out->0.height == height
                && out->0.data@ == pixels@,
            out is Some ==> forall|i: int, c: int|
                0 <= i < width * height && 0 <= c < 3 ==> out->0.channel(
                    i % (width as int),
                    i / (width as int),
                    c,
                ) == #[trigger] sample(pixels@, i, c),
    {
        let count: usize = pixels.len();
        let fits = match width.checked_mul(height) {
            Some(n) => match n.checked_mul(3) {
                Some(m) => m == count,
                None => false,
            },
            None => false,
        };
        if fits {
            proof {
                assert forall|i: int, c: int| 0 <= i < width * height && 0 <= c < 3 implies pixels@[3
                    * cell_index(width as int, i % (width as int), i / (width as int)) + c]
                    == #[trigger] sample(pixels@, i, c) by {
                    lemma_byte_pixel(width as int, height as int, 3 * i);
                }
            }
            Some(Raster { width, height, data: pixels })
        } else {
            None
        }
    }
}

/// Inverts the three channels of pixel `(x, y)`; a coordinate outside the
/// image changes nothing.
fn invert_pixel(img: &mut Raster, x: usize, y: usize)
    requires
        old(img).wf(),
    ensures
        final(img).wf(),
        final(img).width == old(img).width,
        final(img).height == old(img).height,
        forall|i: int|
            0 <= i < old(img).data@.len() ==> #[trigger] final(img).data@[i] == if pixel_x(
                old(img).width as int,
                i,
            ) == x && pixel_y(old(img).width as int, i) == y {
                inverted(old(img).data@[i])
            } else {
                old(img).data@[i]
            },
{
    let ghost before = img.data@;
    let ghost w = img.width as int;
    let ghost h = img.height as int;
    if x < img.width && y < img.height {
        proof {
            lemma_row_span(w, h, y as int);
            lemma_cell_coords(w, x as int, y as int);
        }
        let base: usize = 3 * (y * img.width + x);
        let r: u8 = img.data[base];
        let g: u8 = img.data[base + 1];
        let b: u8 = img.data[base + 2];
        img.data.set(base, 255 - r);
        img.data.set(base + 1, 255 - g);
        img.data.set(base + 2, 255 - b);
        proof {
            assert forall|i: int| 0 <= i < before.len() implies #[trigger] img.data@[i]
                == if pixel_x(w, i) == x && pixel_y(w, i) == y {
                inverted(before[i])
            } else {
                before[i]
            } by {
                lemma_byte_pixel(w, h, i);
            }
        }
    } else {
        proof {
            assert forall|i: int| 0 <= i < before.len() implies !(pixel_x(w, i) == x && pixel_y(
                w,
                i,
            ) == y) by {
                lemma_byte_pixel(w, h, i);
            }
        }
    }
}

/// Burns a crosshair into the image around the centre `(cx, cy)`, given in
/// the image's own coordinates: each of the eight marked pixels that lies
/// inside the image has every channel inverted, so that the mark shows on
/// any background. The rest of the image stays as it was.
pub fn draw_crosshair(img: &mut Raster, cx: usize, cy: usize)
    requires
        old(img).wf(),
    ensures
        final(img).wf(),
        final(img).width == old(img).width,
        final(img).height == old(img).height,
        final(img).data@ == crosshair_data(
            old(img).data@,
            old(img).width as int,
            cx as int,
            cy as int,
        ),
{
    let ghost before = img.data@;
    let ghost w = img.width as int;
    let ghost h = img.height as int;
    if cx >= 1 {
        invert_pixel(img, cx - 1, cy);
    }
    if cx >= 2 {
        invert_pixel(img, cx - 2, cy);
    }
    if cx < usize::MAX {
        invert_pixel(img, cx + 1, cy);
    }
    if cx < usize::MAX - 1 {
        invert_pixel(img, cx + 2, cy);
    }
    if cy >= 1 {
        invert_pixel(img, cx, cy - 1);
    }
    if cy >= 2 {
        invert_pixel(img, cx, cy - 2);
    }
    if cy < usize::MAX {
        invert_pixel(img, cx, cy + 1);
    }
    if cy < usize::MAX - 1 {
        invert_pixel(img, cx, cy + 2);
    }
    proof {
        let marked = crosshair_data(before, w, cx as int, cy as int);
        assert(img.data@.len() == before.len());
        assert forall|i: int| 0 <= i < before.len() implies img.data@[i] == marked[i] by {
            lemma_byte_pixel(w, h, i);
        }
        assert(img.data@ =~= marked);
    }
}

/// Burns in the crosshair for a requested point `(x, y)`. `scaled` says that
/// the point is already in output-image units; otherwise it is in grid units
/// and is multiplied by the interpolation factor `k` first.
pub fn mark_poi(img: &mut Raster, x: usize, y: usize, scaled: bool, k: usize)
    requires
        old(img).wf(),
    ensures
        final(img).wf(),
        final(img).width == old(img).width,
        final(img).height == old(img).height,
        final(img).data@ == crosshair_data(
            old(img).data@,
            old(img).width as int,
            crosshair_center(x as int, y as int, scaled, k as int).0,
            crosshair_center(x as int, y as int, scaled, k as int).1,
        ),
{
    if scaled {
        draw_crosshair(img, x, y);
    } else {
        match (x.checked_mul(k), y.checked_mul(k)) {
            (Some(cx), Some(cy)) => {
                draw_crosshair(img, cx, cy);
            },
            _ => {
                proof {
                    let w = img.width as int;
                    let h = img.height as int;
                    let cx = x * k;
                    let cy = y * k;
                    assert forall|i: int| 0 <= i < img.data@.len() implies !on_crosshair(
                        cx,
                        cy,
                        pixel_x(w, i),
                        pixel_y(w, i),
                    ) by {
                        lemma_byte_pixel(w, h, i);
                        assert(3 * w <= 3 * (w * h) && 3 * h <= 3 * (w * h)) by (nonlinear_arith)
                            requires
                                1 <= w,
                                1 <= h,
                        ;
                    }
                    assert(img.data@ =~= crosshair_data(img.data@, w, cx, cy));
                }
            },
        }
    }
}

/// Tests whether an image of `width` x `height` pixels can be enlarged `k`
/// times.
pub fn can_upscale(width: usize, height: usize, k: usize) -> (out: bool)
    ensures
        out == upscale_fits(width as int, height as int, k as int),
{
    match (width.checked_mul(k), height.checked_mul(k)) {
        (Some(new_width), Some(new_height)) => {
            if new_width > MAX_SIDE || new_height > MAX_SIDE {
                false
            } else {
                match new_width.checked_mul(new_height) {
                    Some(area) => area.checked_mul(4).is_some(),
                    None => false,
                }
            }
        },
        _ => false,
    }
}

/// Enlarges the image `k` times along both axes with a smooth filter. A
/// factor of 1 goes through the same resampling call and gives the image
/// back byte for byte.
pub fn upscale(base: &Raster, k: usize) -> (out: Raster)
    requires
        base.wf(),
        k >= 1,
        upscale_fits(base.width as int, base.height as int, k as int),
    ensures
        out.wf(),
        out.width == base.width * k,
        out.height == base.height * k,
        k == 1 ==> out.data@ == base.data@,
{
    proof {
        assert(base.width <= base.width * k && base.height <= base.height * k)
            by (nonlinear_arith)
            requires
                k >= 1,
        ;
    }
    let new_width: usize = base.width * k;
    let new_height: usize = base.height * k;
    let data = resample(
        &base.data,
        base.width as u32,
        base.height as u32,
        new_width as u32,
        new_height as u32,
    );
    Raster { width: new_width, height: new_height, data }
}

/// Whether the encoder takes an image of these dimensions: no side of zero
/// or of more than 65535 pixels.
pub open spec fn encodable(width: int, height: int) -> bool {
    1 <= width <= 65535 && 1 <= height <= 65535
}

/// What the library reports for each outcome of the encoder: the stream as
/// it came, or an encoding failure in place of the encoder's own error.
pub fn encoded(outcome: Result<Vec<u8>, image::ImageError>) -> (out: Result<Vec<u8>, RenderError>)
    ensures
        outcome is Ok ==> out == Ok::<Vec<u8>, RenderError>(outcome->Ok_0),
        outcome is Err ==> out == Err::<Vec<u8>, RenderError>(RenderError::Encode),
{
    match outcome {
        Ok(bytes) => Ok(bytes),
        Err(_) => Err(RenderError::Encode),
    }
}

/// Encodes the image as JPEG. The encoder takes every image whose sides are
/// between 1 and 65535 pixels; any other is an encoding failure.
pub fn encode_jpeg(img: &Raster) -> (out: Result<Vec<u8>, RenderError>)
    requires
        img.wf(),
    ensures
        out is Ok ==> out->Ok_0@ == jpeg_stream(img.data@, img.width as nat, img.height as nat),
        out is Err ==> out->Err_0 == RenderError::Encode,
        out is Ok <==> encodable(img.width as int, img.height as int),
{
    if img.width == 0 || img.height == 0 || img.width > 65535 || img.height > 65535 {
        Err(RenderError::Encode)
    } else {
        encoded(jpeg_write(&img.data, img.width as u32, img.height as u32))
    }
}

} // verus!
