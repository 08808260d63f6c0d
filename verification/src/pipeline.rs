//! The stages of one run, from a captured grid to statistics and from a
//! coloured pixel buffer to an encoded image. Each stage checks the
//! interpolation factor before it does anything else.

use vstd::prelude::*;
use crate::codec::jpeg_stream;
use crate::config::valid_factor;
use crate::config::CliArgs;
use crate::config::RenderError;
use crate::config::Stats;
use crate::flip::hflip_cells;
use crate::flip::horizontal_flip;
use crate::flip::vertical_flip;
use crate::flip::vflip_cells;
use crate::grid::Grid;
use crate::poi::poi_reading;
use crate::poi::requested;
use crate::poi::resolve_poi;
use crate::raster::crosshair_center;
use crate::raster::crosshair_data;
use crate::raster::encodable;
use crate::raster::encode_jpeg;
use crate::raster::mark_poi;
use crate::raster::upscale;
use crate::raster::upscale_fits;
use crate::raster::Raster;

verus! {

/// The cells of a grid after the flips that were asked for, the horizontal
/// one first.
pub open spec fn oriented<T>(cells: Seq<T>, width: int, height: int, hflip: bool, vflip: bool) -> Seq<
    T,
> {
    let rows = if hflip {
        hflip_cells(cells, width)
    } else {
        cells
    };
    if vflip {
        vflip_cells(rows, width, height)
    } else {
        rows
    }
}

/// The reading that the options ask for on a grid: that of the point of
/// interest, if both of its coordinates were given and it names a cell.
pub open spec fn requested_reading<T>(opts: &CliArgs, grid: Grid<T>) -> Option<T> {
    match opts.point() {
        Some((x, y)) => poi_reading(grid, x as int, y as int, opts.pois, opts.factor()),
        None => None,
    }
}

/// The bytes of an upscaled image after the overlay that the options ask
/// for: a crosshair at the point of interest, or nothing.
pub open spec fn overlaid(opts: &CliArgs, data: Seq<u8>, width: int) -> Seq<u8> {
    match opts.point() {
        Some((x, y)) => if opts.poic {
            let c = crosshair_center(x as int, y as int, opts.pois, opts.factor());
            crosshair_data(data, width, c.0, c.1)
        } else {
            data
        },
        None => data,
    }
}

/// Applies the flips that were asked for, the horizontal one first.
pub fn orient<T: Copy>(grid: &mut Grid<T>, hflip: bool, vflip: bool)
    requires
        old(grid).wf(),
    ensures
        final(grid).wf(),
        final(grid).width == old(grid).width,
        final(grid).height == old(grid).height,
        final(grid).cells@ == oriented(
            old(grid).cells@,
            old(grid).width as int,
            old(grid).height as int,
            hflip,
            vflip,
        ),
        final(grid).cells@.to_multiset() == old(grid).cells@.to_multiset(),
{
    if hflip {
        horizontal_flip(grid);
    }
    if vflip {
        vertical_flip(grid);
    }
}

/// The first half of a run: checks the interpolation factor, flips the grid
/// as asked and reads the point of interest on the flipped grid. The
/// extremes are those seen at capture; a flip moves values and changes none.
/// A point of interest outside the grid is no failure: it has no reading.
pub fn measure<T: Copy>(opts: &CliArgs, grid: &mut Grid<T>, t_min: T, t_max: T) -> (out: Result<
    Stats<T>,
    RenderError,
>)
    requires
        old(grid).wf(),
    ensures
        final(grid).wf(),
        final(grid).width == old(grid).width,
        final(grid).height == old(grid).height,
        final(grid).cells@.to_multiset() == old(grid).cells@.to_multiset(),
        out is Ok <==> valid_factor(opts.factor()),
        out is Err ==> out->Err_0 == RenderError::Config && final(grid).cells@ == old(grid).cells@,
        out is Ok ==> final(grid).cells@ == oriented(
            old(grid).cells@,
            old(grid).width as int,
            old(grid).height as int,
            opts.hflip,
            opts.vflip,
        ),
        out is Ok ==> out->Ok_0.t_min == t_min && out->Ok_0.t_max == t_max && out->Ok_0.t_poi
            == requested_reading(opts, *final(grid)),
{
    match opts.interpolation_factor() {
        Err(e) => Err(e),
        Ok(k) => {
            orient(grid, opts.hflip, opts.vflip);
            let t_poi = match requested(opts.poix, opts.poiy) {
                Some((x, y)) => resolve_poi(grid, x, y, opts.pois, k),
                None => None,
            };
            Ok(Stats { t_min, t_max, t_poi })
        },
    }
}

/// Burns into an upscaled image what the options ask for: the crosshair, if
/// it was requested and both coordinates of the point were given.
pub fn overlay(opts: &CliArgs, img: &mut Raster)
    requires
        old(img).wf(),
        valid_factor(opts.factor()),
    ensures
        final(img).wf(),
        final(img).width == old(img).width,
        final(img).height == old(img).height,
        final(img).data@ == overlaid(opts, old(img).data@, old(img).width as int),
{
    match (requested(opts.poix, opts.poiy), opts.interpolation_factor()) {
        (Some((x, y)), Ok(k)) => {
            if opts.poic {
                mark_poi(img, x, y, opts.pois, k);
            }
        },
        _ => {},
    }
}

/// Builds the output image from the colour mapper's buffer, in which the
/// `i`-th triple is the pixel in column `i mod width` of row `i div width`:
/// the image is enlarged by the interpolation factor, then the overlay is
/// burnt in. With a factor of 1 every byte of the result is known; with a
/// larger one the resampler decides the bytes that the overlay then works on.
pub fn compose(opts: &CliArgs, pixels: Vec<u8>, width: usize, height: usize) -> (out: Result<
    Raster,
    RenderError,
>)
    requires
        pixels@.len() == 3 * (width * height),
        valid_factor(opts.factor()) ==> upscale_fits(width as int, height as int, opts.factor()),
    ensures
        out is Ok <==> valid_factor(opts.factor()),
        out is Err ==> out->Err_0 == RenderError::Config,
        out is Ok ==> out->Ok_0.wf() && out->Ok_0.width == width * opts.factor()
            && out->Ok_0.height == height * opts.factor(),
        out is Ok ==> exists|enlarged: Seq<u8>|
            enlarged.len() == out->Ok_0.data@.len() && #[trigger] overlaid(
                opts,
                enlarged,
                out->Ok_0.width as int,
            ) == out->Ok_0.data@,
        out is Ok && opts.factor() == 1 ==> out->Ok_0.data@ == overlaid(
            opts,
            pixels@,
            width as int,
        ),
{
    match opts.interpolation_factor() {
        Err(e) => Err(e),
        Ok(k) => {
            match Raster::from_pixels(pixels, width, height) {
                Some(base) => {
                    let mut img = upscale(&base, k);
                    let ghost enlarged = img.data@;
                    proof {
                        assert(width * 1 == width && height * 1 == height) by (nonlinear_arith);
                    }
                    overlay(opts, &mut img);
                    proof {
                        assert(overlaid(opts, enlarged, img.width as int) == img.data@);
                    }
                    Ok(img)
                },
                None => Err(RenderError::Config),
            }
        },
    }
}

/// The second half of a run: checks the interpolation factor and, when an
/// output was asked for, composes the image and encodes it as JPEG. With no
/// output asked for there is nothing to encode, which is no failure. With
/// one, a stream comes back whenever the sides of the enlarged image are
/// between 1 and 65535 pixels.
pub fn render(opts: &CliArgs, pixels: Vec<u8>, width: usize, height: usize) -> (out: Result<
    Option<Vec<u8>>,
    RenderError,
>)
    requires
        pixels@.len() == 3 * (width * height),
        valid_factor(opts.factor()) ==> upscale_fits(width as int, height as int, opts.factor()),
    ensures
        !valid_factor(opts.factor()) ==> out == Err::<Option<Vec<u8>>, RenderError>(
            RenderError::Config,
        ),
        valid_factor(opts.factor()) && opts.output is None ==> out == Ok::<
            Option<Vec<u8>>,
            RenderError,
        >(None),
        valid_factor(opts.factor()) && opts.output is Some ==> out is Err || (out is Ok
            && out->Ok_0 is Some),
        valid_factor(opts.factor()) && out is Err ==> out->Err_0 == RenderError::Encode,
        valid_factor(opts.factor()) && opts.output is Some && !encodable(
            width * opts.factor(),
            height * opts.factor(),
        ) ==> out is Err,
        valid_factor(opts.factor()) && opts.output is Some && encodable(
            width * opts.factor(),
            height * opts.factor(),
        ) ==> out is Ok && out->Ok_0 is Some,
        out is Ok && out->Ok_0 is Some ==> exists|enlarged: Seq<u8>|
            enlarged.len() == 3 * ((width * opts.factor()) * (height * opts.factor()))
                && out->Ok_0->0@ == #[trigger] jpeg_stream(
                overlaid(opts, enlarged, width * opts.factor()),
                (width * opts.factor()) as nat,
                (height * opts.factor()) as nat,
            ),
        out is Ok && out->Ok_0 is Some && opts.factor() == 1 ==> out->Ok_0->0@ == jpeg_stream(
            overlaid(opts, pixels@, width as int),
            width as nat,
            height as nat,
        ),
{
    match opts.interpolation_factor() {
        Err(e) => Err(e),
        Ok(_) => {
            if opts.output.is_none() {
                Ok(None)
            } else {
                match compose(opts, pixels, width, height) {
                    Err(e) => Err(e),
                    Ok(img) => {
                        proof {
                            assert(width * 1 == width && height * 1 == height)
                                by (nonlinear_arith);
                        }
                        match encode_jpeg(&img) {
                            Ok(bytes) => {
                                proof {
                                    let enlarged = choose|enlarged: Seq<u8>|
                                        enlarged.len() == img.data@.len() && #[trigger] overlaid(
                                            opts,
                                            enlarged,
                                            img.width as int,
                                        ) == img.data@;
                                    assert(bytes@ == jpeg_stream(
                                        overlaid(opts, enlarged, width * opts.factor()),
                                        (width * opts.factor()) as nat,
                                        (height * opts.factor()) as nat,
                                    ));
                                }
                                Ok(Some(bytes))
                            },
                            Err(e) => Err(e),
                        }
                    },
                }
            }
        },
    }
}

} // verus!
