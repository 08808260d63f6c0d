//! The configuration record of one run, its summary and its failures.

use vstd::prelude::*;
use crate::poi::requested_point;

verus! {

/// The options of one capture-and-render run.
pub struct CliArgs {
    /// I2C bus of the sensor; selects the bus-backed driver.
    pub bus: Option<String>,
    /// I2C address of the sensor on that bus.
    pub address: Option<u8>,
    /// Interpolation factor; 1 when absent.
    pub interpolation: Option<usize>,
    /// Mirror every row.
    pub hflip: bool,
    /// Mirror every column.
    pub vflip: bool,
    /// The point of interest is given in output-image units.
    pub pois: bool,
    /// Column of the point of interest.
    pub poix: Option<usize>,
    /// Row of the point of interest.
    pub poiy: Option<usize>,
    /// Burn a crosshair into the image at the point of interest.
    pub poic: bool,
    /// Where the image goes: a path, `-` for standard output, or nowhere.
    pub output: Option<String>,
    /// Report as JSON.
    pub json: bool,
}

/// Why a run failed inside the library.
#[derive(Debug, Clone, Copy, PartialEq, Eq, Structural)]
pub enum RenderError {
    /// The interpolation factor is not between 1 and 99.
    Config,
    /// The image could not be encoded.
    Encode,
}

/// Where the encoded image goes.
#[derive(Debug, Clone, Copy, PartialEq, Eq, Structural)]
pub enum Destination {
    /// No output was asked for: nothing is encoded or written.
    Nowhere,
    /// Standard output, asked for with a single dash.
    Stdout,
    /// The file at the given path.
    File,
}

/// The summary of one run.
#[derive(Debug, Clone)]
pub struct Stats<T> {
    pub t_min: T,
    pub t_max: T,
    pub t_poi: Option<T>,
}

/// The smallest interpolation factor.
pub const MIN_FACTOR: usize = 1;

/// The largest interpolation factor.
pub const MAX_FACTOR: usize = 99;

/// Whether `k` may serve as interpolation factor.
pub open spec fn valid_factor(k: int) -> bool {
    MIN_FACTOR <= k <= MAX_FACTOR
}

impl CliArgs {
    /// The interpolation factor that the options ask for: 1 unless given.
    pub open spec fn factor(&self) -> int {
        match self.interpolation {
            Some(k) => k as int,
            None => 1,
        }
    }

    /// The point of interest, present only when both coordinates are.
    pub open spec fn point(&self) -> Option<(usize, usize)> {
        requested_point(self.poix, self.poiy)
    }

    /// Where the options send the image.
    pub open spec fn target(&self) -> Destination {
        match self.output {
            None => Destination::Nowhere,
            Some(path) => if path@ == seq!['-'] {
                Destination::Stdout
            } else {
                Destination::File
            },
        }
    }

    /// Tells where the image goes: nowhere when no output was named, to
    /// standard output for `-`, to a file for any other name.
    pub fn destination(&self) -> (out: Destination)
        ensures
            out == self.target(),
    {
        match &self.output {
            None => Destination::Nowhere,
            Some(path) => {
                let dash = "-".to_owned();
                proof {
                    reveal_strlit("-");
                    assert(dash@ =~= seq!['-']);
                }
                if *path == dash {
                    Destination::Stdout
                } else {
                    Destination::File
                }
            },
        }
    }

    /// The options of a run in which nothing was asked for.
    pub fn new() -> (out: CliArgs)
        ensures
            out.bus is None,
            out.address is None,
            out.interpolation is None,
            !out.hflip,
            !out.vflip,
            !out.pois,
            out.poix is None,
            out.poiy is None,
            !out.poic,
            out.output is None,
            !out.json,
            out.factor() == 1,
    {
        CliArgs {
            bus: None,
            address: None,
            interpolation: None,
            hflip: false,
            vflip: false,
            pois: false,
            poix: None,
            poiy: None,
            poic: false,
            output: None,
            json: false,
        }
    }

    /// The interpolation factor to work with, or a configuration failure
    /// when the one given is not between 1 and 99.
    pub fn interpolation_factor(&self) -> (out: Result<usize, RenderError>)
        ensures
            valid_factor(self.factor()) ==> out == Ok::<usize, RenderError>(self.factor() as usize),
            !valid_factor(self.factor()) ==> out == Err::<usize, RenderError>(RenderError::Config),
    {
        let k: usize = match self.interpolation {
            Some(k) => k,
            None => 1,
        };
        if MIN_FACTOR <= k && k <= MAX_FACTOR {
            Ok(k)
        } else {
            Err(RenderError::Config)
        }
    }
}

} // verus!
