use vstd::prelude::*;
use crate::glyph::{Options, UsageError};

verus! {

/// The command line: one subcommand.
pub struct Cli {
    pub command: Commands,
}

/// What to convert, and how.
pub enum Commands {
    /// Convert one image.
    Image {
        path: String,
        width: Option<u32>,
        height: Option<u32>,
        invert: bool,
        savepath: Option<String>,
        colored: bool,
        uniform_char: bool,
        no_parallel: bool,
    },
    /// Convert a video, one frame at a time.
    Video {
        path: String,
        width: Option<u32>,
        height: Option<u32>,
        n_frames: Option<usize>,
        invert: bool,
        savepath: Option<String>,
        delay_frames: Option<u32>,
        colored: bool,
        uniform_char: bool,
        no_parallel: bool,
    },
}

impl Commands {
    /// The `(invert, colored, uniform)` switches of the command.
    pub open spec fn switches(&self) -> (bool, bool, bool) {
        match self {
            Commands::Image { invert, colored, uniform_char, .. } => (*invert, *colored, *uniform_char),
            Commands::Video { invert, colored, uniform_char, .. } => (*invert, *colored, *uniform_char),
        }
    }

    /// The conversion switches; `uniform_char` without `colored` is refused.
    pub fn options(&self) -> (r: Result<Options, UsageError>)
        ensures
            ({
                let (invert, colored, uniform) = self.switches();
                &&& (uniform && !colored <==> r is Err)
                &&& r is Ok ==> r->Ok_0 == (Options { invert, colored, uniform })
            }),
    {
        match self {
            Commands::Image { invert, colored, uniform_char, .. } => Options::new(*invert, *colored, *uniform_char),
            Commands::Video { invert, colored, uniform_char, .. } => Options::new(*invert, *colored, *uniform_char),
        }
    }

    /// Whether the conversion may run in parallel.
    pub fn parallel(&self) -> (r: bool)
        ensures
            r == match self {
                Commands::Image { no_parallel, .. } => !*no_parallel,
                Commands::Video { no_parallel, .. } => !*no_parallel,
            },
    {
        match self {
            Commands::Image { no_parallel, .. } => !*no_parallel,
            Commands::Video { no_parallel, .. } => !*no_parallel,
        }
    }
}

} // verus!
