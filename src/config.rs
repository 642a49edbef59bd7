//! The settings of a run.
use vstd::prelude::*;

use crate::params::{Download, Fetch, Format, Resolution};

verus! {

/// The size budget of the storage folder when none is configured: 100 MB.
pub const DEFAULT_MAX_SIZE: u64 = 100_000_000;

/// Where photos are stored, how many bytes they may take, which photos to pick
/// and in which shape to download them.
#[derive(Debug, Clone)]
pub struct Config {
    pub folder: String,
    pub max_size: u64,
    pub fetch: Fetch,
    pub download: Download,
}

impl Config {
    /// The settings used when none are saved: photos go to `folder`, take at
    /// most 100 MB, ten at a time, unfiltered, as lossless images that cover a
    /// screen of the given size.
    pub fn with_defaults(folder: String, screen_width: u32, screen_height: u32) -> (r: Config)
        ensures
            r.folder@ == folder@,
            r.max_size == DEFAULT_MAX_SIZE,
            r.fetch.count == 10,
            r.fetch.query is None,
            r.download.format == Format::Png,
            r.download.resolution == (Resolution::Custom {
                width: screen_width,
                height: screen_height,
            }),
    {
        Config {
            folder,
            max_size: DEFAULT_MAX_SIZE,
            fetch: Fetch::default(),
            download: Download::for_screen(screen_width, screen_height),
        }
    }
}

} // verus!
