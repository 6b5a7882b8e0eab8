use vstd::prelude::*;

mod error;
mod model;
mod postprocessing;
mod preprocessing;

pub use error::Error;
pub use model::{load_vocab, Model};
pub use postprocessing::{argmax_along_dim2, preds_to_strings};
pub use preprocessing::{keepratio_resize, process_chunks, process_images, Image};

verus! {

/// Width of the fixed canvas every image is normalized onto.
pub const MASK_WIDTH: u32 = 804;

/// Height of the fixed canvas every image is normalized onto.
pub const MASK_HEIGHT: u32 = 32;

/// Width of each horizontal chunk cut from a canvas.
pub const CHUNK_WIDTH: u32 = 300;

/// Horizontal stride between consecutive chunk left edges.
pub const CHUNK_STRIDE: u32 = 252;

/// Number of chunks cut from one canvas.
pub const NUM_CHUNKS: u32 = 3;

/// Number of color channels in every image.
pub const CHANNELS: u32 = 3;

} // verus!
