//! Display of raster images in terminals that speak the Kitty graphics
//! protocol: fitting an image onto a rectangle of cells, assigning image
//! ids, and encoding the escape sequences that transmit, show and delete
//! images.

pub mod geometry;
pub mod pixels;
pub mod protocol;
pub mod renderer;

pub use geometry::{div_ceil, Area};
pub use pixels::ImageData;
pub use protocol::{KittyImage, CHUNK_SIZE};
pub use renderer::{is_kitty_term_name, KittyImageRenderer, KittyImageSet, TransmissionMedium};
