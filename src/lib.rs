mod compose;
mod frame;
mod meta;
mod pipeline;
mod reconcile;

pub use compose::{lemma_reorder_bands, lemma_stacked_bands, pixel_seqs, stack_frames, stacked};
pub use frame::{rgba_len, Frame};
pub use meta::{decimal, descriptor_text, digit_char};
pub use pipeline::{create_mc_meta, process_images, reconcile_frames, reconciled_pixels, ImageResult, StackError, StackPngArgs};
pub use reconcile::{all_fit, all_sized, frames_sized, nearest_exact, nearest_fit, resize_frame, resized_view, view_of};
