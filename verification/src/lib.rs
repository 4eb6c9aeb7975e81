//! Decisions behind a web page screenshot: which settings apply, where the
//! image is written, and in which format it is encoded.
//!
//! The library does no input or output. A program around it reads flags and
//! files, drives the browser and writes the image; what it has to decide on
//! the way, it asks here.

pub mod decimal;
pub mod format;
pub mod host;
pub mod output;
pub mod path;
pub mod settings;
pub mod text;

pub use format::{image_type_from_file_name, ImageFormat};
pub use host::canonicalize_url;
pub use output::{default_file_name, resolve_output_path, OutputTarget};
pub use settings::{effective, resolve_settings, Choices, Settings};
