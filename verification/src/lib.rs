//! Verified core of an invoice generator: invoice documents, their
//! arithmetic and validation, the template context and its rendering with
//! Tera, output file names, input path selection and HTML clean-up for PDF
//! output.
pub mod app;
pub mod date;
pub mod decimal;
pub mod input;
pub mod invoice;
pub mod pdf;
pub mod render;
pub mod text;
pub mod version;

pub use app::resolve_output_path;
