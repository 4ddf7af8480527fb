//! The back end of a company analysis service: query templates and the
//! engine that renders them, the analysis sections that hold them, and the
//! messages and metadata of its audio service.

pub mod analyzer;
pub mod audio;
pub mod text;
