//! Analysis sections, their query templates and the engine that renders
//! the templates.

pub mod dummy_section;
pub mod dummy_section_builder;
pub mod section_discovery;
pub mod sql_template;
pub mod template_engine;
pub mod template_parts;
