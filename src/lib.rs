//! Extraction of route templates from a semi-structured API documentation page.
//!
//! The detail block of each endpoint is handed over as plain values
//! ([`api_scraper::DetailBlock`]); the library resolves it into route
//! templates ([`template_uri::TemplateUri`]), expanding optional path
//! sections and collecting placeholders and request fields, and renders the
//! source text of client functions for each route ([`generator`]).

pub mod api_scraper;
pub mod field_map;
pub mod generator;
pub mod http_verb;
pub mod openapi_models;
pub mod template_uri;
pub mod text;
