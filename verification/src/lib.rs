//! A small verified search library: it turns a search provider's HTML result
//! page into a deduplicated, bounded list of structured results, classifies
//! the provider's HTTP responses, renders result listings, and drives a
//! bounded tool-calling loop that decides when a session is allowed to run
//! another search.

pub mod model;
pub mod text;
pub mod percent;
pub mod extract;
pub mod render;
pub mod fetch;
pub mod orchestrator;
