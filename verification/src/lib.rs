//! Incremental compilation core of a module bundler: module and chunk graphs,
//! ordered plugin hook dispatch, and the hot-update diff between two builds.

pub mod asset_source;
pub mod cache;
pub mod chunk;
pub mod chunk_graph;
pub mod compilation;
pub mod compiler;
pub mod css_module;
pub mod error;
pub mod hmr;
pub mod hmr_proofs;
pub mod hook;
pub mod module;
pub mod module_graph;
pub mod module_set;
pub mod options;
pub mod plugin;
pub mod plugin_driver;
pub mod provide;
pub mod runtime;
pub mod text;
pub mod text_map;
