//! Verified models of a few rspack plugins: externals resolution, the
//! modern-module library output, their dependency templates, the strict-mode
//! parser plugin and the JavaScript modules plugin drive.
pub mod text;
pub mod pattern;
pub mod external;
pub mod dependency;
pub mod strict_plugin;
pub mod identifier;
pub mod modern_module;
pub mod module_graph;
pub mod runtime;
pub mod plugin;
pub mod drive;
