//! Runtime configuration of the ZJIT compiler: the option record, the
//! early-published thresholds, and the parser for `--zjit-*` flags.
//!
//! The library decides; it touches neither files nor globals. A host feeds it
//! one token at a time through [`parse_option`], does the file work that the
//! returned [`HostAction`] names, and publishes the [`PublishedState`].

pub mod decimal;
pub mod jit_list;
pub mod options;
pub mod parser;
pub mod published;
pub mod substring;
pub mod text;
pub mod usage;

pub use jit_list::{parse_jit_list, IseqSet};
pub use options::{init_options, DumpHIR, Options};
pub use parser::{parse_option, store_jit_list, Directive, HostAction};
pub use published::{update_profile_threshold, PublishedState};
pub use usage::usage_lines;
