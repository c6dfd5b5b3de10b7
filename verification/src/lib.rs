//! A source-tree scrubbing pass: rewrites every literal text fragment in a
//! parsed program tree that matches a configured pattern rule, replacing
//! matched spans with a configurable filler, while leaving code structure,
//! module linkage declarations, and non-matching text untouched.
//!
//! The tree and the decoded configuration come from the host; the pass
//! compiles the rules once per invocation, walks the tree from its root,
//! and returns the tree mutated.

pub mod ast;
pub mod matcher;
pub mod rewrite;
pub mod text;

pub use ast::Node;
pub use matcher::Config;
pub use matcher::MatcherSet;
pub use matcher::PatternError;
pub use rewrite::process_transform;
