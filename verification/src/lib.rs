//! Rebuilds a directory hierarchy from the indented listing that `tree`
//! prints.
//!
//! A listing is read line by line. [`get_entry`] splits a line into its
//! depth and its name, [`TreeIterator`] follows the depths with a stack of
//! names and decides for each entry where it is created and whether it is a
//! file or a directory, and [`create_path`] plans the creation under the
//! options given. Nothing here touches the file system: whoever drives the
//! reconstruction reads the lines and carries the creations out.

pub mod add_context;
pub mod collapse;
pub mod context_error;
pub mod context_pair;
pub mod entry;
pub mod errors;
pub mod functions;
pub mod laws;
pub mod more_context;
pub mod path;
pub mod path_action;
pub mod path_context;
pub mod path_laws;
pub mod path_stack;
pub mod report;
pub mod round_trip;
pub mod sources;
pub mod state;
pub mod supply_missing;
pub mod text;
pub mod traits;
pub mod tree_iterator;
pub mod types;
pub mod walk;

pub use entry::get_entry;
pub use errors::{Error, ErrorView, ReadStdinType};
pub use functions::{
    create_path, create_tree, iter_tree, touch_directory, touch_file, Colour, Creation,
};
pub use more_context::MoreContext;
pub use path::normalize_path;
pub use path_action::{PathAction, PathContext};
pub use path_stack::PathStack;
pub use tree_iterator::{Decision, LineRead, TreeIterator};
pub use types::{PathKind, UntreeOptions};
