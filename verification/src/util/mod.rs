//! Building blocks shared by the entities and the turn loop.

pub mod input;
pub mod random;
pub mod snapshot;
pub mod text;

pub use input::{
    collect_input, collect_input_str, collect_with_options, options_message, InputError,
    OptionsError,
};
pub use random::{random, random_range, RangeLimit, Scalar};
pub use snapshot::SnapshotError;
