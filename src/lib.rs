//! A checkpoint index for a tracked directory: naming rules, the ordered index
//! of checkpoint records, and its reconciliation with what is on disk.
pub mod clock;
pub mod engine;
pub mod error;
pub mod index;
pub mod laws;
pub mod lexical;
pub mod naming;
pub mod text;

pub use clock::Instant;
pub use engine::{
    claim_name, commit_checkpoint, is_strictly_inside, plan_checkpoint, plan_checkpoint_now, plan_init,
};
pub use error::AltsError;
pub use index::{Checkpoint, Config, ListEntry, Summary, name_in};
pub use naming::{auto_name, resolve_name, split_extension};
pub use text::{decimal_text, format_size_kb, size_label};
