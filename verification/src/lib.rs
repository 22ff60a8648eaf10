//! Verified core of the xeno editor: focus management, invocation dispatch,
//! selection and text operations, undo history and background-load gating.

pub mod ids;
pub mod focus;
pub mod strings;
pub mod invocation;
pub mod policy;
pub mod engine;
pub mod work_queue;
pub mod text;
pub mod chars;
pub mod selection;
pub mod edit_ops;
pub mod buffer;
pub mod history;
pub mod file_load;
pub mod search;
pub mod search_preview;
pub mod search_ops;
pub mod surface;
pub mod selection_ops;
pub mod file_ops;
pub mod syntax_plan;
pub mod sync_events;
pub mod nu_ctx;
pub mod prompt;
pub mod splits;
pub mod navigation;
pub mod lsp_sync;
pub mod editor_core;
pub mod editor;
