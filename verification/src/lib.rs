pub mod btw_laws;
pub mod btw_prompt;
pub mod btw_view;
pub mod context_search;
pub mod custom_status_line;
pub mod diff_laws;
pub mod diff_model;
pub mod ids;
pub mod keys;
pub mod line_diff;
pub mod patch_laws;
pub mod patches;
pub mod paths;
pub mod prompt_stash;
pub mod session_changes;
pub mod session_laws;
pub mod spawn_requests;
pub mod status_line_input;
pub mod text;
pub mod text_laws;
pub mod tool_lifecycle;
pub mod v8_init;
