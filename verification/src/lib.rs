//! Verified core logic of the Rolodex terminal coding agent: list scrolling,
//! split panes, project navigation, task picking, file reading and editing.

pub mod scroll_state;
pub mod text;
pub mod error;
pub mod read_file;
pub mod paths;
pub mod edit;
pub mod split_pane;
pub mod layout;
pub mod project_navigation;
pub mod order;
pub mod models;
pub mod ui;
pub mod task_picker;
pub mod app_input;
pub mod app_event;
pub mod project_tabs;
pub mod project_switcher;
pub mod project_chooser;
pub mod project_runtime;
pub mod phase;
pub mod auto_climb;
pub mod collaboration;
pub mod smart_path;
pub mod tool_spec;
pub mod search_tool;
pub mod smart_read;
pub mod smart_search;
pub mod smart_write;
pub mod edit_tool;
pub mod read_pipeline;
pub mod json;
pub mod responses;
pub mod chat_stream;
pub mod chat_request;
pub mod voice;
pub mod task_session;
pub mod post_edit;
pub mod ranking;
pub mod protocol_map;
