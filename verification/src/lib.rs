pub mod text;
pub mod sanitize;
pub mod native_input;
pub mod json;
pub mod browser;
pub mod dom_actions;
pub mod mcp;
pub mod page_index;
pub mod learning;
pub mod form_fill;
pub mod tools;
pub mod tokens;
pub mod newtab_html;
pub mod notification_html;
pub mod overlay_html;
pub mod progress_bar_html;
pub mod quickslots_html;
pub mod settings_html;
pub mod shortcuts_html;
pub mod prompt_history_js;
pub mod markdown_js;
pub mod readiness_js;
pub mod nav_error_patch;
pub mod quickslots;
pub mod server;
