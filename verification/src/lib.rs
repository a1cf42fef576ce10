//! Interactive-mode components of the pi coding agent.

pub mod animation_laws;
pub mod app_keybindings;
pub mod armin;
pub mod armin_animation;
pub mod assistant_message;
pub mod bash_execution;
pub mod choice_selectors;
pub mod columns;
pub mod component_laws;
pub mod config_laws;
pub mod config_list;
pub mod config_selector;
pub mod config_view;
pub mod countdown_timer;
pub mod detail_laws;
pub mod dialog_laws;
pub mod diff;
pub mod dispatch;
pub mod dispatch_laws;
pub mod display_laws;
pub mod entries;
pub mod entry_laws;
pub mod extension_dialogs;
pub mod extension_ui;
pub mod first_time_setup;
pub mod fitting;
pub mod footer;
pub mod fuzzy_list;
pub mod json;
pub mod keybinding_hints;
pub mod label_times;
pub mod lines;
pub mod login_dialog;
pub mod measure_laws;
pub mod message_blocks;
pub mod model_laws;
pub mod model_scope;
pub mod model_selector;
pub mod models;
pub mod numbers;
pub mod oauth_selector;
pub mod opening_laws;
pub mod order;
pub mod outcome_laws;
pub mod path_laws;
pub mod render_cache;
pub mod resource_laws;
pub mod resource_settings;
pub mod resources;
pub mod scoped_models_selector;
pub mod screen_laws;
pub mod scroll;
pub mod search_laws;
pub mod select_submenu;
pub mod selection_laws;
pub mod session;
pub mod session_header;
pub mod session_laws;
pub mod session_listing;
pub mod session_rows;
pub mod session_screen;
pub mod session_selector;
pub mod session_selector_component;
pub mod session_selector_search;
pub mod session_tree;
pub mod settings_changes;
pub mod settings_laws;
pub mod settings_selector;
pub mod status_indicator;
pub mod style;
pub mod text;
pub mod text_laws;
pub mod theme_submenu;
pub mod tool_calls;
pub mod tool_execution;
pub mod transcript;
pub mod tree_arena;
pub mod tree_component;
pub mod tree_drawing_laws;
pub mod tree_help;
pub mod tree_input;
pub mod tree_laws;
pub mod tree_layout;
pub mod tree_navigation;
pub mod tree_rows;
pub mod tree_screen;
pub mod tree_selector;
pub mod tree_view_laws;
pub mod trust_selector;
pub mod user_message_selector;
pub mod visual_truncate;
