//! The workspace layer of a debate word processor: pane layout, in-document
//! search, outline, command dispatch, review comments, history, evidence
//! toolkit, session persistence and the decisions behind their views.

pub mod a11y;
pub mod autosave;
pub mod autosave_laws;
pub mod bar_laws;
pub mod basics_laws;
pub mod chrome;
pub mod chrome_laws;
pub mod closing;
pub mod closing_laws;
pub mod collaboration;
pub mod collaboration_settings;
pub mod commands;
pub mod commands_laws;
pub mod comment_dialog;
pub mod comments;
pub mod comments_laws;
pub mod comments_view;
pub mod dialog_laws;
pub mod document_panel;
pub mod document_search;
pub mod document_search_laws;
pub mod equation;
pub mod extension_grants;
pub mod extension_host;
pub mod extension_laws;
pub mod extensions;
pub mod files_laws;
mod fx;
pub mod history;
pub mod history_laws;
pub mod host_laws;
pub mod ids;
pub mod input_laws;
pub mod keymap;
pub mod keymap_laws;
pub mod keymap_editor;
pub mod load;
pub mod opening;
pub mod opening_laws;
pub mod ordering;
pub mod outbox;
pub mod outbox_laws;
pub mod outline;
pub mod outline_laws;
pub mod palette;
pub mod palette_laws;
pub mod pane;
pub mod pane_closing_laws;
pub mod pane_laws;
pub mod pane_layout;
pub mod pane_layout_laws;
pub mod pane_ways;
pub mod panels;
pub mod panels_laws;
pub mod paths;
pub mod places;
pub mod recent;
pub mod revision_dialog;
pub mod prompt_laws;
pub mod review_laws;
pub mod saving;
pub mod search_bar;
pub mod search_laws;
pub mod session;
pub mod session_laws;
pub mod settings;
pub mod settings_laws;
pub mod style_pages;
pub mod styles;
pub mod surfaces_laws;
pub mod text;
pub mod text_laws;
pub mod text_set;
pub mod toolkit;
pub mod toolkit_laws;
pub mod toolkit_view;
pub mod trust_laws;
pub mod tub;
pub mod tub_laws;
pub mod tub_nav_laws;
pub mod tub_tree_laws;
pub mod tub_nav;
pub mod window_commands;
pub mod windows;
pub mod workspace;
pub mod workspace_laws;
