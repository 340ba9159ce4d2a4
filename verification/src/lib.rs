use vstd::prelude::*;

mod cli;
mod codec;
mod config;
mod roundtrip;
mod workspace;

pub use cli::{Request, select_request};

pub use config::{
    get_settings_file, key_base, key_target, parse_config, parse_config_spec, parse_config_str,
    settings_file_of, settings_file_path, sp_config, Config, ConfigView,
};

pub use roundtrip::lemma_render_parse;

pub use codec::{
    chars_of, esc_char, esc_seq, is_ws, key_folders, key_name, key_path, key_settings,
    parse_workspace, parse_workspace_spec, parse_workspace_str, render_folder,
    render_folder_items, render_setting, render_setting_items, render_string, render_workspace,
    render_workspace_string, render_workspace_view, skip_ws, sp_char, sp_folder, sp_folder_items,
    sp_folders_value, sp_member_string, sp_setting_items, sp_settings_value, sp_str_body,
    sp_string, sp_workspace, unesc_char,
};

pub use workspace::{
    FolderSetting, FolderView, WorkSpace, WorkSpaceView, exec_add, exec_full, exec_only,
    exec_remove, find_first, lemma_find_first, lemma_no_match_changes_nothing,
    lemma_remove_would_empty, WsError,
};
