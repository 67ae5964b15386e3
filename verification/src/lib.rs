pub mod text;
pub mod scan;
pub mod settings;
pub mod config_lines;
pub mod includes;
pub mod fonts;
pub mod quick_terminal;
pub mod quick_panel;
pub mod paths;
pub mod model;
pub mod tab_drag;
pub mod updater;
pub mod install;
pub mod server_control;
pub mod font_lines;
pub mod feature_law;
pub mod family_lines;
pub mod padding;
pub mod textures;
pub mod search;
pub mod picker;
pub mod sessions;
pub mod input;
pub mod clipboard;
pub mod colors;
pub mod replacement;
