//! A terminal attach client's decisions: what it draws, how it reads the
//! outer terminal, and what it answers to a server.

pub mod attach;
pub mod attention;
pub mod bytes;
pub mod capabilities;
pub mod cells;
pub mod chrome;
pub mod commands;
pub mod copy_mode;
pub mod effects;
pub mod frame;
pub mod input;
pub mod key_laws;
pub mod keymap;
pub mod keys;
pub mod launch;
pub mod live;
pub mod live_frame;
pub mod live_laws;
pub mod live_local;
pub mod live_loop;
pub mod live_overlay;
pub mod loop_laws;
pub mod message_laws;
pub mod motion;
pub mod narrow_laws;
pub mod outer;
pub mod overlay;
pub mod overlay_laws;
pub mod palette;
pub mod panes;
pub mod proto;
pub mod renderer;
pub mod routing;
pub mod rows;
pub mod screen_laws;
pub mod settings;
pub mod settings_laws;
pub mod status_bar;
pub mod status_laws;
pub mod tabs;
pub mod text;
pub mod theme;
pub mod time;
pub mod toast;
