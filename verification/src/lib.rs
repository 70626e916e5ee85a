//! The decision core of the wallpaper daemon: what it validates, what it
//! remembers, and what it does next.
//!
//! Everything that touches a process, a socket, a file or a clock lives in the
//! program around this library; here are only functions of plain values, each
//! with a contract that Verus proves.

pub mod text;
pub mod identity;
pub mod script;
pub mod names;
pub mod probe;
pub mod child;
pub mod macos_desktop;
pub mod round_trip;
pub mod persist;
pub mod grants;
pub mod model;
pub mod assignments;
pub mod apply;
pub mod gate;
pub mod verdict;
pub mod transaction;
pub mod restore;
pub mod prepare;
pub mod shell;
pub mod handle;
pub mod playlist;
pub mod playlist_session;
pub mod inspect;
pub mod audio;
pub mod selfcheck;
pub mod websandbox;
pub mod settings;
pub mod request_line;
pub mod request;
pub mod laws_apply;
pub mod laws_transaction;
pub mod laws_playlist;
pub mod laws_stores;
pub mod laws_session;
pub mod laws_text;
pub mod laws_probe;
pub mod laws_daemon;
pub mod laws_shell;
pub mod laws_request;
