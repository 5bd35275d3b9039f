//! The logic of the DSH desktop shell: every decision that the native window,
//! the tray, the updater and the host supervisor make, and the texts they show.
//!
//! Nothing here touches the disk, the network, the clock or the screen. What has
//! to be done outside is asked for as a value ([`task::Task`], or an action of
//! one of the state machines), and how it went comes back as another.
//!
//! * Text and documents: [`text`], [`path`], [`document`], [`i18n`].
//! * Upgrading DSH: [`version`], [`install`], [`updater`], [`staging`], [`swap`],
//!   [`upgrade`], over [`task`] and [`command`].
//! * Running DSH: [`server`], [`bridge`].
//! * The shell itself: [`shell`], [`instance`], [`runtime`], [`logfile`],
//!   [`window_state`], [`theme`], [`settings`], [`menu`], [`hotkey`], [`native`],
//!   [`outline`].

pub mod bridge;
pub mod command;
pub mod document;
pub mod hotkey;
pub mod i18n;
pub mod install;
pub mod instance;
pub mod logfile;
pub mod menu;
pub mod native;
pub mod outline;
pub mod path;
pub mod runtime;
pub mod server;
pub mod settings;
pub mod shell;
pub mod staging;
pub mod swap;
pub mod task;
pub mod text;
pub mod theme;
pub mod updater;
pub mod upgrade;
pub mod version;
pub mod window_state;
