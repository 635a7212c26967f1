//! The logic of a terminal user interface for the Slurm queue: the state of the
//! application and what events make of it, what is on the screen, the decoding
//! of log files, and self-updates. Every function states what it does, and is
//! proved to do it.
pub mod app;
pub mod app_laws;
pub mod archive;
pub mod box_laws;
pub mod cell_laws;
pub mod checksum;
pub mod clipboard;
pub mod command;
pub mod decode;
pub mod decoder_laws;
pub mod dialog;
pub mod dialog_box;
pub mod dialog_laws;
pub mod event_laws;
pub mod file_watcher;
pub mod file_watcher_laws;
pub mod formatting;
pub mod geometry;
pub mod input;
pub mod job;
pub mod key_laws;
pub mod layout;
pub mod line_edit;
pub mod list;
pub mod log_decoder;
pub mod output;
pub mod output_laws;
pub mod pane_laws;
pub mod panes;
pub mod path;
pub mod plain;
pub mod screen;
pub mod standard;
pub mod styled;
pub mod text;
pub mod text_laws;
pub mod update_flow;
pub mod update_laws;
pub mod updater;
pub mod version;
pub mod viewport;
