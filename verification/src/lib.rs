//! The audio core of a MIDI sequencer.
//!
//! A `Conn` decides what a synthesizer is to play and keeps a record of what
//! it was told: which bank files are loaded, which program each channel has.
//! It schedules the notes of the music in a queue of timed events for live
//! playback, and prepares exports, which an `ExportSession` then renders
//! sample by sample, appends the sound that is left, and has written, one
//! file after the other. Both hand out the MIDI events that are due, in
//! their order; whoever owns the synthesizer hands them on to it before it
//! reads the next sample. The modules on panels hold the state of the parts
//! of the interface that drive all this.

// Music and time.
pub mod midi_event;
pub mod music;
pub mod time;
pub mod timed;

// The synthesizer and what it was told.
pub mod loaded_fonts;
pub mod soundfont_banks;
pub mod synth;
pub mod synth_state;

// Live playback.
pub mod decayer;
pub mod midi_event_queue;
pub mod play_state;
pub mod schedule;

// The connection.
pub mod command;
pub mod conn;
pub mod conn_view;

// Export.
pub mod export;
pub mod export_queue;
pub mod export_session;
pub mod exporter;
pub mod midi_file;
pub mod text;

// The state of the interface.
pub mod boolean;
pub mod index;
pub mod open_file;
pub mod open_file_panel;
pub mod piano_roll_panel;
pub mod state;
