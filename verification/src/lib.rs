//! Controller-independent logic of the ShoopDaLoop interface.

pub mod app_model;
pub mod click_track;
pub mod composite;
pub mod composite_selection;
pub mod connection;
pub mod cue_output;
pub mod details;
pub mod fx;
pub mod graph_build;
pub mod id_set;
pub mod ids;
pub mod io_task;
pub mod key_input;
pub mod latency;
pub mod loop_widget;
pub mod midi_sequence;
pub mod new_track;
pub mod optimistic_value;
pub mod ports;
pub mod script_queue;
pub mod settings;
pub mod text;
pub mod track_defaults;
pub mod track_processor;
