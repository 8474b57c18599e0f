//! Virtual devices: the loop-back audio cable, the frame pushers, the installers and the control
//! panels, as pure state and decisions with proved contracts.
#![allow(non_camel_case_types, non_snake_case, non_upper_case_globals)]

pub mod adapter;
pub mod audio;
pub mod audio_test;
pub mod bytes;
pub mod camera;
pub mod cli;
pub mod cmdline;
pub mod com;
pub mod desk;
pub mod dsp_ui;
pub mod endpoint_names;
pub mod frame;
pub mod guid;
pub mod host;
pub mod install;
pub mod journal;
pub mod ks;
pub mod layout;
pub mod miniport;
pub mod panel;
pub mod position;
pub mod proposal;
pub mod push;
pub mod riff;
pub mod ringbuffer;
pub mod screen;
pub mod spsc;
pub mod stats;
pub mod status;
pub mod stream;
pub mod studio;
pub mod text;
pub mod topology;
pub mod video;
pub mod vscreen;
pub mod wasapi;
pub mod wav;
pub mod wave_format;
