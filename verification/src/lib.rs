//! A GoPro as a webcam: the logic behind the tray program.
//!
//! The modules here talk to no socket, file, window or device. They demultiplex
//! the camera's transport stream, lay out the virtual camera's shared memory,
//! convert and recycle frames, speak the camera's HTTP dialect and decide what
//! the threads of the program do next. Whatever touches the machine is done by
//! the program around the library, which hands in plain values and carries out
//! the actions that come back.

pub mod camera_laws;
pub mod control;
pub mod gopro;
pub mod http;
pub mod linux;
pub mod linux_setup;
pub mod mf_decode;
pub mod menu;
pub mod mpegts;
pub mod mpegts_laws;
pub mod nv12;
pub mod obs_vcam;
pub mod picture_laws;
pub mod preview;
pub mod session;
pub mod session_laws;
pub mod setup_laws;
pub mod startup;
pub mod text;
pub mod text_laws;
pub mod transport_laws;
pub mod tray;
pub mod watch;
