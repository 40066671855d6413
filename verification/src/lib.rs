//! The parts of a voice and camera assistant that can be stated and proved: what happens to audio,
//! to pictures, to settings and to the state of the application.
//!
//! * [`single`]: single-precision rounding on integers.
//! * [`sample_buffer`], [`pcm`], [`wav`], [`microphone`], [`recorder`]: from the microphone to a
//!   WAVE file.
//! * [`raster`], [`yuv`], [`jpeg`], [`camera`], [`camera_session`]: from the camera to the display
//!   and to JPEG files.
//! * [`text`], [`settings`]: the settings window.
//! * [`ui`], [`app_state`], [`turn`], [`actions`]: what the application does when something
//!   happens.

pub mod actions;
pub mod app_state;
pub mod camera;
pub mod camera_session;
pub mod jpeg;
pub mod microphone;
pub mod pcm;
pub mod raster;
pub mod recorder;
pub mod sample_buffer;
pub mod settings;
pub mod single;
pub mod text;
pub mod turn;
pub mod ui;
pub mod wav;
pub mod yuv;
