//! Playback, pre-render and export core of a screen and camera recording
//! editor.
//!
//! The core keeps three clocks together: the playhead on the edited
//! timeline, the position inside each clip, and the count of audio samples
//! that have been played or encoded. It decides which clip plays when,
//! what is asked of the audio mixer, how scenes blend and where texts
//! stand, and how many samples of audio go with each frame of an export.
//!
//! Everything here is integer arithmetic. Seconds, coordinates, opacities,
//! pixel positions and font sizes are fixed-point scalars in billionths
//! (see [`fixed`]); audio is counted in samples; device samples are carried
//! as opaque words. Decoding, mixing, resampling, encoding and the GPU are
//! the caller's: where the core needs them in the middle of its work it
//! takes them as functions and says what it hands them and what it does
//! with whatever they return.

pub mod audio;
pub mod buffer_config;
pub mod decimal;
pub mod editor_instance;
pub mod fixed;
pub mod mixer;
pub mod mp4;
pub mod overlay;
pub mod project;
pub mod rgba_nv12;
pub mod ring;
pub mod scene;
pub mod text;
pub mod timeline_import;
pub mod videotoolbox;
