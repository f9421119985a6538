//! Clip selection, ordering and command-building logic of a video compilation
//! tool, with machine-checked contracts.

pub mod ids;
pub mod clip;
pub mod options;
pub mod markers;
pub mod rng;
pub mod seeded;
pub mod sort;
pub mod pmv;
pub mod ffprobe;
pub mod description;
pub mod handy;
pub mod funscript;
pub mod paths;
pub mod util;
pub mod stash;
pub mod video;
pub mod streams;
pub mod ffmpeg;
pub mod text;
pub mod generator;
pub mod directories;
pub mod weighted;
pub mod convert;
pub mod textjoin;
pub mod library;
pub mod updater;
