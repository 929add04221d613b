pub mod text;
pub mod branding;
pub mod broll;
pub mod captions;
pub mod clip;
pub mod cut;
pub mod demo;
pub mod detection;
pub mod drawtext;
pub mod environment;
pub mod facetrack;
pub mod finishing;
pub mod json;
pub mod llm;
pub mod media;
pub mod models;
pub mod naming;
pub mod number;
pub mod ollama;
pub mod outro;
pub mod paths;
pub mod postiz;
pub mod progress;
pub mod providers;
pub mod pyenv;
pub mod sfx;
pub mod sidecar;
pub mod srt;
pub mod title;
pub mod youtube;

use vstd::prelude::*;

verus! {

} // verus!
