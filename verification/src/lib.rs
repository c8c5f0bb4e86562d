//! The logic of a push-to-talk voice companion for the M5Stack CoreS3.

#![allow(unused_imports)]

pub mod audio;
pub mod board;
pub mod bytes;
pub mod companion;
pub mod network;
pub mod relay;
pub mod screen;
pub mod text;
pub mod turns;
pub mod wav;
