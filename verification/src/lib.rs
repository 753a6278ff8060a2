//! Touch-gesture engine: per-slot touch tracking, gesture recognition,
//! continuous scrolling, grab arbitration and action dispatch, all over
//! fixed-point normalized coordinates.

pub mod units;
pub mod clock;
pub mod tracker;
pub mod config;
pub mod gestures;
pub mod grab;
pub mod scroll;
pub mod text;
pub mod actions;
pub mod dispatch;
pub mod input;
pub mod pipeline;
pub mod paths;
pub mod doctor;
pub mod ipc;
pub mod profiles;
