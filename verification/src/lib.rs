//! Simulation and judging core of a vertical-scrolling rhythm game.
//!
//! A chart declares judge lines, each with timed animation events and notes;
//! a frame driver feeds elapsed time and touch samples, and this crate
//! advances the per-line timelines, judges every note against its timing
//! window, and aggregates combo / accuracy / score.
//!
//! All quantities are plain integers in fixed units:
//! - wall-clock time: microseconds (`i64`);
//! - chart time: milli-ticks (one tick is `60 / bpm / 32` seconds);
//! - bpm: milli-bpm;
//! - world coordinates and event values: milli-units (the world rectangle is
//!   1920x1080 units);
//! - direction vectors (sine/cosine supplied by the host): micro-units;
//! - accuracy: micro (1_000_000 is 100%); score: milli-points.
//!
//! The host is responsible for trigonometry and for decoding floating-point
//! touch coordinates into milli-units; everything else lives here.

pub mod chart;
pub mod effect;
pub mod input;
pub mod math;
pub mod states;
pub mod states_judge;
pub mod states_statistics;
pub mod states_ticking;
