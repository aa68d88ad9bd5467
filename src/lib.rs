//! A daily bell schedule: profiles of time-of-day periods, the tick decision
//! that fires each period at most once per minute, the choice of sound with
//! its fallback, and the small pieces of shared state between the timer, the
//! interface and the tray.
pub mod text;
pub mod time;
pub mod schedule;
pub mod engine;
pub mod sound;
pub mod tray;
pub mod window;
pub mod display;
