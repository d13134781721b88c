//! Overlay panels for a desktop taskbar: the logic that keeps per-monitor
//! overlay windows in step with an externally owned taskbar window, and the
//! template engine that turns a label's format string plus live metrics into
//! the text rendered each frame.
//!
//! The crate holds the decision and computation core.  Everything that talks
//! to the operating system -- window handles, drawing surfaces, performance
//! counters -- lives outside and hands this crate plain values: probes of the
//! taskbar's current state, enumerated window lists, counter readings.  The
//! core answers with explicit actions and rendered text.

pub mod clock;
pub mod color;
pub mod display;
pub mod geom;
pub mod gpu;
pub mod lockscreen;
pub mod metrics;
pub mod panel;
pub mod reconciler;
pub mod resolver;
pub mod text;
