//! Core of a desktop-background rotator: a schedule evaluator that decides
//! whether rotation is allowed at a given wall-clock instant, a rotation
//! controller that picks the next image (randomly or sequentially) and
//! reacts to configuration changes, and the bookkeeping for the list of
//! target images.  Platform calls (reading and setting the background,
//! reading the clock, parsing schedule times) go through small trusted
//! wrappers; everything else is verified.

pub mod config;
pub mod platform;
pub mod schedule;
pub mod state;
pub mod targets;
pub mod text;
pub mod tick;
