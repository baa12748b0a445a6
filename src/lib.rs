//! Stabilisation and classification of forearm rotation from per-frame
//! body and hand landmarks.
//!
//! Quantities are held in fixed point: coordinates in millionths of the
//! detector's normalised unit, angles in micro-radians and confidences in
//! millionths.
//!
//! A frame runs through an [`tracker::ArmTracker`] in three steps:
//! `begin_frame` stamps it and decides whether it is tracked; for each hand,
//! [`skeleton::assign_side`] picks its side, [`palm::palm_normal`] gives its
//! palm orientation and `observe_palm` folds that into the side's histories
//! and classifies the rotation; `end_frame` says which gesture each side
//! shows. Smoothing the raw landmarks and measuring the angle between two
//! palm normals are left to the caller.
pub mod config;
pub mod geometry;
pub mod gesture;
pub mod history;
pub mod palm;
pub mod report;
pub mod rotation;
pub mod session;
pub mod skeleton;
pub mod tracker;
