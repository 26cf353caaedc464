//! A natal chart engine on fixed-point angles: circular separation, an aspect
//! catalog matched within orbs, the visibility of bodies and angles, and the
//! ordered list of objects that a chart is drawn from.
//!
//! Longitudes, targets and orbs are in micro-degrees.

pub mod angle;
pub mod catalog;
pub mod entity;
pub mod matcher;
pub mod error;
pub mod input;
pub mod layout;
pub mod model;
pub mod visibility;
