//! broom: finds build output, dependency and cache folders, sorts them by
//! size, and moves the ones the user picks to the Trash.
//!
//! This library holds the decisions: which folders are offered, how sizes
//! and labels read, the order of the review, the checks made before an item
//! is moved, the commands that move it and what their outcomes come to.
//! Reading the disk, asking the user and running commands is left to the
//! caller, who hands the results in as plain values or as closures.
use vstd::prelude::*;

pub mod candidate;
pub mod locations;
pub mod menu;
pub mod paths;
pub mod review;
pub mod rules;
pub mod safety;
pub mod scan;
pub mod text;
pub mod trash;
pub mod units;

