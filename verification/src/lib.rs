//! Cluster manager library: the planning and text-building logic behind the
//! MonographDB / EloqKV cluster manager, with its contracts proved by Verus.

pub mod cli;
pub mod config;
pub mod ini_file;
pub mod ordered_map;
pub mod text;
pub mod web;
