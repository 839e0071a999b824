//! Verified core of a terminal planetarium: display settings, sky-culture
//! metadata and search, star aliases, export naming, city presets, the label
//! layout of the sky and the globe, and what keys, clicks and the pointer do.

pub mod config;
pub mod text;
pub mod constellations;
pub mod star_aliases;
pub mod layout;
pub mod app;
pub mod export;
pub mod canvas;
pub mod labels;
pub mod deep_sky;
pub mod planets;
pub mod palette;
pub mod keys;
pub mod setup;
pub mod search;
pub mod selection;
pub mod catalog;
pub mod visibility;
pub mod figure_labels;
pub mod mouse;
pub mod pointer;
