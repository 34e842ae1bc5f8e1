//! Search logic for the Tailwind CSS documentation Alfred workflow.

pub mod algolia;
pub mod cli;
pub mod config;
pub mod html;
pub mod items;
pub mod models;
pub mod text;
pub mod urls;
pub mod workflow;
