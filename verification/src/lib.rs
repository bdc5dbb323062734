//! Suplex: the verified core of a pro wrestling tracker that reads
//! cagematch.net pages.

pub mod text;
pub mod html;
pub mod pattern;
pub mod calendar;
pub mod cagematch;
pub mod scrape;
pub mod settings;
pub mod config;
