pub mod text;
pub mod model;
pub mod config;
pub mod thumbnails;
pub mod launch;
pub mod session;
pub mod properties;
pub mod placement;
pub mod clipboard;
