//! The decisions of a coding agent's host: which tools answer what, where long
//! goals are kept, how threads are written and rotated, and by which route
//! credentials are fetched.
pub mod app_server_path;
pub mod auth_route;
pub mod cloud_config;
pub mod decimal;
pub mod goal_files;
pub mod guardian;
pub mod ids;
pub mod json;
pub mod skills;
pub mod text;
pub mod text_elements;
pub mod threads;
