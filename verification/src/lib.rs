//! Verified core of the opereon configuration-management tool.
pub mod command;
pub mod text;
pub mod path;
pub mod outlog;
pub mod net;
pub mod model;
pub mod rsync;
pub mod logging;
