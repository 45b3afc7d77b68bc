//! Keeps the home directories of a machine's users: reads which users to keep,
//! finds their home directories in the user database, and restores them from
//! their backups with `rsync`.

pub mod application;
pub mod error;
pub mod log;
pub mod text;
pub mod user;
