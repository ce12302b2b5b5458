//! The verified core of a daemon that lowers or raises the scheduling priority
//! of processes as they appear, according to rules an administrator wrote.
//!
//! The crate reads no file and changes no priority. It decides; the program
//! around it reads the process table, changes priorities and sleeps, and hands
//! back what it found. The one thing the crate asks of the machine itself is
//! the name of a user, of the user database.

pub mod adjuster;
pub mod config;
pub mod logger;
pub mod matcher;
pub mod monitor;
pub mod notice;
pub mod snapshot;
pub mod text;
