//! Verified core of a game-library backend with three stateless operations:
//! scanning a library directory's manifest files into game records, locating
//! the logged-in user's numeric identity in a login-cache file, and building
//! the URI that launches a title. Every decision about the data is made and
//! proved here; the surrounding program does the directory listing, the file
//! reads, the existence tests and the process spawn, and hands in plain
//! values.

pub mod identity;
pub mod launch;
pub mod manifest;
pub mod scan;
pub mod text;
