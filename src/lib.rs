//! Resolution logic of an installer for self-contained application archives:
//! reading the command line, naming, placement of extracted content,
//! executable discovery, entry-point selection and PATH registration. The
//! filesystem, the environment and the user's answers come in as plain
//! values; what to do with them goes out as plain values.
pub mod text;
pub mod paths;
pub mod error;
pub mod names;
pub mod cli;
pub mod extract;
pub mod layout;
pub mod locate;
pub mod scan;
pub mod select;
pub mod locations;
pub mod registrar;
pub mod desktop;
