//! Backend logic of a desktop shell: credential retrieval from an external
//! credential helper or from the environment, and bearer-token verification
//! against a remote identity service. The host framework wiring (windows,
//! tray, command dispatch) and all process/network I/O live outside this
//! crate; this crate holds the decisions and the parsing, verified.

pub mod credential;
pub mod token;
pub mod tray;
