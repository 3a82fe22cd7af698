//! A verified core for a small HTTP front-end that serves static files and
//! runs CGI executables.
//!
//! The library holds the protocol logic: resolving a request path to a
//! static or CGI target, building the CGI environment for a child process,
//! and interpreting the child's raw output as an HTTP response. All I/O
//! (sockets, files, process spawning) stays with the caller, which hands the
//! library plain values and receives plain values back.

pub mod cgi_env;
pub mod cgi_parse;
pub mod resolve;
pub mod response;
pub mod util;
