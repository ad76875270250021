//! The server's immutable configuration: where to listen, how many workers to
//! run, the document root, and the authentication mode.  Built once at
//! startup and shared read-only by every connection.

use vstd::prelude::*;

verus! {

/// Top-level invocation: which mode the server runs in.
pub struct HttpServerArgs {
    pub mode: Mode,
}

/// Either serve requests or just print information about the server.
pub enum Mode {
    Run(RunCommand),
    Info(InfoCommand),
}

/// Everything a running server needs: the listening address, the worker-pool
/// size, the document root, and the authentication mode.
#[derive(Clone)]
pub struct RunCommand {
    pub port: u16,
    pub host: String,
    pub pool_size: usize,
    pub root_folder: String,
    pub auth_mode: AuthMode,
}

/// The information-only mode carries no settings.
pub struct InfoCommand {}

/// How requests are authenticated: not at all, or per-folder Basic
/// Authentication.
#[derive(Clone)]
pub enum AuthMode {
    NoAuth(NoneAuthCommand),
    Basic(BasicAuthCommand),
}

/// Settings of the unauthenticated mode: none.
#[derive(Clone)]
pub struct NoneAuthCommand {}

/// Basic Authentication settings: a comma-separated list of protected path
/// prefixes, and the one accepted credential pair.
#[derive(Clone)]
pub struct BasicAuthCommand {
    pub protected_folders: String,
    pub username: String,
    pub password: String,
}

} // verus!
