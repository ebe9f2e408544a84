//! Servers without a console: a restart command, or nothing at all.

use vstd::prelude::*;

verus! {

/// A restart command and nothing else (such as `systemctl restart mc-survival`).
#[derive(Debug, Clone)]
pub struct CommandControl {
    pub restart_command: String,
    pub ping_port: Option<u16>,
    pub cwd: String,
}

/// No way to talk to the server at all: updates are staged, restarting is the user's job.
#[derive(Debug, Clone)]
pub struct NoControl {
    pub ping_port: Option<u16>,
}

} // verus!
