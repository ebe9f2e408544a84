//! Talking to a running server: status, console commands, restarts. The connections
//! themselves (panel API, RCON socket, shell) are the caller's; this module decides which
//! control a server gets and what the answers mean.

pub mod command;
pub mod companion;
pub mod ping;
pub mod rcon;
pub mod restart;

use vstd::prelude::*;
use crate::config::model::ControlConfig;
use crate::config::secrets::{rcon_lookup, Secrets};
use crate::server::discovery::{Server, ServerOrigin};
use crate::server::mcsm::InstanceStatus;
use crate::text::{clone_opt_string, clone_string, opt_view};
use crate::control::command::{CommandControl, NoControl};
use crate::control::rcon::RconControl;

verus! {

#[derive(Debug, Clone, Copy, PartialEq, Eq, Structural)]
pub enum ServerStatus {
    Running,
    Stopped,
    Starting,
    Stopping,
    Busy,
    Unknown,
}

/// The panel's instance state as a server status.
pub fn status_from_panel(s: InstanceStatus) -> (r: ServerStatus)
    ensures
        r == match s {
            InstanceStatus::Running => ServerStatus::Running,
            InstanceStatus::Stopped => ServerStatus::Stopped,
            InstanceStatus::Starting => ServerStatus::Starting,
            InstanceStatus::Stopping => ServerStatus::Stopping,
            InstanceStatus::Busy => ServerStatus::Busy,
            InstanceStatus::Unknown(_) => ServerStatus::Unknown,
        },
{
    match s {
        InstanceStatus::Running => ServerStatus::Running,
        InstanceStatus::Stopped => ServerStatus::Stopped,
        InstanceStatus::Starting => ServerStatus::Starting,
        InstanceStatus::Stopping => ServerStatus::Stopping,
        InstanceStatus::Busy => ServerStatus::Busy,
        InstanceStatus::Unknown(_) => ServerStatus::Unknown,
    }
}

/// Status from a server-list ping: unknown without a ping port, running when the server
/// answered (`Some(players)`), stopped when it did not.
pub fn status_from_ping(ping_port: Option<u16>, answer: Option<u32>) -> (r: ServerStatus)
    ensures
        r == match ping_port {
            None => ServerStatus::Unknown,
            Some(_) => if answer is Some { ServerStatus::Running } else { ServerStatus::Stopped },
        },
{
    match ping_port {
        None => ServerStatus::Unknown,
        Some(_) => match answer {
            Some(_) => ServerStatus::Running,
            None => ServerStatus::Stopped,
        },
    }
}

/// The control a server gets.
#[derive(Debug, Clone)]
pub enum ControlChoice {
    /// Through MCSManager's API, for an instance of the panel (the panel client is the
    /// caller's).
    Mcsm { uuid: String, port: Option<u16> },
    Rcon(RconControl),
    Command(CommandControl),
    Off(NoControl),
}

/// Picks the control for a server: the panel for its instances when a panel client is
/// available, else what the server's config says, with the RCON password looked up in the
/// secrets (empty when missing).
pub fn for_server(server: &Server, panel_available: bool, secrets: &Secrets) -> (r: ControlChoice)
    ensures
        match (server.origin, panel_available) {
            (ServerOrigin::Mcsm { uuid }, true) => r matches ControlChoice::Mcsm { uuid: u, port } && u@ == uuid@ && port == server.ping_port,
            _ => match server.control {
                ControlConfig::Rcon { host, port, password_ref, restart_command } => r matches ControlChoice::Rcon(c)
                    && c.host@ == host@ && c.port == port && c.ping_port == server.ping_port && c.cwd@ == server.root@
                    && opt_view(c.restart_command) == opt_view(restart_command)
                    && c.password@ == match rcon_lookup(secrets.rcon@, password_ref@) {
                        Some(p) => p,
                        None => Seq::<char>::empty(),
                    },
                ControlConfig::Command { restart_command } => r matches ControlChoice::Command(c)
                    && c.restart_command@ == restart_command@ && c.ping_port == server.ping_port && c.cwd@ == server.root@,
                ControlConfig::Absent => r matches ControlChoice::Off(c) && c.ping_port == server.ping_port,
            },
        },
{
    if panel_available {
        if let Some(uuid) = server.mcsm_uuid() {
            return ControlChoice::Mcsm { uuid: String::from_str(uuid), port: server.ping_port };
        }
    }
    match &server.control {
        ControlConfig::Rcon { host, port, password_ref, restart_command } => ControlChoice::Rcon(RconControl {
            host: clone_string(host),
            port: *port,
            password: secrets.rcon_password(password_ref.as_str()),
            restart_command: clone_opt_string(restart_command),
            ping_port: server.ping_port,
            cwd: clone_string(&server.root),
        }),
        ControlConfig::Command { restart_command } => ControlChoice::Command(CommandControl {
            restart_command: clone_string(restart_command),
            ping_port: server.ping_port,
            cwd: clone_string(&server.root),
        }),
        ControlConfig::Absent => ControlChoice::Off(NoControl { ping_port: server.ping_port }),
    }
}

/// The name of a control itself.
pub open spec fn kind_name(c: ControlChoice) -> Seq<char> {
    match c {
        ControlChoice::Mcsm { .. } => "mcsmanager"@,
        ControlChoice::Rcon(_) => "rcon"@,
        ControlChoice::Command(_) => "command"@,
        ControlChoice::Off(_) => "none"@,
    }
}

/// The error a control answers with when asked for what it cannot do.
pub open spec fn refusal(c: ControlChoice, op: ControlOp) -> Option<Seq<char>> {
    match (c, op) {
        (ControlChoice::Command(_), ControlOp::Console) => Some("no console access for this server (configure RCON)"@),
        (ControlChoice::Off(_), ControlOp::Console) => Some("no console access for this server"@),
        (ControlChoice::Command(_), ControlOp::Stop) => Some("no stop command configured"@),
        (ControlChoice::Command(_), ControlOp::Start) => Some("no start command configured"@),
        (ControlChoice::Off(_), ControlOp::Stop) => Some("no control configured for this server"@),
        (ControlChoice::Off(_), ControlOp::Start) => Some("no control configured for this server"@),
        (ControlChoice::Off(_), ControlOp::Restart) => Some("no control configured for this server — restart it yourself"@),
        (ControlChoice::Rcon(r), ControlOp::Start) => if r.restart_command is None {
            Some("rcon can stop the server but no restart_command is configured to start it"@)
        } else {
            None
        },
        (ControlChoice::Mcsm { .. }, ControlOp::SetStartCommand) => None,
        (_, ControlOp::SetStartCommand) => Some(kind_name(c) + " cannot change the start command"@),
        _ => None,
    }
}

/// What is asked of a control.
#[derive(Debug, Clone, Copy, PartialEq, Eq, Structural)]
pub enum ControlOp {
    Console,
    Stop,
    Start,
    Restart,
    SetStartCommand,
}

impl ControlChoice {
    /// The name of the way mcplug talks to the server: `bridge` where the bridge plugin
    /// fronts the control.
    pub fn name(&self, bridge: bool) -> (r: &'static str)
        ensures
            r@ == (if bridge { "bridge"@ } else { kind_name(*self) }),
    {
        if bridge {
            return "bridge";
        }
        match self {
            ControlChoice::Mcsm { .. } => "mcsmanager",
            ControlChoice::Rcon(_) => "rcon",
            ControlChoice::Command(_) => "command",
            ControlChoice::Off(_) => "none",
        }
    }

    /// Console commands go through the panel, RCON or the bridge.
    pub fn can_console(&self, bridge: bool) -> (r: bool)
        ensures
            r == (bridge || *self is Mcsm || *self is Rcon),
    {
        bridge || match self {
            ControlChoice::Mcsm { .. } | ControlChoice::Rcon(_) => true,
            _ => false,
        }
    }

    /// The panel and a restart command can restart a server; RCON only with a restart
    /// command to start it again.
    pub fn can_restart(&self) -> (r: bool)
        ensures
            r == match *self {
                ControlChoice::Mcsm { .. } | ControlChoice::Command(_) => true,
                ControlChoice::Rcon(rc) => rc.restart_command is Some,
                ControlChoice::Off(_) => false,
            },
    {
        match self {
            ControlChoice::Mcsm { .. } | ControlChoice::Command(_) => true,
            ControlChoice::Rcon(rc) => rc.restart_command.is_some(),
            ControlChoice::Off(_) => false,
        }
    }

    /// Why the control cannot do what is asked, if it cannot.
    pub fn refusal(&self, op: ControlOp) -> (r: Option<String>)
        ensures
            opt_view(r) == refusal(*self, op),
    {
        proof {
            reveal_strlit("no console access for this server (configure RCON)");
            reveal_strlit("no console access for this server");
            reveal_strlit("no stop command configured");
            reveal_strlit("no start command configured");
            reveal_strlit("no control configured for this server");
            reveal_strlit("no control configured for this server — restart it yourself");
            reveal_strlit("rcon can stop the server but no restart_command is configured to start it");
            reveal_strlit(" cannot change the start command");
            reveal_strlit("mcsmanager");
            reveal_strlit("rcon");
            reveal_strlit("command");
            reveal_strlit("none");
        }
        match (self, op) {
            (ControlChoice::Command(_), ControlOp::Console) => Some(String::from_str("no console access for this server (configure RCON)")),
            (ControlChoice::Off(_), ControlOp::Console) => Some(String::from_str("no console access for this server")),
            (ControlChoice::Command(_), ControlOp::Stop) => Some(String::from_str("no stop command configured")),
            (ControlChoice::Command(_), ControlOp::Start) => Some(String::from_str("no start command configured")),
            (ControlChoice::Off(_), ControlOp::Stop) => Some(String::from_str("no control configured for this server")),
            (ControlChoice::Off(_), ControlOp::Start) => Some(String::from_str("no control configured for this server")),
            (ControlChoice::Off(_), ControlOp::Restart) => Some(String::from_str("no control configured for this server — restart it yourself")),
            (ControlChoice::Rcon(rc), ControlOp::Start) => {
                if rc.restart_command.is_none() {
                    Some(String::from_str("rcon can stop the server but no restart_command is configured to start it"))
                } else {
                    None
                }
            },
            (ControlChoice::Mcsm { .. }, ControlOp::SetStartCommand) => None,
            (_, ControlOp::SetStartCommand) => Some(crate::text::concat2(self.name(false), " cannot change the start command")),
            _ => None,
        }
    }
}

/// Players online for a server known only by its list ping: unknown without a ping port,
/// none when it does not answer.
pub fn players_by_ping(ping_port: Option<u16>, answer: Option<u32>) -> (r: Option<u32>)
    ensures
        r == match ping_port {
            None => None,
            Some(_) => match answer {
                Some(n) => Some(n),
                None => Some(0u32),
            },
        },
{
    match ping_port {
        None => None,
        Some(_) => match answer {
            Some(n) => Some(n),
            None => Some(0),
        },
    }
}

} // verus!
