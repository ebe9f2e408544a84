//! What the daemon may do on its own for a server.

use vstd::prelude::*;

verus! {

/// The automatic-update policy in force for one server.
#[derive(Debug, Clone)]
pub struct EffectivePolicy {
    pub enabled: bool,
    /// How often to check for updates.
    pub check_interval_secs: u64,
    /// `none`, `same-mc-release` (tested updates only) or `all`.
    pub auto_apply: String,
    /// `now`, `when-empty`, `scheduled` or `never`.
    pub restart: String,
    pub countdown: u32,
    /// Local `HH:MM` of a scheduled restart.
    pub restart_at: String,
    /// Local `HH:MM-HH:MM` ranges in which nothing is applied or restarted.
    pub quiet_hours: Vec<String>,
    pub backup: bool,
    /// Whether Geyser and Floodgate may be updated automatically.
    pub geyser_auto: bool,
}

impl Default for EffectivePolicy {
    /// Checks every six hours, applies nothing by itself, never restarts.
    fn default() -> (r: EffectivePolicy)
        ensures
            r.enabled,
            r.check_interval_secs == 21600,
            r.auto_apply@ == "none"@,
            r.restart@ == "never"@,
            r.countdown == 60,
            r.restart_at@ == "04:30"@,
            r.quiet_hours@.len() == 0,
            r.backup,
            !r.geyser_auto,
    {
        EffectivePolicy {
            enabled: true,
            check_interval_secs: 21600,
            auto_apply: String::from_str("none"),
            restart: String::from_str("never"),
            countdown: 60,
            restart_at: String::from_str("04:30"),
            quiet_hours: Vec::new(),
            backup: true,
            geyser_auto: false,
        }
    }
}

} // verus!
