//! Configuration: `config.toml`, `secrets.toml`, and where they were found.

pub mod model;
pub mod paths;
pub mod policy;
pub mod secrets;

use vstd::prelude::*;
use crate::config::model::Config;
use crate::config::secrets::{env_fallback, Secrets};
use crate::text::opt_view;

verus! {

/// Config + secrets + the directory they came from.
#[derive(Debug, Clone)]
pub struct Loaded {
    pub dir: String,
    pub config: Config,
    pub secrets: Secrets,
}

impl Loaded {
    /// The MCSManager API key: the one in `secrets.toml`, else `MCSM_APIKEY` from the
    /// `KEY=VALUE` file named by `mcsmanager.api_key_env_file`, whose text the caller read
    /// (`None` when there is no such file or it could not be read).
    pub fn mcsm_api_key(&self, env_file_text: Option<&str>) -> (r: Option<String>)
        ensures
            opt_view(r) == env_fallback(opt_view(self.secrets.mcsm_api_key), match env_file_text {
                Some(t) => Some(t@),
                None => None,
            }),
    {
        self.secrets.mcsm_key_with_fallback(env_file_text)
    }
}

} // verus!
