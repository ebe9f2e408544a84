use vstd::prelude::*;
use crate::cli::update::FlowArgs;

verus! {

#[derive(Debug, Clone)]
pub struct JarArgs {
    pub server: String,
    pub update: bool,
    pub mc: Option<String>,
    pub check_only: bool,
    pub yes: bool,
    pub flow: FlowArgs,
}

} // verus!
