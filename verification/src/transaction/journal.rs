//! The append-only `plugins/.mcplug/journal.jsonl`.

use vstd::prelude::*;
use crate::lockfile::DIR;
use crate::util::path::{join, path_join};

verus! {

/// One line of the journal.
#[derive(Debug, Clone)]
pub struct JournalEntry {
    /// Unix time, in seconds.
    pub time: i64,
    pub tx_id: String,
    /// `update`, `install`, `revert`, `aborted`, `restart`, `backup`, `bridge`.
    pub action: String,
    pub outcome: String,
    pub items: Vec<JournalItem>,
    pub note: Option<String>,
}

/// One plugin a transaction changed.
#[derive(Debug, Clone)]
pub struct JournalItem {
    pub name: String,
    pub from: Option<String>,
    pub to: String,
    pub old_file: Option<String>,
    pub new_file: String,
}

/// The journal of a plugin directory.
pub fn path(plugins_dir: &str) -> (r: String)
    ensures
        r@ == path_join(path_join(plugins_dir@, DIR@), "journal.jsonl"@),
{
    let m = crate::transaction::mcplug_dir(plugins_dir);
    proof {
        reveal_strlit("journal.jsonl");
    }
    join(m.as_str(), "journal.jsonl")
}

/// The latest transaction with the outcome `applied`: what a revert without an id undoes.
pub fn last_applied(entries: &Vec<JournalEntry>) -> (r: Option<String>)
    ensures
        match r {
            Some(t) => exists|i: int| 0 <= i < entries@.len() && entries@[i].outcome@ == "applied"@ && entries@[i].tx_id@ == t@
                && forall|j: int| i < j < entries@.len() ==> entries@[j].outcome@ != "applied"@,
            None => forall|j: int| 0 <= j < entries@.len() ==> entries@[j].outcome@ != "applied"@,
        },
{
    let mut i: usize = entries.len();
    while i > 0
        invariant
            i <= entries@.len(),
            forall|j: int| i <= j < entries@.len() ==> entries@[j].outcome@ != "applied"@,
        decreases i,
    {
        i = i - 1;
        proof {
            reveal_strlit("applied");
        }
        if crate::lockfile::str_eq(entries[i].outcome.as_str(), "applied") {
            return Some(entries[i].tx_id.clone());
        }
    }
    None
}

/// How a journal item reads in the history: `name from→to` for a change, `+name to` for
/// an addition.
pub open spec fn item_text_spec(name: Seq<char>, from: Option<Seq<char>>, to: Seq<char>) -> Seq<char> {
    match from {
        Some(f) => name + " "@ + f + "→"@ + to,
        None => "+"@ + name + " "@ + to,
    }
}

pub fn item_text(i: &JournalItem) -> (r: String)
    ensures
        r@ == item_text_spec(i.name@, crate::text::opt_view(i.from), i.to@),
{
    proof {
        reveal_strlit(" ");
        reveal_strlit("→");
        reveal_strlit("+");
    }
    let mut out: Vec<char> = Vec::new();
    match &i.from {
        Some(f) => {
            crate::text::push_str(&mut out, i.name.as_str());
            crate::text::push_str(&mut out, " ");
            crate::text::push_str(&mut out, f.as_str());
            crate::text::push_str(&mut out, "→");
            crate::text::push_str(&mut out, i.to.as_str());
        },
        None => {
            crate::text::push_str(&mut out, "+");
            crate::text::push_str(&mut out, i.name.as_str());
            crate::text::push_str(&mut out, " ");
            crate::text::push_str(&mut out, i.to.as_str());
        },
    }
    crate::text::string_from_chars(out.as_slice())
}

} // verus!
