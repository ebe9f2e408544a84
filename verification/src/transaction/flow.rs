//! What a transaction tells the user and writes to the journal at each stage: refusals,
//! progress lines, aborts, the applied and reverted records, and the backup and restart
//! notes around an update. The files are the caller's.

use vstd::prelude::*;
use crate::control::restart::RestartPolicy;
use crate::text::{clone_string, concat2, concat3, opt_view, push_str, string_from_chars};
use crate::transaction::apply::{applied_item, reverted_item, ManifestItem};
use crate::transaction::journal::{JournalEntry, JournalItem};
use crate::transaction::plan::PlanItem;

verus! {

/// The refusal when the plugin directory cannot be written.
pub fn not_writable(server_name: &str) -> (r: String)
    ensures
        r@ == server_name@ + ": plugin directory is not writable"@,
{
    concat2(server_name, ": plugin directory is not writable")
}

/// The refusal of an empty plan.
pub fn nothing_to_do() -> (r: &'static str)
    ensures
        r@ == "nothing to do"@,
{
    "nothing to do"
}

/// The progress line before a jar is downloaded.
pub fn downloading_step(name: &str, version: &str) -> (r: String)
    ensures
        r@ == "downloading "@ + name@ + " "@ + version@,
{
    let mut out: Vec<char> = Vec::new();
    push_str(&mut out, "downloading ");
    push_str(&mut out, name);
    push_str(&mut out, " ");
    push_str(&mut out, version);
    string_from_chars(out.as_slice())
}

/// The error when a download fails.
pub fn download_failed(name: &str, err: &str) -> (r: String)
    ensures
        r@ == name@ + ": download failed: "@ + err@,
{
    concat3(name, ": download failed: ", err)
}

/// The progress line before the jars are swapped.
pub fn swapping_step() -> (r: &'static str)
    ensures
        r@ == "swapping jars"@,
{
    "swapping jars"
}

/// A journal line with no items.
pub fn note_entry(time: i64, tx_id: &str, action: &str, outcome: String, note: Option<String>) -> (r: JournalEntry)
    ensures
        r.time == time,
        r.tx_id@ == tx_id@,
        r.action@ == action@,
        r.outcome == outcome,
        r.items@.len() == 0,
        r.note == note,
{
    JournalEntry { time, tx_id: String::from_str(tx_id), action: String::from_str(action), outcome, items: Vec::new(), note }
}

/// The journal line of a transaction given up before anything changed; its outcome is
/// the reason, which is also the error returned.
pub fn abort_entry(time: i64, tx_id: &str, why: &str) -> (r: JournalEntry)
    ensures
        r.time == time,
        r.tx_id@ == tx_id@,
        r.action@ == "aborted"@,
        r.outcome@ == why@,
        r.items@.len() == 0,
        opt_view(r.note) == Some("nothing was changed"@),
{
    note_entry(time, tx_id, "aborted", String::from_str(why), Some(String::from_str("nothing was changed")))
}

/// The journal line and the error when a swap fails; the swaps done so far are undone.
pub fn swap_failed(time: i64, tx_id: &str, name: &str, err: &str) -> (r: (JournalEntry, String))
    ensures
        r.0.time == time,
        r.0.tx_id@ == tx_id@,
        r.0.action@ == "aborted"@,
        r.0.outcome@ == "swap failed for "@ + name@ + ": "@ + err@,
        r.0.items@.len() == 0,
        r.0.note is None,
        r.1@ == name@ + ": swap failed: "@ + err@ + " (rolled back)"@,
{
    let mut o: Vec<char> = Vec::new();
    push_str(&mut o, "swap failed for ");
    push_str(&mut o, name);
    push_str(&mut o, ": ");
    push_str(&mut o, err);
    let mut e: Vec<char> = Vec::new();
    push_str(&mut e, name);
    push_str(&mut e, ": swap failed: ");
    push_str(&mut e, err);
    push_str(&mut e, " (rolled back)");
    (note_entry(time, tx_id, "aborted", string_from_chars(o.as_slice()), None), string_from_chars(e.as_slice()))
}

/// The journal line of an applied transaction: an install or an update, with one item per
/// swapped plugin.
pub fn applied_entry(time: i64, tx_id: &str, plan_items: &Vec<PlanItem>, manifest: &Vec<ManifestItem>) -> (r: JournalEntry)
    ensures
        r.time == time,
        r.tx_id@ == tx_id@,
        r.action@ == (if forall|i: int| 0 <= i < plan_items@.len() ==> (#[trigger] plan_items@[i]).from is None { "install"@ } else { "update"@ }),
        r.outcome@ == "applied"@,
        r.note is None,
        r.items@.len() == manifest@.len(),
        forall|i: int| 0 <= i < manifest@.len() ==> crate::transaction::apply::applied_item_spec(#[trigger] r.items@[i], manifest@[i]),
{
    let action = crate::transaction::apply::tx_action(plan_items);
    let mut items: Vec<JournalItem> = Vec::new();
    let mut i: usize = 0;
    while i < manifest.len()
        invariant
            i <= manifest@.len(),
            items@.len() == i,
            forall|j: int| 0 <= j < i ==> crate::transaction::apply::applied_item_spec(#[trigger] items@[j], manifest@[j]),
        decreases manifest@.len() - i,
    {
        items.push(applied_item(&manifest[i]));
        i = i + 1;
    }
    JournalEntry {
        time,
        tx_id: String::from_str(tx_id),
        action: String::from_str(action),
        outcome: String::from_str("applied"),
        items,
        note: None,
    }
}

/// The journal line of a reverted transaction, one item per plugin put back.
pub fn reverted_entry(time: i64, tx_id: &str, manifest: &Vec<ManifestItem>) -> (r: JournalEntry)
    ensures
        r.time == time,
        r.tx_id@ == tx_id@,
        r.action@ == "revert"@,
        r.outcome@ == "reverted"@,
        r.note is None,
        r.items@.len() == manifest@.len(),
        forall|i: int| 0 <= i < manifest@.len() ==> crate::transaction::apply::reverted_item_spec(#[trigger] r.items@[i], manifest@[i]),
{
    let mut items: Vec<JournalItem> = Vec::new();
    let mut i: usize = 0;
    while i < manifest.len()
        invariant
            i <= manifest@.len(),
            items@.len() == i,
            forall|j: int| 0 <= j < i ==> crate::transaction::apply::reverted_item_spec(#[trigger] items@[j], manifest@[j]),
        decreases manifest@.len() - i,
    {
        items.push(reverted_item(&manifest[i]));
        i = i + 1;
    }
    JournalEntry {
        time,
        tx_id: String::from_str(tx_id),
        action: String::from_str("revert"),
        outcome: String::from_str("reverted"),
        items,
        note: None,
    }
}

/// A journal note: action, outcome and an optional note.
#[derive(Debug, Clone)]
pub struct TxNote {
    pub action: String,
    pub outcome: String,
    pub note: Option<String>,
}

/// The backup tool's progress line and label for the checkpoint before an update.
pub fn checkpoint_request(slug: &str, summary: &str) -> (r: (String, String))
    ensures
        r.0@ == "mcbackup checkpoint "@ + slug@,
        r.1@ == "before: "@ + summary@,
{
    (concat2("mcbackup checkpoint ", slug), concat2("before: ", summary))
}

/// What the checkpoint's outcome is noted as, and the error that stops the update when it
/// failed (nothing has changed then).
pub fn checkpoint_outcome(result: &Result<String, String>) -> (r: (TxNote, Option<String>))
    ensures
        r.0.action@ == "backup"@,
        match result {
            Ok(out) => r.0.outcome@ == "checkpoint before"@ && opt_view(r.0.note) == Some(out@) && r.1 is None,
            Err(e) => r.0.outcome@ == "checkpoint failed: "@ + e@ && r.0.note is None
                && opt_view(r.1) == Some("backup before update failed, nothing changed: "@ + e@),
        },
{
    match result {
        Ok(out) => (TxNote { action: String::from_str("backup"), outcome: String::from_str("checkpoint before"), note: Some(clone_string(out)) }, None),
        Err(e) => (
            TxNote { action: String::from_str("backup"), outcome: concat2("checkpoint failed: ", e.as_str()), note: None },
            Some(concat2("backup before update failed, nothing changed: ", e.as_str())),
        ),
    }
}

/// What the restart's outcome is noted as (`skipped` under the `never` policy), and the
/// error returned when it failed after the jars were swapped.
pub fn restart_outcome(restart: &RestartPolicy, result: &Result<(), String>) -> (r: (TxNote, Option<String>))
    ensures
        r.0.action@ == "restart"@,
        match result {
            Ok(_) => r.0.outcome@ == (if *restart == RestartPolicy::Never { "skipped"@ } else { "restarted"@ }) && r.0.note is None && r.1 is None,
            Err(e) => r.0.outcome@ == "failed: "@ + e@
                && opt_view(r.0.note) == Some("jars are in place; restart manually or revert"@)
                && opt_view(r.1) == Some("updated, but restart failed: "@ + e@),
        },
{
    match result {
        Ok(_) => {
            let never = match restart {
                RestartPolicy::Never => true,
                _ => false,
            };
            let outcome = if never { String::from_str("skipped") } else { String::from_str("restarted") };
            (TxNote { action: String::from_str("restart"), outcome, note: None }, None)
        },
        Err(e) => (
            TxNote {
                action: String::from_str("restart"),
                outcome: concat2("failed: ", e.as_str()),
                note: Some(String::from_str("jars are in place; restart manually or revert")),
            },
            Some(concat2("updated, but restart failed: ", e.as_str())),
        ),
    }
}

/// A snapshot after the update is taken when a backup tool is configured and the server
/// was restarted.
pub fn snapshot_wanted(has_backup: bool, restart: &RestartPolicy) -> (r: bool)
    ensures
        r == (has_backup && *restart != RestartPolicy::Never),
{
    let never = match restart {
        RestartPolicy::Never => true,
        _ => false,
    };
    has_backup && !never
}

/// The backup tool's progress line and label for the snapshot after an update.
pub fn snapshot_request(slug: &str, summary: &str) -> (r: (String, String))
    ensures
        r.0@ == "mcbackup backup "@ + slug@,
        r.1@ == "after: "@ + summary@,
{
    (concat2("mcbackup backup ", slug), concat2("after: ", summary))
}

/// What the snapshot's outcome is noted as; a failed snapshot does not fail the update.
pub fn snapshot_outcome(result: &Result<String, String>) -> (r: TxNote)
    ensures
        r.action@ == "backup"@,
        match result {
            Ok(out) => r.outcome@ == "snapshot after"@ && opt_view(r.note) == Some(out@),
            Err(e) => r.outcome@ == "snapshot after failed: "@ + e@ && r.note is None,
        },
{
    match result {
        Ok(out) => TxNote { action: String::from_str("backup"), outcome: String::from_str("snapshot after"), note: Some(clone_string(out)) },
        Err(e) => TxNote { action: String::from_str("backup"), outcome: concat2("snapshot after failed: ", e.as_str()), note: None },
    }
}

} // verus!
