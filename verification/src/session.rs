//! Decisions of the interactive session loop: when the status line clears,
//! when provider status is fetched again, which fetch results are kept, and
//! the status texts shown after user actions.
//!
//! The loop itself (drawing, input, timers, background tasks) runs outside
//! the library and hands these functions plain values.

use vstd::prelude::*;
use crate::benchmarks::app::BottomView;
use crate::formatting::{decimal, push_decimal};
use crate::text::{push_str, string_from_chars};

verus! {

/// How long a status message stays up, in nanoseconds.
pub const STATUS_TTL_NANOS: u64 = 2_000_000_000;

/// Age after which provider status data is refetched, in nanoseconds.
pub const STATUS_STALE_NANOS: u64 = 60_000_000_000;

/// A status message shown `elapsed_nanos` ago is cleared.
pub fn status_expired(elapsed_nanos: u64) -> (r: bool)
    ensures
        r == (elapsed_nanos > STATUS_TTL_NANOS),
{
    elapsed_nanos > STATUS_TTL_NANOS
}

/// Provider status is fetched when forced, or when the last fetch is stale
/// (none yet, or older than a minute) and not recent (under two seconds).
pub open spec fn spec_should_fetch_status(force: bool, since_last_fetch: Option<u64>) -> bool {
    let stale = match since_last_fetch {
        None => true,
        Some(e) => e > STATUS_STALE_NANOS,
    };
    let recent = match since_last_fetch {
        Some(e) => e < STATUS_TTL_NANOS,
        None => false,
    };
    force || (stale && !recent)
}

/// Should provider status be fetched now? `since_last_fetch` is the age of
/// the last fetch in nanoseconds, if there was one.
pub fn should_fetch_status(force: bool, since_last_fetch: Option<u64>) -> (r: bool)
    ensures
        r == spec_should_fetch_status(force, since_last_fetch),
{
    let stale = match since_last_fetch {
        None => true,
        Some(e) => e > STATUS_STALE_NANOS,
    };
    let recent = match since_last_fetch {
        Some(e) => e < STATUS_TTL_NANOS,
        None => false,
    };
    force || (stale && !recent)
}

/// Unless forced, status is never fetched again within a minute of the
/// last fetch.
pub proof fn lemma_no_refetch_within_a_minute(since_last_fetch: u64)
    requires
        since_last_fetch <= STATUS_STALE_NANOS,
    ensures
        !spec_should_fetch_status(false, Some(since_last_fetch)),
{
}

/// A status fetch result is kept only if it is from the latest fetch (or a
/// later one): results of superseded fetches are dropped.
pub fn accept_status_result(generation: u64, latest: u64) -> (r: bool)
    ensures
        r == (generation >= latest),
{
    generation >= latest
}

/// `prefix`, then `name`, then ` (count/max)`.
pub open spec fn counted(prefix: Seq<char>, name: Seq<char>, count: nat, max: nat) -> Seq<char> {
    prefix + name + " ("@ + decimal(count) + "/"@ + decimal(max) + ")"@
}

/// The status after toggling the selection of model `name` when `selected`
/// models are chosen (at most `max`): removed, added, or nothing when the
/// selection is full.
pub open spec fn spec_selection_status(name: Seq<char>, already: bool, selected: nat, max: nat) -> Option<Seq<char>> {
    if already {
        Some(counted("Removed "@, name, (selected - 1) as nat, max))
    } else if selected < max {
        Some(counted("Added "@, name, selected + 1, max))
    } else {
        None
    }
}

fn counted_exec(prefix: &str, name: &str, count: u64, max: u64) -> (r: String)
    ensures
        r@ == counted(prefix@, name@, count as nat, max as nat),
{
    let mut v: Vec<char> = Vec::new();
    push_str(&mut v, prefix);
    push_str(&mut v, name);
    push_str(&mut v, " (");
    push_decimal(&mut v, count);
    push_str(&mut v, "/");
    push_decimal(&mut v, max);
    push_str(&mut v, ")");
    assert(v@ =~= counted(prefix@, name@, count as nat, max as nat));
    string_from_chars(&v)
}

/// Status text after toggling a model's comparison selection.
pub fn selection_status(name: &str, already: bool, selected: u64, max: u64) -> (r: Option<String>)
    requires
        already ==> selected > 0,
    ensures
        match (r, spec_selection_status(name@, already, selected as nat, max as nat)) {
            (Some(s), Some(t)) => s@ == t,
            (None, None) => true,
            _ => false,
        },
{
    if already {
        Some(counted_exec("Removed ", name, selected - 1, max))
    } else if selected < max {
        Some(counted_exec("Added ", name, selected + 1, max))
    } else {
        None
    }
}

/// Status text after clearing `count` selections: none when there were
/// none, and "selection" in the singular for one.
pub open spec fn spec_cleared_status(count: nat) -> Option<Seq<char>> {
    if count == 0 {
        None
    } else if count == 1 {
        Some("Cleared "@ + decimal(count) + " selection"@)
    } else {
        Some("Cleared "@ + decimal(count) + " selection"@ + "s"@)
    }
}

/// Status text after clearing the comparison selections.
pub fn cleared_status(count: u64) -> (r: Option<String>)
    ensures
        match (r, spec_cleared_status(count as nat)) {
            (Some(s), Some(t)) => s@ == t,
            (None, None) => true,
            _ => false,
        },
{
    if count == 0 {
        return None;
    }
    let mut v: Vec<char> = Vec::new();
    push_str(&mut v, "Cleared ");
    push_decimal(&mut v, count);
    push_str(&mut v, " selection");
    if count != 1 {
        push_str(&mut v, "s");
    }
    Some(string_from_chars(&v))
}

/// The name of the comparison view that follows `v` when cycling.
pub open spec fn spec_next_view_label(v: BottomView) -> Seq<char> {
    match v {
        BottomView::H2H => "Scatter"@,
        BottomView::Scatter => "Radar"@,
        BottomView::Radar => "H2H"@,
        BottomView::Detail => "H2H"@,
    }
}

/// Status text announcing the view that cycling from `v` shows next.
pub fn view_status(v: BottomView) -> (r: String)
    ensures
        r@ == "View: "@ + spec_next_view_label(v),
{
    let label = match v {
        BottomView::H2H => "Scatter",
        BottomView::Scatter => "Radar",
        BottomView::Radar => "H2H",
        BottomView::Detail => "H2H",
    };
    prefixed("View: ", label)
}

/// `prefix` followed by `text`.
pub fn prefixed(prefix: &str, text: &str) -> (r: String)
    ensures
        r@ == prefix@ + text@,
{
    let mut v: Vec<char> = Vec::new();
    push_str(&mut v, prefix);
    push_str(&mut v, text);
    assert(v@ =~= prefix@ + text@);
    string_from_chars(&v)
}

/// Status text after copying `text` to the clipboard.
pub fn copied_status(text: &str) -> (r: String)
    ensures
        r@ == "Copied: "@ + text@,
{
    prefixed("Copied: ", text)
}

/// Status text after opening `url` in the browser.
pub fn opened_status(url: &str) -> (r: String)
    ensures
        r@ == "Opened: "@ + url@,
{
    prefixed("Opened: ", url)
}

/// The GitHub page of repository `repo` (`owner/name`).
pub fn repo_url(repo: &str) -> (r: String)
    ensures
        r@ == "https://github.com/"@ + repo@,
{
    prefixed("https://github.com/", repo)
}

/// Status text when an agent's self-update finishes.
pub fn update_finished_status(name: &str, success: bool) -> (r: String)
    ensures
        r@ == name@ + if success { " updated"@ } else { " update failed \u{2014} see detail panel"@ },
{
    let mut v: Vec<char> = Vec::new();
    push_str(&mut v, name);
    if success {
        push_str(&mut v, " updated");
    } else {
        push_str(&mut v, " update failed \u{2014} see detail panel");
    }
    string_from_chars(&v)
}

} // verus!
