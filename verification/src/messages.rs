//! The lines that `add`, `remove`, `update` and `kill` print about an app.
use vstd::prelude::*;

use crate::cli::{app_label, app_label_text};
use crate::text::{decimal, push_char, push_decimal, push_signed_decimal, signed_decimal};

verus! {

pub const ADDED: &'static str = "Added #";
pub const ON_PORT: &'static str = " on :";
pub const REMOVED: &'static str = "Removed ";
pub const PORT_OPEN: &'static str = " (port ";
pub const UPDATED: &'static str = "Updated ";
pub const NOTHING_ON: &'static str = "Nothing running on :";
pub const KILLED: &'static str = "Killed ";
pub const FORCE_KILLED: &'static str = "Force killed ";

/// How a kill attempt on a port ended, apart from an error.
#[derive(Debug, Clone, Copy, PartialEq, Eq, Structural)]
pub enum KillOutcome {
    /// Nothing listened on the port.
    NotFound,
    /// The listening process stopped on request.
    Killed,
    /// The listening process had to be killed by force.
    ForceKilled,
}

/// ` on :port [category]`, the tail of the `add` and `update` reports.
pub open spec fn port_and_category(port: i64, category: Seq<char>) -> Seq<char> {
    ON_PORT@ + signed_decimal(port as int) + seq![' ', '['] + category + seq![']']
}

/// `Added #id: label on :port [category]`.
pub open spec fn added_text(id: i64, name: Seq<char>, port: i64, category: Seq<char>) -> Seq<char> {
    ADDED@ + signed_decimal(id as int) + seq![':', ' '] + app_label_text(name, port) + port_and_category(
        port,
        category,
    )
}

/// `Removed label (port port)`.
pub open spec fn removed_text(name: Seq<char>, port: i64) -> Seq<char> {
    REMOVED@ + app_label_text(name, port) + PORT_OPEN@ + signed_decimal(port as int) + seq![')']
}

/// `Updated label on :port [category]`.
pub open spec fn updated_text(name: Seq<char>, port: i64, category: Seq<char>) -> Seq<char> {
    UPDATED@ + app_label_text(name, port) + port_and_category(port, category)
}

/// How `kill` names its target: the app's name, or `:port` when there is no
/// app or the app has no name.
pub open spec fn kill_label_text(name: Option<Seq<char>>, port: u16) -> Seq<char> {
    match name {
        Some(n) => app_label_text(n, port as i64),
        None => seq![':'] + decimal(port as nat),
    }
}

/// What `kill` reports for each outcome.
pub open spec fn kill_text(outcome: KillOutcome, name: Option<Seq<char>>, port: u16) -> Seq<char> {
    match outcome {
        KillOutcome::NotFound => NOTHING_ON@ + decimal(port as nat),
        KillOutcome::Killed => KILLED@ + kill_label_text(name, port) + PORT_OPEN@ + decimal(port as nat) + seq![')'],
        KillOutcome::ForceKilled => FORCE_KILLED@ + kill_label_text(name, port) + PORT_OPEN@ + decimal(
            port as nat,
        ) + seq![')'],
    }
}

fn push_port_and_category(out: &mut String, port: i64, category: &str)
    ensures
        final(out)@ == old(out)@ + port_and_category(port, category@),
{
    out.append(ON_PORT);
    push_signed_decimal(out, port);
    push_char(out, ' ');
    push_char(out, '[');
    out.append(category);
    push_char(out, ']');
    assert(final(out)@ =~= old(out)@ + port_and_category(port, category@));
}

/// The report of `add` for the app it created.
pub fn added_report(id: i64, name: &str, port: i64, category: &str) -> (out: String)
    ensures
        out@ == added_text(id, name@, port, category@),
{
    let mut out = String::new();
    out.append(ADDED);
    push_signed_decimal(&mut out, id);
    push_char(&mut out, ':');
    push_char(&mut out, ' ');
    let label = app_label(name, port);
    out.append(label.as_str());
    push_port_and_category(&mut out, port, category);
    assert(out@ =~= added_text(id, name@, port, category@));
    out
}

/// The report of `remove` for the app it deleted.
pub fn removed_report(name: &str, port: i64) -> (out: String)
    ensures
        out@ == removed_text(name@, port),
{
    let mut out = String::new();
    out.append(REMOVED);
    let label = app_label(name, port);
    out.append(label.as_str());
    out.append(PORT_OPEN);
    push_signed_decimal(&mut out, port);
    push_char(&mut out, ')');
    assert(out@ =~= removed_text(name@, port));
    out
}

/// The report of `update` for the app as it now is.
pub fn updated_report(name: &str, port: i64, category: &str) -> (out: String)
    ensures
        out@ == updated_text(name@, port, category@),
{
    let mut out = String::new();
    out.append(UPDATED);
    let label = app_label(name, port);
    out.append(label.as_str());
    push_port_and_category(&mut out, port, category);
    assert(out@ =~= updated_text(name@, port, category@));
    out
}

fn push_kill_label(out: &mut String, name: Option<&str>, port: u16)
    ensures
        final(out)@ == old(out)@ + kill_label_text(
            match name {
                Some(n) => Some(n@),
                None => None,
            },
            port,
        ),
{
    match name {
        Some(n) => {
            let label = app_label(n, port as i64);
            out.append(label.as_str());
        },
        None => {
            push_char(out, ':');
            push_decimal(out, port as u64);
            assert(final(out)@ =~= old(out)@ + (seq![':'] + decimal(port as nat)));
        },
    }
}

/// The report of `kill` on `port`, for the app resolved from the target, if any.
pub fn kill_report(outcome: KillOutcome, name: Option<&str>, port: u16) -> (out: String)
    ensures
        out@ == kill_text(
            outcome,
            match name {
                Some(n) => Some(n@),
                None => None,
            },
            port,
        ),
{
    let mut out = String::new();
    match outcome {
        KillOutcome::NotFound => {
            out.append(NOTHING_ON);
            push_decimal(&mut out, port as u64);
        },
        KillOutcome::Killed | KillOutcome::ForceKilled => {
            if outcome == KillOutcome::Killed {
                out.append(KILLED);
            } else {
                out.append(FORCE_KILLED);
            }
            push_kill_label(&mut out, name, port);
            out.append(PORT_OPEN);
            push_decimal(&mut out, port as u64);
            push_char(&mut out, ')');
        },
    }
    out
}

} // verus!
