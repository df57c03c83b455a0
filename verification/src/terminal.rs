//! What an interactive session asks of the operator's terminal.

use vstd::prelude::*;

use crate::error::{invalid_run, run_fault, RuntimeError};

verus! {

/// Rows of a terminal that reports none.
pub const DEFAULT_ROWS: u16 = 24;

/// Columns of a terminal that reports none.
pub const DEFAULT_COLUMNS: u16 = 80;

/// A terminal that reports nothing still has to be given a usable size, or the
/// guest starts with a zero-sized window and draws nothing.
pub fn usable_size(rows: u16, columns: u16) -> (size: (u16, u16))
    ensures
        size.0 == if rows == 0 {
            DEFAULT_ROWS
        } else {
            rows
        },
        size.1 == if columns == 0 {
            DEFAULT_COLUMNS
        } else {
            columns
        },
{
    let rows: u16 = if rows == 0 {
        DEFAULT_ROWS
    } else {
        rows
    };
    let columns: u16 = if columns == 0 {
        DEFAULT_COLUMNS
    } else {
        columns
    };
    (rows, columns)
}

/// Both directions must be a terminal: without a terminal on input there is
/// nothing to put in raw mode, and without one on output the guest would be
/// drawing to something that cannot show it.
pub fn require_terminals(stdin: bool, stdout: bool) -> (checked: Result<(), RuntimeError>)
    ensures
        run_fault(checked) == if !stdin {
            Some(invalid_run("terminal"@, "stdin is not a terminal"@))
        } else if !stdout {
            Some(invalid_run("terminal"@, "stdout is not a terminal"@))
        } else {
            None
        },
{
    if !stdin {
        return Err(RuntimeError::invalid("terminal", "stdin is not a terminal"));
    }
    if !stdout {
        return Err(RuntimeError::invalid("terminal", "stdout is not a terminal"));
    }
    Ok(())
}

/// Settings that are put back once, however often that is asked for.
#[derive(Debug)]
pub struct RestoreOnce {
    restored: bool,
}

impl RestoreOnce {
    pub closed spec fn is_restored(self) -> bool {
        self.restored
    }

    pub fn new() -> (once: RestoreOnce)
        ensures
            !once.is_restored(),
    {
        RestoreOnce { restored: false }
    }

    /// Whether the caller has to restore the settings now.
    pub fn take(&mut self) -> (restore: bool)
        ensures
            restore == !old(self).is_restored(),
            final(self).is_restored(),
    {
        let restore = !self.restored;
        self.restored = true;
        restore
    }
}

/// A usable size is never empty, keeps what the terminal says, and is 24 rows of
/// 80 columns where the terminal says nothing.
pub proof fn law_usable_size_is_never_empty(rows: u16, columns: u16, size: (u16, u16))
    requires
        call_ensures(usable_size, (rows, columns), size),
    ensures
        size.0 > 0 && size.1 > 0,
        rows > 0 ==> size.0 == rows,
        columns > 0 ==> size.1 == columns,
        rows == 0 ==> size.0 == 24,
        columns == 0 ==> size.1 == 80,
{
}

/// Both ends must be terminals.
pub proof fn law_both_ends_are_terminals(
    stdin: bool,
    stdout: bool,
    checked: Result<(), RuntimeError>,
)
    requires
        call_ensures(require_terminals, (stdin, stdout), checked),
    ensures
        checked is Ok <==> stdin && stdout,
{
}

/// The terminal is restored the first time and not again.
pub proof fn law_terminal_is_restored_once(once: &mut RestoreOnce, restore: bool, again: RestoreOnce)
    requires
        call_ensures(RestoreOnce::take, (once,), restore),
        call_ensures(RestoreOnce::new, (), again),
    ensures
        restore == !old(once).is_restored(),
        final(once).is_restored(),
        !again.is_restored(),
{
}

} // verus!
