//! The command line of qlib_data: its commands, and which day a command has
//! the local store updated for.

use vstd::prelude::*;

verus! {

/// qlib_data updates the data qlib works on.
#[derive(Debug)]
pub struct Opts {
    pub updatecmd: UpdateCommand,
}

/// The update commands; for now the current day's data can be updated.
#[derive(Debug)]
pub enum UpdateCommand {
    UpdateToday(UpdateToday),
    UpdateDay(UpdateDay),
}

/// Update today's stock data.
#[derive(Debug)]
pub struct UpdateToday {
    /// A y-m-d date; the system's current date by default.
    pub date: Option<String>,
}

/// Update the stock data of a given day.
#[derive(Debug)]
pub struct UpdateDay {
    /// A y-m-d date; the system's current date by default.
    pub date: Option<String>,
}

/// Which day the store is updated for.
#[derive(Debug, PartialEq, Eq)]
pub enum UpdateTarget {
    /// The current day, by the system clock.
    Today,
    /// The given day; its realtime quotes must have been fetched already.
    Day(String),
}

/// The date a command's argument names: the given y-m-d date, or the
/// current day when none is given.
pub open spec fn target_of(date: Option<String>, res: UpdateTarget) -> bool {
    match date {
        Some(d) => res matches UpdateTarget::Day(x) && x@ == d@,
        None => res == UpdateTarget::Today,
    }
}

/// The day a command updates: the date it is given, defaulting to the
/// system's current date. Update-today and update-day differ only in that
/// a given day's realtime quotes must already be cached.
pub fn update_target(cmd: &UpdateCommand) -> (res: UpdateTarget)
    ensures
        match cmd {
            UpdateCommand::UpdateToday(args) => target_of(args.date, res),
            UpdateCommand::UpdateDay(args) => target_of(args.date, res),
        },
{
    let date = match cmd {
        UpdateCommand::UpdateToday(args) => &args.date,
        UpdateCommand::UpdateDay(args) => &args.date,
    };
    match date {
        Some(d) => UpdateTarget::Day(d.clone()),
        None => UpdateTarget::Today,
    }
}

} // verus!
