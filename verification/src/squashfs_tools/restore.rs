use vstd::prelude::*;

verus! {

/// The interrupt signal.
pub const SIGINT: i32 = 2;
/// The termination signal.
pub const SIGTERM: i32 = 15;
/// The first user signal.
pub const SIGUSR1: i32 = 10;

/// What to do on a signal while a file system is being appended to.
#[derive(Debug, PartialEq, Eq, Structural)]
pub enum RestoreStep {
    /// Warn that interrupting again restores the original file system.
    Warn,
    /// Stop all work and restore the original file system.
    Restore,
}

/// The warning given on the first interrupt.
pub open spec fn restore_warning() -> Seq<char> {
    "Interrupting will restore original filesystem!\n"@ + "Interrupt again to quit\n"@
}

/// The lines of the warning given on the first interrupt.
pub fn restore_warning_text() -> (r: String)
    ensures
        r@ == restore_warning(),
{
    let mut s = String::from_str("Interrupting will restore original filesystem!\n");
    crate::text::push_str(&mut s, "Interrupt again to quit\n");
    s
}

/// What to do on signal `sig`, where `interrupted` says whether an
/// interrupt came before: a first SIGINT or SIGTERM only warns and is
/// remembered; any other signal, or a second interrupt, restores.
pub fn on_restore_signal(interrupted: &mut bool, sig: i32) -> (r: RestoreStep)
    ensures
        (sig == SIGINT || sig == SIGTERM) && !*old(interrupted) ==> r == RestoreStep::Warn
            && *final(interrupted),
        !((sig == SIGINT || sig == SIGTERM) && !*old(interrupted)) ==> r == RestoreStep::Restore
            && *final(interrupted) == *old(interrupted),
{
    if (sig == SIGINT || sig == SIGTERM) && !*interrupted {
        *interrupted = true;
        RestoreStep::Warn
    } else {
        RestoreStep::Restore
    }
}

} // verus!
