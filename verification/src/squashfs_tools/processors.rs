use vstd::prelude::*;
use crate::error::SquashError;

verus! {

/// `num_cpus::get`: the number of processors this process may run on
/// (its scheduling affinity and control group taken into account), which
/// the crate documents to be at least 1.
#[verifier::external_body]
pub(crate) fn available_processors() -> (r: usize)
    ensures
        r >= 1,
{
    num_cpus::get()
}

/// The number of processors available to this process: at least one.
pub fn get_nprocessors() -> (r: Result<usize, SquashError>)
    ensures
        r matches Ok(n) && n >= 1,
{
    Ok(available_processors())
}

} // verus!
