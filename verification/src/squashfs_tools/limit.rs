use vstd::prelude::*;

verus! {

/// File descriptors left free for the system.
pub const OPEN_FILE_MARGIN: i32 = 10;

/// The number of files that may be opened, from what `getrlimit` reported
/// for open files: 1 where the call failed or the limit leaves no margin,
/// -1 where there is no limit, and otherwise the limit less the margin,
/// cut to 32 bits.
pub fn file_limit_from(call_failed: bool, rlim_cur: u64, unlimited: bool) -> (r: i32)
    ensures
        call_failed ==> r == 1,
        !call_failed && unlimited ==> r == -1,
        !call_failed && !unlimited && rlim_cur <= 10 ==> r == 1,
        !call_failed && !unlimited && rlim_cur > 10 ==> r == (rlim_cur - 10) as i32,
{
    if call_failed {
        1
    } else if !unlimited {
        if rlim_cur <= OPEN_FILE_MARGIN as u64 {
            1
        } else {
            #[verifier::truncate] ((rlim_cur - OPEN_FILE_MARGIN as u64) as i32)
        }
    } else {
        -1
    }
}

} // verus!
