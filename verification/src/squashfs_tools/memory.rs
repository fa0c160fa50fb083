use vstd::prelude::*;
use crate::error::SquashError;
use crate::text::{concat, i64_to_decimal, push_str, signed_decimal};

verus! {

/// Three quarters of `mem` megabytes, as `mem/2 + mem/4` gives it.
pub open spec fn usable_memory(mem: i64) -> i64 {
    (mem / 2 + mem / 4) as i64
}

/// The message for a request above three quarters of physical memory.
pub open spec fn too_much_memory_message(total_mem: i64, max_mem: i64, name: Seq<char>) -> Seq<char> {
    "Total memory requested ("@ + signed_decimal(total_mem as int) + "MB) is more than 75% of physical memory ("@
        + signed_decimal(max_mem as int) + "MB).\n"@ + name
        + " uses memory to cache data from disk to optimise performance.\nIt is pointless to ask it to use more than this amount of memory, as this\ncauses thrashing and it is thus self-defeating."@
}

/// Whether `r` is the error `MemoryError` with message `m`.
pub open spec fn is_memory_error(r: Result<(), SquashError>, m: Seq<char>) -> bool {
    r matches Err(SquashError::MemoryError(s)) && s@ == m
}

/// Check that `total_mem` megabytes can be used on a machine with
/// `phys_mem` megabytes of physical memory (0 where it could not be read):
/// no more than three quarters of it, and no more than 2048 on a 32-bit
/// machine.
pub fn check_usable_phys_mem(total_mem: i64, name: &str, phys_mem: i64) -> (r: Result<(), SquashError>)
    requires
        phys_mem >= 0,
    ensures
        phys_mem == 0 ==> is_memory_error(r, "Failed to get available system memory"@),
        phys_mem != 0 && total_mem > usable_memory(phys_mem) ==> is_memory_error(
            r,
            too_much_memory_message(total_mem, usable_memory(phys_mem), name@),
        ),
        phys_mem != 0 && total_mem <= usable_memory(phys_mem) && usize::BITS == 32 && total_mem
            > 2048 ==> is_memory_error(
            r,
            "Total memory requested may exceed maximum addressable memory by this process.\nOn 32-bit systems, processes are limited to 2-3GB of addressable memory."@,
        ),
        phys_mem != 0 && total_mem <= usable_memory(phys_mem) && !(usize::BITS == 32 && total_mem
            > 2048) ==> r is Ok,
{
    let mem = phys_mem;
    if mem == 0 {
        return Err(SquashError::MemoryError(String::from_str("Failed to get available system memory")));
    }
    let max_mem = mem / 2 + mem / 4;
    if total_mem > max_mem {
        let mut m = String::from_str("Total memory requested (");
        let t = i64_to_decimal(total_mem);
        push_str(&mut m, t.as_str());
        push_str(&mut m, "MB) is more than 75% of physical memory (");
        let x = i64_to_decimal(max_mem);
        push_str(&mut m, x.as_str());
        push_str(&mut m, "MB).\n");
        push_str(&mut m, name);
        push_str(
            &mut m,
            " uses memory to cache data from disk to optimise performance.\nIt is pointless to ask it to use more than this amount of memory, as this\ncauses thrashing and it is thus self-defeating.",
        );
        return Err(SquashError::MemoryError(m));
    }
    if usize::BITS == 32 && total_mem > 2048 {
        return Err(
            SquashError::MemoryError(
                String::from_str(
                    "Total memory requested may exceed maximum addressable memory by this process.\nOn 32-bit systems, processes are limited to 2-3GB of addressable memory.",
                ),
            ),
        );
    }
    Ok(())
}

} // verus!
