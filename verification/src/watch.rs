//! The decision at the heart of the watch-and-rebuild loop. The loop itself
//! blocks on a stream of file-system events; each event, and how long ago the
//! previous rebuild completed, are handed in here, and this says whether a
//! rebuild runs.

use vstd::prelude::*;

verus! {

/// Whether an observed file-system event triggers a rebuild: only a
/// write-type event does, and one that lands within the same wall-clock
/// second as the previous rebuild's completion is rejected, so that the
/// flurry of writes a build itself can stir up does not start another build
/// at once.
pub open spec fn spec_should_rebuild(
    is_write_event: bool,
    seconds_since_last_build: int,
) -> bool {
    is_write_event && seconds_since_last_build != 0
}

/// Decides whether an observed file-system event triggers a rebuild.
pub fn should_rebuild(is_write_event: bool, seconds_since_last_build: i64) -> (r: bool)
    ensures
        r == spec_should_rebuild(is_write_event, seconds_since_last_build as int),
{
    is_write_event && seconds_since_last_build != 0
}

} // verus!
