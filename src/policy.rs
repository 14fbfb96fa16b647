//! How a playback request that spans several devices ends.

use vstd::prelude::*;
use crate::error::AudioError;

verus! {

/// Whether the next device of a request is started, given the outcomes of
/// the starts made so far: devices are started in order and the first
/// failure ends the request, so later devices are not tried.
pub fn should_start_next(outcomes: &Vec<Result<(), AudioError>>) -> (r: bool)
    ensures
        r <==> forall|i: int| 0 <= i < outcomes@.len() ==> (#[trigger] outcomes@[i]) is Ok,
{
    let mut i: usize = 0;
    while i < outcomes.len()
        invariant
            i <= outcomes@.len(),
            forall|j: int| 0 <= j < i ==> (#[trigger] outcomes@[j]) is Ok,
        decreases outcomes@.len() - i,
    {
        if outcomes[i].is_err() {
            return false;
        }
        i = i + 1;
    }
    true
}

/// The result of a request from the outcomes of the device starts made for
/// it, in order: `Ok` when every start succeeded, else the error of the first
/// one that failed. Devices started before that failure keep playing: no
/// start is undone.
pub fn request_result(outcomes: &Vec<Result<(), AudioError>>) -> (r: Result<(), AudioError>)
    ensures
        r is Ok <==> forall|i: int| 0 <= i < outcomes@.len() ==> (#[trigger] outcomes@[i]) is Ok,
        r is Err ==> exists|i: int|
            0 <= i < outcomes@.len() && (#[trigger] outcomes@[i]) == r && forall|j: int|
                0 <= j < i ==> (#[trigger] outcomes@[j]) is Ok,
{
    let mut i: usize = 0;
    while i < outcomes.len()
        invariant
            i <= outcomes@.len(),
            forall|j: int| 0 <= j < i ==> (#[trigger] outcomes@[j]) is Ok,
        decreases outcomes@.len() - i,
    {
        match outcomes[i] {
            Ok(()) => {},
            Err(e) => {
                return Err(e);
            },
        }
        i = i + 1;
    }
    Ok(())
}

} // verus!
