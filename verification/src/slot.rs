//! The publish slot: at most one build is in flight at a time, and one
//! published artifact is readable at a time.
//!
//! A caller that wants to build first claims the slot; a claim while a
//! build is in flight fails immediately with the contention code rather
//! than blocking -- that failure is the backpressure signal.  Completing
//! a build replaces the published artifact in one step; abandoning a
//! build releases the claim and leaves the previous artifact in place.
//! The slot is a value with single-owner mutation; a host that shares it
//! across threads wraps it in its own lock.
use vstd::prelude::*;

use crate::error::ErrorCode;

verus! {

/// The slot: whether a build is in flight, and the artifact last
/// published.
pub struct PublishSlot {
    pub building: bool,
    pub artifact: Vec<u8>,
}

impl PublishSlot {
    /// A fresh slot: idle, with an empty artifact.
    pub fn new() -> (r: PublishSlot)
        ensures
            !r.building,
            r.artifact@ == Seq::<u8>::empty(),
    {
        PublishSlot { building: false, artifact: Vec::new() }
    }

    /// Claims the slot for one build.  Fails with the contention code,
    /// changing nothing, exactly when a build is already in flight.
    pub fn try_begin_build(&mut self) -> (r: Result<(), ErrorCode>)
        ensures
            r is Ok <==> !old(self).building,
            r is Err ==> r->Err_0 == ErrorCode::Mutex && *final(self) == *old(self),
            r is Ok ==> final(self).building && final(self).artifact == old(self).artifact,
    {
        if self.building {
            Err(ErrorCode::Mutex)
        } else {
            self.building = true;
            Ok(())
        }
    }

    /// Completes the build in flight: publishes the new artifact in one
    /// step and releases the claim.
    pub fn publish(&mut self, artifact: Vec<u8>)
        requires
            old(self).building,
        ensures
            !final(self).building,
            final(self).artifact == artifact,
    {
        self.artifact = artifact;
        self.building = false;
    }

    /// Abandons the build in flight: releases the claim and leaves the
    /// previously published artifact in place.
    pub fn abort_build(&mut self)
        requires
            old(self).building,
        ensures
            !final(self).building,
            final(self).artifact == old(self).artifact,
    {
        self.building = false;
    }

    /// The published artifact's length in bytes.
    pub fn model_size(&self) -> (r: usize)
        ensures
            r == self.artifact@.len(),
    {
        self.artifact.len()
    }

    /// The published artifact's bytes.
    pub fn model_bytes(&self) -> (r: &Vec<u8>)
        ensures
            r@ == self.artifact@,
    {
        &self.artifact
    }

    /// Empties the published artifact.  Fails with the contention value,
    /// changing nothing, exactly when a build is in flight.
    pub fn clear_gltf(&mut self) -> (r: Result<(), i32>)
        ensures
            r is Ok <==> !old(self).building,
            r is Err ==> r->Err_0 == 1 && *final(self) == *old(self),
            r is Ok ==> !final(self).building && final(self).artifact@ == Seq::<u8>::empty(),
    {
        if self.building {
            Err(1)
        } else {
            self.artifact = Vec::new();
            Ok(())
        }
    }
}

} // verus!
