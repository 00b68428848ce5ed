//! Duplicate detection for the packages of one sender.

use crate::package::SlowPackage;
use crate::tracker::{PacketTracker, UpdateResult};
use vstd::prelude::*;

verus! {

/// A `PacketTracker` fed with the ids of packages.
pub struct SlowPackageTracker {
    packet_tracker: PacketTracker,
}

impl View for SlowPackageTracker {
    type V = PacketTracker;

    closed spec fn view(&self) -> PacketTracker {
        self.packet_tracker
    }
}

impl SlowPackageTracker {
    /// A tracker that has seen no package.
    pub fn new() -> (t: SlowPackageTracker)
        ensures
            t@ == PacketTracker::fresh(),
    {
        SlowPackageTracker { packet_tracker: PacketTracker::new() }
    }

    /// Offers the id of `package`, as `PacketTracker::update` does.
    pub fn update(&mut self, package: &SlowPackage) -> (r: UpdateResult)
        ensures
            r == old(self)@.verdict(package@.package_id as u64),
            final(self)@ == old(self)@.after(package@.package_id as u64),
    {
        self.packet_tracker.update(package.package_id() as u64)
    }

    /// The highest package id admitted so far.
    pub fn highest_package_id(&self) -> (r: u64)
        ensures
            r == self@.highest(),
    {
        self.packet_tracker.highest_packet_id()
    }

    /// The bitfield of package ids seen at and below the highest.
    pub fn package_bitfield(&self) -> (r: u64)
        ensures
            r == self@.bitfield(),
    {
        self.packet_tracker.packet_bitfield()
    }
}

impl Default for SlowPackageTracker {
    fn default() -> (t: SlowPackageTracker)
        ensures
            t@ == PacketTracker::fresh(),
    {
        SlowPackageTracker::new()
    }
}

} // verus!
