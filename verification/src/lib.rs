//! Provisioning of short-lived machines across cloud providers.
//!
//! The crate holds the decisions of a provisioning run: how named machine
//! descriptors are grouped into per-region batches, how capacity requests are
//! batched and tracked, when a request or an instance counts as ready, when a
//! deadline has passed, and what has to be released at teardown. Network and
//! process calls are made by the caller, who hands their results back.
use crate::error::Error;
use crate::providers::{
    contains_nickname, has_nickname, is_duplicate_error, spawn, unique_nicknames, Launcher,
};
use vstd::prelude::*;
use vstd::string::*;

pub mod error;
pub mod providers;
pub mod text;

verus! {

/// Where a machine of a running tsunami can be reached.
#[derive(Debug, Clone)]
pub struct Machine {
    /// The nickname the machine was registered under.
    pub nickname: String,
    /// The public DNS name.
    pub public_dns: String,
    /// The public IP address.
    pub public_ip: String,
}

/// Use this to prepare and execute a new tsunami: `add` machines to it, then
/// `spawn` them into a launcher.
#[must_use]
#[derive(Debug, Clone)]
pub struct TsunamiBuilder<L: Launcher> {
    /// The machines registered so far, each under its nickname.
    pub descriptors: Vec<(String, L::MachineDescriptor)>,
    /// How long a launch may take, in milliseconds; `None` is no limit.
    pub max_wait: Option<u64>,
}

impl<L: Launcher> Default for TsunamiBuilder<L> {
    /// A builder with no machine and no time limit.
    fn default() -> (b: Self)
        ensures
            b.descriptors@.len() == 0,
            b.max_wait is None,
            b.wf(),
    {
        TsunamiBuilder { descriptors: Vec::new(), max_wait: None }
    }
}

impl<L: Launcher> TsunamiBuilder<L> {
    /// No nickname is registered twice.
    pub open spec fn wf(&self) -> bool {
        unique_nicknames(self.descriptors@)
    }

    /// Registers a machine descriptor under `nickname`. A nickname can be
    /// used once: a second registration under it fails, and leaves the first
    /// as it was.
    pub fn add(&mut self, nickname: &str, m: L::MachineDescriptor) -> (r: Result<(), Error>)
        ensures
            final(self).max_wait == old(self).max_wait,
            old(self).wf() ==> final(self).wf(),
            has_nickname(old(self).descriptors@, nickname@) ==> (r matches Err(
                Error::DuplicateNickname { nickname: named },
            ) && named@ == nickname@ && final(self).descriptors == old(self).descriptors),
            !has_nickname(old(self).descriptors@, nickname@) ==> {
                &&& r is Ok
                &&& final(self).descriptors@.len() == old(self).descriptors@.len() + 1
                &&& final(self).descriptors@.drop_last() == old(self).descriptors@
                &&& final(self).descriptors@.last().0@ == nickname@
                &&& final(self).descriptors@.last().1 == m
            },
    {
        if contains_nickname(&self.descriptors, nickname) {
            Err(Error::DuplicateNickname { nickname: String::from_str(nickname) })
        } else {
            let ghost before = self.descriptors@;
            self.descriptors.push((String::from_str(nickname), m));
            assert(self.descriptors@.drop_last() == before);
            proof {
                if unique_nicknames(before) {
                    assert forall|j: int| 0 <= j < self.descriptors@.len() implies !crate::providers::repeats_at(
                        self.descriptors@,
                        j,
                    ) by {
                        assert forall|i: int| 0 <= i < j implies (#[trigger] self.descriptors@[i]).0@
                            != self.descriptors@[j].0@ by {
                            assert(before[i] == self.descriptors@[i]);
                            if j < before.len() {
                                assert(!crate::providers::repeats_at(before, j));
                                assert(before[j] == self.descriptors@[j]);
                            }
                        }
                    }
                }
            }
            Ok(())
        }
    }

    /// Limits how long to wait for machines to be available before giving
    /// up, in milliseconds. The limit covers both the wait for capacity and
    /// the wait for SSH connections. Without it there is no limit.
    pub fn timeout(&mut self, t: u64)
        ensures
            final(self).max_wait == Some(t),
            final(self).descriptors == old(self).descriptors,
    {
        self.max_wait = Some(t);
    }

    /// Starts up all the machines that were added, which are used up by
    /// this. See [`spawn`](crate::providers::spawn).
    pub fn spawn(&mut self, launcher: &mut L) -> (r: Result<(), Error>)
        ensures
            final(self).descriptors@.len() == 0,
            final(self).max_wait == old(self).max_wait,
            !unique_nicknames(old(self).descriptors@) ==> is_duplicate_error(
                old(self).descriptors@,
                r,
            ) && *final(launcher) == *old(launcher),
            old(self).descriptors@.len() == 0 ==> r is Ok && *final(launcher) == *old(launcher),
    {
        let mut descriptors: Vec<(String, L::MachineDescriptor)> = Vec::new();
        std::mem::swap(&mut self.descriptors, &mut descriptors);
        spawn(launcher, descriptors, self.max_wait)
    }
}

} // verus!
