//! Readiness events and deadlines.
use vstd::prelude::*;
use crate::clock::now_secs;

verus! {

/// What a descriptor became ready for.
#[derive(Debug, Clone, Copy, PartialEq, Eq, Structural)]
pub enum EventType {
    Read,
    Write,
    ReadWrite,
}

/// One readiness event: the descriptor, the readiness, and the token given at registration.
#[derive(Debug, Clone, Copy, PartialEq, Eq, Structural)]
pub struct Event {
    pub fd: i32,
    pub event_type: EventType,
    pub user_data: usize,
}

impl Event {
    pub fn new(fd: i32, event_type: EventType, user_data: usize) -> (r: Event)
        ensures
            r == (Event { fd, event_type, user_data }),
    {
        Event { fd, event_type, user_data }
    }

    pub fn readable(&self) -> (r: bool)
        ensures
            r == (self.event_type != EventType::Write),
    {
        match self.event_type {
            EventType::Write => false,
            _ => true,
        }
    }

    pub fn writable(&self) -> (r: bool)
        ensures
            r == (self.event_type != EventType::Read),
    {
        match self.event_type {
            EventType::Read => false,
            _ => true,
        }
    }
}

/// A deadline in whole seconds since the epoch.
#[derive(Debug, Clone, Copy, PartialEq, Eq, Structural)]
pub struct Timeout {
    pub deadline: u64,
}

impl Timeout {
    /// A deadline `timeout_secs` after `now` (saturating).
    pub fn new_at(timeout_secs: u64, now: u64) -> (r: Timeout)
        ensures
            r.deadline == (if now as nat + timeout_secs as nat > u64::MAX { u64::MAX } else { (now
                + timeout_secs) as u64 }),
    {
        let deadline = if now > u64::MAX - timeout_secs { u64::MAX } else { now + timeout_secs };
        Timeout { deadline }
    }

    /// A deadline `timeout_secs` from now.
    pub fn new(timeout_secs: u64) -> (r: Timeout) {
        Timeout::new_at(timeout_secs, now_secs())
    }

    pub fn is_expired_at(&self, now: u64) -> (r: bool)
        ensures
            r == (now >= self.deadline),
    {
        now >= self.deadline
    }

    pub fn is_expired(&self) -> (r: bool) {
        self.is_expired_at(now_secs())
    }

    /// Seconds left at `now`, zero once passed.
    pub fn remaining_at(&self, now: u64) -> (r: u64)
        ensures
            r == (if now >= self.deadline { 0 } else { (self.deadline - now) as u64 }),
    {
        if now >= self.deadline {
            0
        } else {
            self.deadline - now
        }
    }

    pub fn remaining(&self) -> (r: u64)
        ensures
            r <= self.deadline,
    {
        self.remaining_at(now_secs())
    }
}

} // verus!
