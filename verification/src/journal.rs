//! The journal of an experiment: when it is open, the time of its entries,
//! and which of its sources failed when it was opened.
use vstd::prelude::*;

verus! {

/// What failed when the journal was opened: its file, the subscription to
/// the router's messages, or the one to the tracking system.
#[derive(Debug, PartialEq, Eq, Clone, Copy)]
pub enum OpenFailure {
    File,
    Router,
    TrackingSystem,
}

/// The journal opens only where its file was created and both
/// subscriptions were made; otherwise the first failure, in that order, is
/// reported.
pub fn open_result(file_ok: bool, router_ok: bool, tracking_ok: bool) -> (res: Result<(), OpenFailure>)
    ensures
        res is Ok <==> file_ok && router_ok && tracking_ok,
        !file_ok ==> res == Err::<(), OpenFailure>(OpenFailure::File),
        file_ok && !router_ok ==> res == Err::<(), OpenFailure>(OpenFailure::Router),
        file_ok && router_ok && !tracking_ok ==> res == Err::<(), OpenFailure>(OpenFailure::TrackingSystem),
{
    if !file_ok {
        Err(OpenFailure::File)
    } else if !router_ok {
        Err(OpenFailure::Router)
    } else if !tracking_ok {
        Err(OpenFailure::TrackingSystem)
    } else {
        Ok(())
    }
}

/// Whether the journal is open, and since when (in milliseconds of the
/// local clock).
#[derive(Debug, PartialEq, Eq, Clone, Copy)]
pub struct Journal {
    pub opened_at: Option<i64>,
}

impl Journal {
    /// A closed journal.
    pub fn new() -> (res: Journal)
        ensures
            res.opened_at is None,
    {
        Journal { opened_at: None }
    }

    /// The journal opens at `now`.
    pub fn open(&mut self, now: i64)
        ensures
            final(self).opened_at == Some(now),
    {
        self.opened_at = Some(now);
    }

    /// The journal closes; what arrives later is not written.
    pub fn close(&mut self)
        ensures
            final(self).opened_at is None,
    {
        self.opened_at = None;
    }

    /// The timestamp of an entry made at `now`: the milliseconds since the
    /// journal opened; `None` while it is closed (the entry is dropped).
    pub fn timestamp(&self, now: i64) -> (res: Option<i64>)
        requires
            self.opened_at matches Some(t) ==> i64::MIN <= now - t <= i64::MAX,
        ensures
            match self.opened_at {
                Some(t) => res == Some((now - t) as i64),
                None => res is None,
            },
    {
        match self.opened_at {
            Some(t) => Some(now - t),
            None => None,
        }
    }
}

} // verus!
