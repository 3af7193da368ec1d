//! Backlogs: where records wait that the remote did not accept.

pub mod archive;
pub mod file;
pub mod framing;
pub mod naming;

use vstd::prelude::*;

use crate::error::InfluxResult;
use crate::record::Record;


verus! {

/// What the write pipeline asks of a backlog.
///
/// Each method comes with a statement of its own, which an implementation
/// writes: what holds of the backlog before the call, of what was handed
/// in, of the backlog after the call, and of the answer. The pipeline
/// assumes nothing of these statements; it hands them on to its callers.
pub trait Backlog: Sized {
    /// What holds of a call of `read_pending`: of the backlog before and
    /// after it, and of its answer.
    open spec fn reads(&self, after: &Self, answer: InfluxResult<Vec<Record>>) -> bool {
        true
    }

    /// What holds of a call of `write_pending` with `record`: of the
    /// backlog before and after it, and of its answer.
    open spec fn takes(&self, record: &Record, after: &Self, answer: InfluxResult<()>) -> bool {
        true
    }

    /// What holds of a call of `truncate_pending` with `record`: of the
    /// backlog before and after it, and of its answer.
    open spec fn forgets(&self, record: &Record, after: &Self, answer: InfluxResult<()>) -> bool {
        true
    }

    /// Every record that waits in the backlog, one per destination, without
    /// taking any of them out.
    fn read_pending(&mut self) -> (answer: InfluxResult<Vec<Record>>)
        ensures
            old(self).reads(final(self), answer),
    ;

    /// Adds the measurements of `record` behind those that already wait for
    /// its destination.
    fn write_pending(&mut self, record: &Record) -> (answer: InfluxResult<()>)
        ensures
            old(self).takes(record, final(self), answer),
    ;

    /// Forgets what waits for the destination of `record`, after it has been
    /// delivered.
    fn truncate_pending(&mut self, record: &Record) -> (answer: InfluxResult<()>)
        ensures
            old(self).forgets(record, final(self), answer),
    ;
}

/// The backlog of a caller who accepts that what the remote refuses is lost:
/// it keeps nothing and never fails.
#[derive(Debug, Clone, Copy, PartialEq, Eq, Structural)]
pub struct NoopBacklog;

impl Backlog for NoopBacklog {
    /// Nothing waits, and nothing changes.
    open spec fn reads(&self, after: &Self, answer: InfluxResult<Vec<Record>>) -> bool {
        answer matches Ok(records) && records@.len() == 0
    }

    /// The record is accepted and dropped.
    open spec fn takes(&self, record: &Record, after: &Self, answer: InfluxResult<()>) -> bool {
        answer is Ok
    }

    /// There is nothing to forget.
    open spec fn forgets(&self, record: &Record, after: &Self, answer: InfluxResult<()>) -> bool {
        answer is Ok
    }

    fn read_pending(&mut self) -> (answer: InfluxResult<Vec<Record>>) {
        Ok(Vec::new())
    }

    fn write_pending(&mut self, record: &Record) -> (answer: InfluxResult<()>) {
        Ok(())
    }

    fn truncate_pending(&mut self, record: &Record) -> (answer: InfluxResult<()>) {
        Ok(())
    }
}

} // verus!
