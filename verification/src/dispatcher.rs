//! The runner's dispatcher state: idle worker/device pairs and
//! in-flight assignments. Every device is in exactly one of the two
//! collections, so their sizes always sum to the device count.

use vstd::prelude::*;

use crate::device::DeviceCtl;
use crate::proto::JobSpec;

verus! {

/// An idle worker: a worker id bound to its device.
#[derive(Debug)]
pub struct WorkerDevice {
    pub worker_id: u128,
    pub device: DeviceCtl,
}

/// One in-flight assignment: the dispatched job bound to the worker
/// and device supervising it.
#[derive(Debug)]
pub struct Assignment {
    pub job: JobSpec,
    pub worker_id: u128,
    pub device: DeviceCtl,
}

/// The dispatcher's view of its device pool.
#[derive(Debug)]
pub struct Dispatcher {
    pub idle: Vec<WorkerDevice>,
    pub assignments: Vec<Assignment>,
}

/// Some assignment carries this job id.
pub open spec fn has_assignment(assignments: Seq<Assignment>, job_id: u128) -> bool {
    exists|i: int|
        0 <= i < assignments.len() && (#[trigger] assignments[i]).job.id == job_id
}

impl Dispatcher {
    /// Devices under this dispatcher's control: every device is idle
    /// or assigned, never both, so this total never changes.
    pub open spec fn pool_total(self) -> nat {
        self.idle@.len() + self.assignments@.len()
    }

    /// A dispatcher over a fresh pool: every device idle, nothing
    /// assigned.
    pub fn new(devices: Vec<WorkerDevice>) -> (r: Dispatcher)
        ensures
            r.idle@ == devices@,
            r.assignments@.len() == 0,
            r.pool_total() == devices@.len(),
    {
        Dispatcher { idle: devices, assignments: Vec::new() }
    }

    /// Whether any device is idle, which is what keeps the fill phase
    /// requesting jobs.
    pub fn has_idle(&self) -> (r: bool)
        ensures
            r == (self.idle@.len() > 0),
    {
        self.idle.len() > 0
    }

    /// Accepts one dispatched job: takes an idle pair, records the
    /// assignment, and hands back the worker id and a copy of the
    /// device for the supervisor. The pool total is unchanged. With no
    /// idle device, nothing changes.
    pub fn assign(&mut self, job: JobSpec) -> (r: Option<(u128, DeviceCtl)>)
        ensures
            final(self).pool_total() == old(self).pool_total(),
            old(self).idle@.len() == 0 ==> r is None && final(self).idle@ == old(self).idle@
                && final(self).assignments@ == old(self).assignments@,
            old(self).idle@.len() > 0 ==> {
                let taken = old(self).idle@.last();
                &&& final(self).idle@ == old(self).idle@.drop_last()
                &&& final(self).assignments@.len() == old(self).assignments@.len() + 1
                &&& final(self).assignments@.last().job == job
                &&& final(self).assignments@.last().worker_id == taken.worker_id
                &&& final(self).assignments@.last().device == taken.device
                &&& final(self).assignments@.drop_last() == old(self).assignments@
                &&& r matches Some((w, d)) && w == taken.worker_id && d.serial
                    == taken.device.serial && d.bus == taken.device.bus && d.ports@
                    == taken.device.ports@
            },
    {
        let taken = match self.idle.pop() {
            None => {
                return None;
            },
            Some(t) => t,
        };
        let device_copy = taken.device.clone();
        let worker_id = taken.worker_id;
        self.assignments.push(
            Assignment { job, worker_id: taken.worker_id, device: taken.device },
        );
        Some((worker_id, device_copy))
    }

    /// Releases the device of the assignment carrying this job id, as
    /// cancellation reconciliation does once the coordinator reports
    /// the job terminal: the assignment is removed and its pair
    /// returns to the idle pool. The pool total is unchanged. Returns
    /// whether an assignment was found.
    pub fn release(&mut self, job_id: u128) -> (r: bool)
        ensures
            final(self).pool_total() == old(self).pool_total(),
            r == has_assignment(old(self).assignments@, job_id),
            !r ==> *final(self) == *old(self),
            r ==> exists|p: int|
                #![auto]
                0 <= p < old(self).assignments@.len() && old(self).assignments@[p].job.id == job_id
                    && final(self).assignments@ == old(self).assignments@.remove(p)
                    && final(self).idle@.len() == old(self).idle@.len() + 1
                    && final(self).idle@.drop_last() == old(self).idle@
                    && final(self).idle@.last().worker_id == old(self).assignments@[p].worker_id
                    && final(self).idle@.last().device == old(self).assignments@[p].device,
    {
        let mut p: usize = 0;
        while p < self.assignments.len()
            invariant
                p <= self.assignments@.len(),
                forall|q: int| 0 <= q < p ==> (#[trigger] self.assignments@[q]).job.id != job_id,
                *self == *old(self),
            decreases self.assignments@.len() - p,
        {
            if self.assignments[p].job.id == job_id {
                let taken = self.assignments.remove(p);
                self.idle.push(WorkerDevice { worker_id: taken.worker_id, device: taken.device });
                return true;
            }
            p += 1;
        }
        false
    }
}

} // verus!
