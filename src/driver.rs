//! The decisions of the parallel pixel driver: sample requests go to the
//! workers in turn, and a pixel is finished only once exactly as many
//! samples have come back as were requested.
use vstd::prelude::*;
use crate::fixed::{LIMIT, SCALE};
use crate::material::is_albedo;
use crate::render::{channel_spec, chan_sum, sum_samples, to_rgb, MAX_SAMPLES};
use crate::vec3::Vec3;

verus! {

/// What the driver does next for the current pixel.
#[derive(Clone, Copy, Debug, PartialEq, Eq, Structural)]
pub enum Action {
    /// Send a sample request to the worker of this index.
    Send(usize),
    /// Wait for one sample result.
    Receive,
    /// All samples are in; the pixel can be finished.
    Finish,
}

/// The state of one pixel: how many samples it takes, over how many
/// workers, how many requests went out and which samples came back.
pub struct PixelJob {
    ns: u32,
    workers: usize,
    sent: u32,
    samples: Vec<Vec3>,
}

impl PixelJob {
    pub closed spec fn ns(&self) -> nat {
        self.ns as nat
    }

    pub closed spec fn workers(&self) -> nat {
        self.workers as nat
    }

    pub closed spec fn sent(&self) -> nat {
        self.sent as nat
    }

    pub closed spec fn samples(&self) -> Seq<Vec3> {
        self.samples@
    }

    /// Requests never outrun the sample count, results never outrun the
    /// requests, and every result is a color in `[0, 1]`.
    pub open spec fn wf(&self) -> bool {
        &&& 0 < self.ns() <= MAX_SAMPLES
        &&& 0 < self.workers()
        &&& self.samples().len() <= self.sent() <= self.ns()
        &&& forall|i: int| 0 <= i < self.samples().len() ==> is_albedo(#[trigger] self.samples()[i])
    }

    /// The action that the state calls for.
    pub open spec fn action_spec(&self) -> Action {
        if self.sent() < self.ns() {
            Action::Send((self.sent() % self.workers()) as usize)
        } else if self.samples().len() < self.ns() {
            Action::Receive
        } else {
            Action::Finish
        }
    }

    /// A pixel of `ns` samples spread over `workers` workers.
    pub fn new(ns: u32, workers: usize) -> (r: PixelJob)
        requires
            0 < ns <= MAX_SAMPLES,
            0 < workers,
        ensures
            r.wf(),
            r.ns() == ns,
            r.workers() == workers,
            r.sent() == 0,
            r.samples() == Seq::<Vec3>::empty(),
    {
        PixelJob { ns, workers, sent: 0, samples: Vec::new() }
    }

    /// First all requests, in turn over the workers; then all results.
    pub fn next_action(&self) -> (a: Action)
        requires
            self.wf(),
        ensures
            a == self.action_spec(),
    {
        if self.sent < self.ns {
            Action::Send((self.sent as usize) % self.workers)
        } else if self.samples.len() < self.ns as usize {
            Action::Receive
        } else {
            Action::Finish
        }
    }

    /// Record that a request went out.
    pub fn mark_sent(&mut self)
        requires
            old(self).wf(),
            old(self).sent() < old(self).ns(),
        ensures
            final(self).wf(),
            final(self).sent() == old(self).sent() + 1,
            final(self).ns() == old(self).ns(),
            final(self).workers() == old(self).workers(),
            final(self).samples() == old(self).samples(),
    {
        self.sent = self.sent + 1;
    }

    /// Record a sample result, in whatever order results arrive.
    pub fn receive(&mut self, c: Vec3)
        requires
            old(self).wf(),
            old(self).samples().len() < old(self).sent(),
            is_albedo(c),
        ensures
            final(self).wf(),
            final(self).samples() == old(self).samples().push(c),
            final(self).sent() == old(self).sent(),
            final(self).ns() == old(self).ns(),
            final(self).workers() == old(self).workers(),
    {
        self.samples.push(c);
    }

    /// The pixel's output color once every sample is in; each channel lies
    /// in `[0, 255]`.
    pub fn finish(&self) -> (r: (i32, i32, i32))
        requires
            self.wf(),
            self.samples().len() == self.ns(),
        ensures
            r.0 == channel_spec(chan_sum(self.samples(), 0), self.ns() as int),
            r.1 == channel_spec(chan_sum(self.samples(), 1), self.ns() as int),
            r.2 == channel_spec(chan_sum(self.samples(), 2), self.ns() as int),
            0 <= r.0 <= 255,
            0 <= r.1 <= 255,
            0 <= r.2 <= 255,
    {
        let sum = sum_samples(&self.samples);
        proof {
            assert(self.ns * SCALE <= LIMIT) by (nonlinear_arith)
                requires
                    self.ns <= MAX_SAMPLES,
            ;
            crate::render::lemma_chan_sum_bounds(self.samples@, 0);
            crate::render::lemma_chan_sum_bounds(self.samples@, 1);
            crate::render::lemma_chan_sum_bounds(self.samples@, 2);
        }
        to_rgb(&sum, self.ns)
    }
}

} // verus!
