//! The engine time base: a monotonic sample clock over one graph.
//!
//! An audio sink pulls one sample at a time; each pull renders the graph at
//! the current absolute sample index and advances the clock by one.  The
//! clock never moves backwards and is never reset: oscillators key their
//! phase off the absolute index, so a reset would cause an audible phase
//! discontinuity.

use vstd::prelude::*;

verus! {

use crate::graph::{graph_render, AudioGraph};
use crate::math::SAMPLE_MAX;

/// A pull-based, monophonic sample source over an audio graph.
pub struct AudioSource {
    graph: AudioGraph,
    time: u64,
}

impl AudioSource {
    /// The graph this source renders.
    pub closed spec fn spec_graph(&self) -> AudioGraph {
        self.graph
    }

    /// The absolute index of the next sample to be produced.
    pub closed spec fn spec_time(&self) -> u64 {
        self.time
    }

    /// The source is well formed when its graph is.
    pub open spec fn valid(&self) -> bool {
        self.spec_graph().valid()
    }

    /// A source over `graph`, with its clock at the first sample.
    pub fn new(graph: AudioGraph) -> (r: AudioSource)
        requires
            graph.valid(),
        ensures
            r.valid(),
            r.spec_graph() == graph,
            r.spec_time() == 0,
    {
        AudioSource { graph, time: 0 }
    }

    /// Produce the next sample: the graph rendered at the current index,
    /// after which the clock advances by exactly one.  The clock is
    /// strictly monotonic across calls and nothing else moves it.
    pub fn next(&mut self) -> (r: Option<i64>)
        requires
            old(self).valid(),
            old(self).spec_time() < u64::MAX,
        ensures
            final(self).valid(),
            final(self).spec_graph() == old(self).spec_graph(),
            final(self).spec_time() == old(self).spec_time() + 1,
            r matches Some(sample) && sample == graph_render(
                old(self).spec_graph().spec_nodes(),
                old(self).spec_time() as int,
            ) && -SAMPLE_MAX <= sample <= SAMPLE_MAX,
    {
        let sample = self.graph.render(self.time);
        self.time = self.time + 1;
        Some(sample)
    }

    /// The source is monophonic.
    pub fn channels(&self) -> (r: u16)
        ensures
            r == 1,
    {
        1
    }

    /// The fixed sample rate of the graph.
    pub fn sample_rate(&self) -> (r: u32)
        ensures
            r == self.spec_graph().spec_sample_rate(),
    {
        self.graph.get_sample_rate()
    }

    /// The stream has no frame boundary.
    pub fn current_frame_len(&self) -> (r: Option<usize>)
        ensures
            r is None,
    {
        None
    }

    /// Shared access to the graph.
    pub fn graph(&self) -> (g: &AudioGraph)
        ensures
            *g == self.spec_graph(),
    {
        &self.graph
    }

    /// Exclusive access to the graph, for the parameter surface; the
    /// sample clock is untouched.
    pub fn graph_mut(&mut self) -> (g: &mut AudioGraph)
        ensures
            *g == old(self).spec_graph(),
            final(self).spec_graph() == *final(g),
            final(self).spec_time() == old(self).spec_time(),
    {
        &mut self.graph
    }
}

} // verus!
