//! The signal graph: an append-only tree of devices with stable identifiers.
//!
//! Nodes live in a flat arena ordered by their identifiers.  The root is the
//! master output with identifier `0`; every other node is created later and
//! may only name already-existing, not-yet-attached nodes as its children,
//! so the child of any node always sits earlier in the arena and the graph
//! is a strict tree: no node is shared, no cycle can form.  Rendering walks
//! the arena once, computing every node's sample bottom-up.

use vstd::prelude::*;

verus! {

use crate::amplifier::{gain_apply, Amplifier, MasterOutput};
use crate::error::{AudioError, Error};
use crate::math::SAMPLE_MAX;

/// Resolution of the tables built by `AudioGraph::set_waveform`.
pub const DEFAULT_TABLE_LEN: usize = 128;
use crate::oscillator::{increment_for, osc_render, OscState, WaveTableOscillator};
use crate::waveforms::WaveForm;
use crate::wavetable::{generated_table, WaveTable};

/// The closed set of signal-processing devices a node can carry.
pub enum AudioDevice {
    Oscillator(WaveTableOscillator),
    Amplifier(Amplifier),
    MasterOutput(MasterOutput),
}

/// Device well-formedness on its own: an oscillator must itself be valid;
/// gain devices carry no invariant.
pub open spec fn device_wf(d: AudioDevice) -> bool {
    match d {
        AudioDevice::Oscillator(o) => o.valid(),
        AudioDevice::Amplifier(_) => true,
        AudioDevice::MasterOutput(_) => true,
    }
}

/// Device well-formedness within a graph: an oscillator must additionally
/// share the graph's sample rate.
pub open spec fn device_valid(d: AudioDevice, sr: int) -> bool {
    &&& device_wf(d)
    &&& (match d {
        AudioDevice::Oscillator(o) => o@.sample_rate == sr,
        AudioDevice::Amplifier(_) => true,
        AudioDevice::MasterOutput(_) => true,
    })
}

/// What a device yields at sample index `t` when its children mix to
/// `input`: an oscillator ignores the input (it is a leaf by convention), a
/// gain device scales it.
pub open spec fn device_render(d: AudioDevice, input: int, t: int) -> int {
    match d {
        AudioDevice::Oscillator(o) => osc_render(o@, t),
        AudioDevice::Amplifier(a) => gain_apply(a@ as int, input),
        AudioDevice::MasterOutput(m) => gain_apply(m@ as int, input),
    }
}

/// One element of the graph: a device, the identifiers of its children, and
/// its own identifier once the graph has assigned one.
pub struct AudioNode {
    device: AudioDevice,
    children: Vec<u32>,
    id: Option<u32>,
}

impl AudioNode {
    /// The device this node carries.
    pub closed spec fn spec_device(&self) -> AudioDevice {
        self.device
    }

    /// The identifiers of this node's children, in mixing order.
    pub closed spec fn spec_children(&self) -> Seq<u32> {
        self.children@
    }

    /// The identifier the graph assigned, if any.
    pub closed spec fn spec_id(&self) -> Option<u32> {
        self.id
    }

    /// A free node, not yet part of any graph: it has no identifier until
    /// the graph assigns one.
    pub fn new(device: AudioDevice, children: Vec<u32>) -> (r: AudioNode)
        ensures
            r.spec_device() == device,
            r.spec_children() == children@,
            r.spec_id() is None,
    {
        AudioNode { device, children, id: None }
    }

    /// The identifier the graph assigned, if any.
    pub fn get_id(&self) -> (r: Option<u32>)
        ensures
            r == self.spec_id(),
    {
        self.id
    }
}

/// Whether some node of the arena carries the identifier `id`.
pub open spec fn has_id(s: Seq<AudioNode>, id: u32) -> bool {
    exists|k: int| 0 <= k < s.len() && #[trigger] s[k].spec_id() == Some(id)
}

/// The arena position of the node carrying `id` (meaningful when `has_id`).
pub open spec fn id_pos(s: Seq<AudioNode>, id: u32) -> int {
    choose|k: int| 0 <= k < s.len() && #[trigger] s[k].spec_id() == Some(id)
}

/// Whether `id` already appears in some node's children list.
pub open spec fn attached(s: Seq<AudioNode>, id: u32) -> bool {
    exists|j: int, a: int|
        #![trigger s[j].spec_children()[a]]
        0 <= j < s.len() && 0 <= a < s[j].spec_children().len() && s[j].spec_children()[a] == id
}

/// A legal child reference from arena position `k`: never the root, always
/// present, and created before its parent (except under the root itself,
/// which is created first).
pub open spec fn child_ok(s: Seq<AudioNode>, k: int, cid: u32) -> bool {
    &&& cid != 0
    &&& has_id(s, cid)
    &&& (k == 0 || cid < s[k].spec_id()->Some_0)
}

/// Every node of the arena has been assigned an identifier.
pub open spec fn ids_assigned(s: Seq<AudioNode>) -> bool {
    forall|k: int| 0 <= k < s.len() ==> (#[trigger] s[k].spec_id()) is Some
}

/// Identifiers grow strictly along the arena, so they are unique and every
/// node stands after all nodes created before it.
pub open spec fn ids_sorted(s: Seq<AudioNode>) -> bool {
    forall|j: int, k: int|
        0 <= j < k < s.len() ==> (#[trigger] s[j].spec_id())->Some_0 < (
        #[trigger] s[k].spec_id())->Some_0
}

/// No identifier appears in two children positions anywhere in the arena:
/// every node has at most one parent, so the graph is a strict tree.
pub open spec fn no_shared_children(s: Seq<AudioNode>) -> bool {
    forall|j: int, a: int, k: int, b: int|
        #![trigger s[j].spec_children()[a], s[k].spec_children()[b]]
        0 <= j < s.len() && 0 <= a < s[j].spec_children().len() && 0 <= k < s.len() && 0 <= b
            < s[k].spec_children().len() && (j != k || a != b)
            ==> s[j].spec_children()[a] != s[k].spec_children()[b]
}

/// The sample produced by the node at arena position `k`, assuming its
/// children sit at earlier positions; a reference outside `[0, k)` (ruled
/// out by graph validity) contributes silence.
pub open spec fn node_out_at(s: Seq<AudioNode>, k: int, t: int) -> int
    decreases k, 1int, 0int,
        when 0 <= k
{
    if k < s.len() {
        device_render(s[k].spec_device(), children_sum(s, s[k].spec_children(), k, t), t)
    } else {
        0
    }
}

/// The exact sum of the samples of the children named by `cs`, each taken
/// at its arena position when that position lies below `bound`.
pub open spec fn children_sum(s: Seq<AudioNode>, cs: Seq<u32>, bound: int, t: int) -> int
    decreases bound, 0int, cs.len(),
        when 0 <= bound
{
    if cs.len() == 0 {
        0
    } else {
        let cid = cs.last();
        let c = if has_id(s, cid) && 0 <= id_pos(s, cid) < bound {
            node_out_at(s, id_pos(s, cid), t)
        } else {
            0
        };
        children_sum(s, cs.drop_last(), bound, t) + c
    }
}

/// The sample the whole graph produces at index `t`: the master device
/// applied to the mix of the root's children.
pub open spec fn graph_render(s: Seq<AudioNode>, t: int) -> int {
    if s.len() >= 1 {
        device_render(s[0].spec_device(), children_sum(s, s[0].spec_children(), s.len() as int, t), t)
    } else {
        0
    }
}

/// The graph: a flat arena of nodes ordered by identifier, the shared
/// sample rate, and the identifier counter.
pub struct AudioGraph {
    nodes: Vec<AudioNode>,
    sample_rate: u32,
    current_id: u32,
}

impl AudioGraph {
    /// The node arena, in identifier order.
    pub closed spec fn spec_nodes(&self) -> Seq<AudioNode> {
        self.nodes@
    }

    /// The sample rate shared with every oscillator in the graph.
    pub closed spec fn spec_sample_rate(&self) -> u32 {
        self.sample_rate
    }

    /// The largest identifier issued so far.
    pub closed spec fn spec_current_id(&self) -> u32 {
        self.current_id
    }

    /// Graph well-formedness: the root is the master output with identifier
    /// `0`; identifiers are assigned, bounded by the counter, and strictly
    /// increasing along the arena; every device is valid at the graph's
    /// sample rate; every child reference is legal; and no node has two
    /// parents.
    pub open spec fn valid(&self) -> bool {
        let s = self.spec_nodes();
        &&& 1 <= s.len()
        &&& s[0].spec_id() == Some(0u32)
        &&& s[0].spec_device() is MasterOutput
        &&& ids_assigned(s)
        &&& forall|k: int|
            0 <= k < s.len() ==> (#[trigger] s[k].spec_id())->Some_0 <= self.spec_current_id()
        &&& ids_sorted(s)
        &&& forall|k: int|
            0 <= k < s.len() ==> device_valid(
                #[trigger] s[k].spec_device(),
                self.spec_sample_rate() as int,
            )
        &&& self.spec_sample_rate() >= 1
        &&& forall|k: int, c: int|
            #![trigger s[k].spec_children()[c]]
            0 <= k < s.len() && 0 <= c < s[k].spec_children().len() ==> child_ok(
                s,
                k,
                s[k].spec_children()[c],
            )
        &&& no_shared_children(s)
    }

    /// A fresh graph holding only the master output node, which takes
    /// identifier `0`.
    pub fn new(sample_rate: u32) -> (r: AudioGraph)
        requires
            sample_rate >= 1,
        ensures
            r.valid(),
            r.spec_nodes().len() == 1,
            r.spec_nodes()[0].spec_children().len() == 0,
            r.spec_nodes()[0].spec_device() matches AudioDevice::MasterOutput(m) && m@
                == crate::math::FP_ONE,
            r.spec_sample_rate() == sample_rate,
            r.spec_current_id() == 0,
    {
        let master = AudioNode {
            device: AudioDevice::MasterOutput(MasterOutput::new()),
            children: Vec::new(),
            id: Some(0),
        };
        let mut nodes: Vec<AudioNode> = Vec::new();
        nodes.push(master);
        AudioGraph { nodes, sample_rate, current_id: 0 }
    }

    /// The sample rate shared with every oscillator in the graph.
    pub fn get_sample_rate(&self) -> (r: u32)
        ensures
            r == self.spec_sample_rate(),
    {
        self.sample_rate
    }

    /// A fresh identifier, never issued before and larger than the
    /// identifier of every node in the graph.
    pub fn get_uid(&mut self) -> (r: u32)
        requires
            old(self).spec_current_id() < u32::MAX,
        ensures
            r == old(self).spec_current_id() + 1,
            final(self).spec_current_id() == r,
            final(self).spec_nodes() == old(self).spec_nodes(),
            final(self).spec_sample_rate() == old(self).spec_sample_rate(),
            old(self).valid() ==> final(self).valid(),
            old(self).valid() ==> forall|k: int|
                0 <= k < old(self).spec_nodes().len()
                    ==> (#[trigger] old(self).spec_nodes()[k].spec_id())->Some_0 < r,
    {
        self.current_id = self.current_id + 1;
        self.current_id
    }

    /// Arena position of the node carrying `id`, if any.
    fn find_index(&self, id: u32) -> (r: Option<usize>)
        ensures
            match r {
                Some(k) => k < self.spec_nodes().len() && self.spec_nodes()[k as int].spec_id()
                    == Some(id),
                None => !has_id(self.spec_nodes(), id),
            },
    {
        let n = self.nodes.len();
        let mut k: usize = 0;
        while k < n
            invariant
                k <= n,
                n == self.spec_nodes().len(),
                forall|j: int| 0 <= j < k ==> #[trigger] self.spec_nodes()[j].spec_id() != Some(id),
            decreases n - k,
        {
            let node = &self.nodes[k];
            match node.id {
                Some(nid) => {
                    if nid == id {
                        return Some(k);
                    }
                },
                None => {},
            }
            k = k + 1;
        }
        None
    }

    /// Adopt a free node into the graph: it receives the next identifier
    /// and its children (already-existing, not-yet-attached, never the
    /// root) become reachable through it.  Construction-time only; nodes
    /// are never removed.
    pub fn add_node(&mut self, node: AudioNode) -> (r: u32)
        requires
            old(self).valid(),
            old(self).spec_current_id() < u32::MAX,
            node.spec_id() is None,
            device_valid(node.spec_device(), old(self).spec_sample_rate() as int),
            !(node.spec_device() is MasterOutput),
            forall|c: int|
                #![trigger node.spec_children()[c]]
                0 <= c < node.spec_children().len() ==> (node.spec_children()[c] != 0 && has_id(
                    old(self).spec_nodes(),
                    node.spec_children()[c],
                ) && !attached(old(self).spec_nodes(), node.spec_children()[c])),
            forall|c1: int, c2: int|
                0 <= c1 < c2 < node.spec_children().len() ==> #[trigger] node.spec_children()[c1]
                    != #[trigger] node.spec_children()[c2],
        ensures
            final(self).valid(),
            r == old(self).spec_current_id() + 1,
            final(self).spec_current_id() == r,
            final(self).spec_sample_rate() == old(self).spec_sample_rate(),
            final(self).spec_nodes().len() == old(self).spec_nodes().len() + 1,
            forall|k: int|
                0 <= k < old(self).spec_nodes().len() ==> #[trigger] final(self).spec_nodes()[k]
                    == old(self).spec_nodes()[k],
            final(self).spec_nodes().last().spec_device() == node.spec_device(),
            final(self).spec_nodes().last().spec_children() == node.spec_children(),
            final(self).spec_nodes().last().spec_id() == Some(r),
    {
        let ghost nc = node.spec_children();
        let id = self.get_uid();
        let mut node = node;
        node.id = Some(id);
        let ghost s = old(self).spec_nodes();
        let ghost nv = node;
        self.nodes.push(node);
        proof {
            let s2 = self.spec_nodes();
            let n = s.len() as int;
            assert(s2 =~= s.push(nv));
            assert(s2[n].spec_children() == nc);
            assert forall|k: int, c: int|
                #![trigger s2[k].spec_children()[c]]
                0 <= k < s2.len() && 0 <= c < s2[k].spec_children().len() implies child_ok(
                s2,
                k,
                s2[k].spec_children()[c],
            ) by {
                let cid = s2[k].spec_children()[c];
                if k < n {
                    assert(cid == s[k].spec_children()[c]);
                    assert(child_ok(s, k, cid));
                } else {
                    assert(cid == nc[c]);
                    assert(has_id(s, cid) && cid != 0);
                }
                let w = choose|j: int| 0 <= j < s.len() && #[trigger] s[j].spec_id() == Some(cid);
                assert(s[w].spec_id() == Some(cid));
                assert((s[w].spec_id())->Some_0 <= old(self).spec_current_id());
                assert(s2[w] == s[w]);
                assert(s2[w].spec_id() == Some(cid));
            }
            assert forall|j: int, a: int, k: int, b: int|
                #![trigger s2[j].spec_children()[a], s2[k].spec_children()[b]]
                0 <= j < s2.len() && 0 <= a < s2[j].spec_children().len() && 0 <= k < s2.len() && 0
                    <= b < s2[k].spec_children().len() && (j != k || a != b) implies s2[
                j
            ].spec_children()[a] != s2[k].spec_children()[b] by {
                if j < n && k < n {
                    assert(s2[j].spec_children()[a] == s[j].spec_children()[a]);
                    assert(s2[k].spec_children()[b] == s[k].spec_children()[b]);
                } else if j == n && k < n {
                    assert(s2[j].spec_children()[a] == nc[a]);
                    assert(!attached(s, nc[a]));
                    assert(s2[k].spec_children()[b] == s[k].spec_children()[b]);
                } else if j < n && k == n {
                    assert(s2[k].spec_children()[b] == nc[b]);
                    assert(!attached(s, nc[b]));
                    assert(s2[j].spec_children()[a] == s[j].spec_children()[a]);
                } else {
                    assert(s2[j].spec_children()[a] == nc[a]);
                    assert(s2[k].spec_children()[b] == nc[b]);
                }
            }
        }
        id
    }

    /// Attach an already-existing, not-yet-attached node (never the root
    /// itself) as the last child of the master output node.
    pub fn connect_to_master(&mut self, id: u32)
        requires
            old(self).valid(),
            has_id(old(self).spec_nodes(), id),
            id != 0,
            !attached(old(self).spec_nodes(), id),
        ensures
            final(self).valid(),
            final(self).spec_current_id() == old(self).spec_current_id(),
            final(self).spec_sample_rate() == old(self).spec_sample_rate(),
            final(self).spec_nodes().len() == old(self).spec_nodes().len(),
            forall|k: int|
                1 <= k < old(self).spec_nodes().len() ==> #[trigger] final(self).spec_nodes()[k]
                    == old(self).spec_nodes()[k],
            final(self).spec_nodes()[0].spec_children() == old(
                self,
            ).spec_nodes()[0].spec_children().push(id),
            final(self).spec_nodes()[0].spec_device() == old(self).spec_nodes()[0].spec_device(),
            final(self).spec_nodes()[0].spec_id() == old(self).spec_nodes()[0].spec_id(),
    {
        let ghost s = old(self).spec_nodes();
        let root: &mut AudioNode = &mut self.nodes[0];
        root.children.push(id);
        proof {
            let s2 = self.spec_nodes();
            let m = s[0].spec_children().len() as int;
            assert(forall|k: int| 0 <= k < s2.len() ==> #[trigger] s2[k].spec_id() == s[k].spec_id());
            assert forall|k: int, c: int|
                #![trigger s2[k].spec_children()[c]]
                0 <= k < s2.len() && 0 <= c < s2[k].spec_children().len() implies child_ok(
                s2,
                k,
                s2[k].spec_children()[c],
            ) by {
                let cid = s2[k].spec_children()[c];
                if k == 0 && c == m {
                    assert(cid == id);
                    let w = choose|j: int|
                        0 <= j < s.len() && #[trigger] s[j].spec_id() == Some(id);
                    assert(s2[w].spec_id() == Some(id));
                } else {
                    assert(cid == s[k].spec_children()[c]);
                    assert(child_ok(s, k, cid));
                    let w = choose|j: int|
                        0 <= j < s.len() && #[trigger] s[j].spec_id() == Some(cid);
                    assert(s2[w].spec_id() == Some(cid));
                }
            }
            assert forall|j: int, a: int, k: int, b: int|
                #![trigger s2[j].spec_children()[a], s2[k].spec_children()[b]]
                0 <= j < s2.len() && 0 <= a < s2[j].spec_children().len() && 0 <= k < s2.len() && 0
                    <= b < s2[k].spec_children().len() && (j != k || a != b) implies s2[
                j
            ].spec_children()[a] != s2[k].spec_children()[b] by {
                if (j != 0 || a != m) && (k != 0 || b != m) {
                    assert(s2[j].spec_children()[a] == s[j].spec_children()[a]);
                    assert(s2[k].spec_children()[b] == s[k].spec_children()[b]);
                } else if (j == 0 && a == m) && (k != 0 || b != m) {
                    assert(s2[k].spec_children()[b] == s[k].spec_children()[b]);
                    assert(!attached(s, id));
                } else if (k == 0 && b == m) && (j != 0 || a != m) {
                    assert(s2[j].spec_children()[a] == s[j].spec_children()[a]);
                    assert(!attached(s, id));
                }
            }
        }
    }

    /// One output sample for the whole graph at the absolute sample index
    /// `time`: every node's sample is computed bottom-up along the arena,
    /// and the master output scales the mix of its children.
    pub fn render(&self, time: u64) -> (r: i64)
        requires
            self.valid(),
        ensures
            r == graph_render(self.spec_nodes(), time as int),
            -SAMPLE_MAX <= r <= SAMPLE_MAX,
    {
        let outs = self.render_all(time);
        let root = &self.nodes[0];
        let acc = self.sum_inputs(&outs, &root.children, self.nodes.len(), time);
        proof {
            let s = self.spec_nodes();
            assert(device_valid(s[0].spec_device(), self.spec_sample_rate() as int));
            assert(root.device == s[0].spec_device());
            assert(root.children@ == s[0].spec_children());
        }
        render_device(&root.device, acc, time)
    }

    /// The sample one node (and the subtree below it) produces at index
    /// `time`.  Fails exactly when no node carries `id`.
    pub fn render_node(&self, id: u32, time: u64) -> (r: Result<i64, Error>)
        requires
            self.valid(),
        ensures
            r is Ok <==> has_id(self.spec_nodes(), id),
            match r {
                Ok(v) => v == node_out_at(
                    self.spec_nodes(),
                    id_pos(self.spec_nodes(), id),
                    time as int,
                ) && -SAMPLE_MAX <= v <= SAMPLE_MAX,
                Err(e) => e == Error::Audio(AudioError::AudioGraphInvalidId(id)),
            },
    {
        match self.find_index(id) {
            None => Err(Error::Audio(AudioError::AudioGraphInvalidId(id))),
            Some(p) => {
                proof {
                    lemma_id_pos_unique(self.spec_nodes(), p as int, id);
                }
                let outs = self.render_all(time);
                Ok(outs[p])
            },
        }
    }

    /// Samples of every node of the arena at index `time`, bottom-up: a
    /// node's children always sit at earlier positions, so one pass
    /// suffices.
    fn render_all(&self, time: u64) -> (outs: Vec<i64>)
        requires
            self.valid(),
        ensures
            outs@.len() == self.spec_nodes().len(),
            forall|p: int|
                0 <= p < outs@.len() ==> #[trigger] outs@[p] == node_out_at(
                    self.spec_nodes(),
                    p,
                    time as int,
                ),
            forall|p: int| 0 <= p < outs@.len() ==> -SAMPLE_MAX <= #[trigger] outs@[p] <= SAMPLE_MAX,
    {
        let ghost s = self.spec_nodes();
        let ghost t = time as int;
        let n = self.nodes.len();
        let mut outs: Vec<i64> = Vec::new();
        outs.push(0);
        proof {
            lemma_children_sum_zero_bound(s, s[0].spec_children(), t);
            let g = (s[0].spec_device()->MasterOutput_0)@ as int;
            assert(node_out_at(s, 0, t) == gain_apply(g, 0));
            assert(0 * g == 0) by (nonlinear_arith);
            assert(crate::math::scale_fp(0, g) == 0);
            assert(gain_apply(g, 0) == 0);
        }
        let mut k: usize = 1;
        while k < n
            invariant
                self.valid(),
                s == self.spec_nodes(),
                t == time as int,
                n == s.len(),
                1 <= k <= n,
                outs@.len() == k,
                forall|p: int| 0 <= p < k ==> #[trigger] outs@[p] == node_out_at(s, p, t),
                forall|p: int| 0 <= p < k ==> -SAMPLE_MAX <= #[trigger] outs@[p] <= SAMPLE_MAX,
            decreases n - k,
        {
            let nodek = &self.nodes[k];
            let acc = self.sum_inputs(&outs, &nodek.children, k, time);
            proof {
                assert(device_valid(s[k as int].spec_device(), self.spec_sample_rate() as int));
                assert(nodek.device == s[k as int].spec_device());
            }
            let v = render_device(&nodek.device, acc, time);
            outs.push(v);
            k = k + 1;
        }
        outs
    }

    /// Exact mix of the children named by `cs`, read out of the
    /// already-computed samples `outs` of the arena positions below
    /// `bound`.
    fn sum_inputs(&self, outs: &Vec<i64>, cs: &Vec<u32>, bound: usize, time: u64) -> (r: i128)
        requires
            self.valid(),
            bound <= self.spec_nodes().len(),
            bound <= outs@.len(),
            forall|p: int|
                0 <= p < bound ==> #[trigger] outs@[p] == node_out_at(
                    self.spec_nodes(),
                    p,
                    time as int,
                ),
            forall|p: int| 0 <= p < bound ==> -SAMPLE_MAX <= #[trigger] outs@[p] <= SAMPLE_MAX,
        ensures
            r == children_sum(self.spec_nodes(), cs@, bound as int, time as int),
            -(cs@.len() as int) * (SAMPLE_MAX as int) <= r <= (cs@.len() as int) * (
            SAMPLE_MAX as int),
    {
        let ghost s = self.spec_nodes();
        let ghost t = time as int;
        let mut acc: i128 = 0;
        let mut c: usize = 0;
        let m = cs.len();
        while c < m
            invariant
                self.valid(),
                s == self.spec_nodes(),
                t == time as int,
                bound <= s.len(),
                bound <= outs@.len(),
                forall|p: int| 0 <= p < bound ==> #[trigger] outs@[p] == node_out_at(s, p, t),
                forall|p: int| 0 <= p < bound ==> -SAMPLE_MAX <= #[trigger] outs@[p] <= SAMPLE_MAX,
                m == cs@.len(),
                c <= m,
                acc == children_sum(s, cs@.subrange(0, c as int), bound as int, t),
                -(c as int) * (SAMPLE_MAX as int) <= acc <= (c as int) * (SAMPLE_MAX as int),
            decreases m - c,
        {
            let cid = cs[c];
            let part: i64 = match self.find_index(cid) {
                Some(p) => {
                    proof {
                        lemma_id_pos_unique(s, p as int, cid);
                    }
                    if p < bound {
                        outs[p]
                    } else {
                        0
                    }
                },
                None => 0,
            };
            proof {
                let pre = cs@.subrange(0, c as int);
                let cur = cs@.subrange(0, c as int + 1);
                assert(cur.drop_last() =~= pre);
                assert(cur.last() == cs@[c as int]);
                assert((c as int + 1) * (SAMPLE_MAX as int) == (c as int) * (SAMPLE_MAX as int)
                    + SAMPLE_MAX as int) by (nonlinear_arith);
                assert((c as int) * (SAMPLE_MAX as int) <= 0x10000000000000000 * (
                SAMPLE_MAX as int)) by (nonlinear_arith)
                    requires
                        0 <= c as int <= 0x10000000000000000;
            }
            acc = acc + (part as i128);
            c = c + 1;
            proof {
                assert(acc == children_sum(s, cs@.subrange(0, c as int), bound as int, t));
            }
        }
        proof {
            assert(cs@.subrange(0, m as int) =~= cs@);
        }
        acc
    }

    /// Replace the amplitude parameter of the node carrying `id`; every
    /// device kind has one.  Fails exactly when no node carries `id`, and
    /// changes nothing on failure.  The swap touches one field of one
    /// device, so a concurrent render sees the old value or the new one,
    /// never a mixture.
    pub fn set_amplitude(&mut self, id: u32, amplitude: i64) -> (r: Result<(), Error>)
        requires
            old(self).valid(),
        ensures
            final(self).valid(),
            final(self).spec_sample_rate() == old(self).spec_sample_rate(),
            final(self).spec_current_id() == old(self).spec_current_id(),
            final(self).spec_nodes().len() == old(self).spec_nodes().len(),
            r is Ok <==> has_id(old(self).spec_nodes(), id),
            match r {
                Ok(_) => updated_at(
                    old(self).spec_nodes(),
                    final(self).spec_nodes(),
                    id,
                    |d0: AudioDevice, d1: AudioDevice| amp_set(d0, d1, amplitude),
                ),
                Err(e) => final(self).spec_nodes() == old(self).spec_nodes() && e == Error::Audio(
                    AudioError::AudioGraphInvalidId(id),
                ),
            },
    {
        match self.find_index(id) {
            None => Err(Error::Audio(AudioError::AudioGraphInvalidId(id))),
            Some(k) => {
                let ghost s = self.spec_nodes();
                let node: &mut AudioNode = &mut self.nodes[k];
                match &mut node.device {
                    AudioDevice::Oscillator(o) => o.set_amplitude(amplitude),
                    AudioDevice::Amplifier(a) => a.set_amplitude(amplitude),
                    AudioDevice::MasterOutput(m) => m.set_amplitude(amplitude),
                }
                proof {
                    assert(device_valid(s[k as int].spec_device(), self.spec_sample_rate() as int));
                    lemma_valid_after_device_update(*old(self), *self, k as int);
                    lemma_id_pos_unique(s, k as int, id);
                    assert forall|j: int|
                        0 <= j < s.len() && s[j].spec_id() == Some(id) implies j == k as int by {
                        lemma_id_pos_unique(s, j, id);
                    }
                }
                Ok(())
            },
        }
    }

    /// Replace the frequency of the oscillator carrying `id`; its phase
    /// increment is recomputed at once.  Fails exactly when `id` does not
    /// address an oscillator node, and changes nothing on failure.
    pub fn set_frequency(&mut self, id: u32, frequency: i64) -> (r: Result<(), Error>)
        requires
            old(self).valid(),
        ensures
            final(self).valid(),
            final(self).spec_sample_rate() == old(self).spec_sample_rate(),
            final(self).spec_current_id() == old(self).spec_current_id(),
            final(self).spec_nodes().len() == old(self).spec_nodes().len(),
            r is Ok <==> has_oscillator(old(self).spec_nodes(), id),
            match r {
                Ok(_) => updated_at(
                    old(self).spec_nodes(),
                    final(self).spec_nodes(),
                    id,
                    |d0: AudioDevice, d1: AudioDevice| freq_set(
                        d0,
                        d1,
                        frequency,
                        old(self).spec_sample_rate() as int,
                    ),
                ),
                Err(e) => final(self).spec_nodes() == old(self).spec_nodes() && e == Error::Audio(
                    AudioError::AudioGraphInvalidId(id),
                ),
            },
    {
        let ghost s = self.spec_nodes();
        match self.find_index(id) {
            None => Err(Error::Audio(AudioError::AudioGraphInvalidId(id))),
            Some(k) => {
                proof {
                    assert(device_valid(s[k as int].spec_device(), self.spec_sample_rate() as int));
                    lemma_id_pos_unique(s, k as int, id);
                    assert forall|j: int|
                        0 <= j < s.len() && s[j].spec_id() == Some(id) implies j == k as int by {
                        lemma_id_pos_unique(s, j, id);
                    }
                }
                let node: &mut AudioNode = &mut self.nodes[k];
                match &mut node.device {
                    AudioDevice::Oscillator(o) => {
                        o.set_frequency(frequency);
                        proof {
                            lemma_valid_after_device_update(*old(self), *self, k as int);
                        }
                        Ok(())
                    },
                    _ => {
                        proof {
                            assert(self.spec_nodes() =~= s);
                        }
                        Err(Error::Audio(AudioError::AudioGraphInvalidId(id)))
                    },
                }
            },
        }
    }

    /// Swap a whole new wavetable into the oscillator carrying `id`; a
    /// concurrent render sees the old table or the new one, never a
    /// half-replaced one.  Fails exactly when `id` does not address an
    /// oscillator node, and changes nothing on failure.
    pub fn set_wavetable(&mut self, id: u32, wavetable: WaveTable) -> (r: Result<(), Error>)
        requires
            old(self).valid(),
            wavetable.valid(),
        ensures
            final(self).valid(),
            final(self).spec_sample_rate() == old(self).spec_sample_rate(),
            final(self).spec_current_id() == old(self).spec_current_id(),
            final(self).spec_nodes().len() == old(self).spec_nodes().len(),
            r is Ok <==> has_oscillator(old(self).spec_nodes(), id),
            match r {
                Ok(_) => updated_at(
                    old(self).spec_nodes(),
                    final(self).spec_nodes(),
                    id,
                    |d0: AudioDevice, d1: AudioDevice| table_set(
                        d0,
                        d1,
                        wavetable@,
                        wavetable.spec_waveform(),
                    ),
                ),
                Err(e) => final(self).spec_nodes() == old(self).spec_nodes() && e == Error::Audio(
                    AudioError::AudioGraphInvalidId(id),
                ),
            },
    {
        let ghost s = self.spec_nodes();
        match self.find_index(id) {
            None => Err(Error::Audio(AudioError::AudioGraphInvalidId(id))),
            Some(k) => {
                proof {
                    assert(device_valid(s[k as int].spec_device(), self.spec_sample_rate() as int));
                    lemma_id_pos_unique(s, k as int, id);
                    assert forall|j: int|
                        0 <= j < s.len() && s[j].spec_id() == Some(id) implies j == k as int by {
                        lemma_id_pos_unique(s, j, id);
                    }
                }
                let node: &mut AudioNode = &mut self.nodes[k];
                match &mut node.device {
                    AudioDevice::Oscillator(o) => {
                        o.set_wavetable(wavetable);
                        proof {
                            lemma_valid_after_device_update(*old(self), *self, k as int);
                        }
                        Ok(())
                    },
                    _ => {
                        proof {
                            assert(self.spec_nodes() =~= s);
                        }
                        Err(Error::Audio(AudioError::AudioGraphInvalidId(id)))
                    },
                }
            },
        }
    }

    /// Give the oscillator carrying `id` a freshly generated wavetable of
    /// the requested shape, sampled at the default resolution.  Fails
    /// exactly when `id` does not address an oscillator node, and changes
    /// nothing on failure.
    pub fn set_waveform(&mut self, id: u32, waveform: WaveForm) -> (r: Result<(), Error>)
        requires
            old(self).valid(),
            waveform.has_generator(),
        ensures
            final(self).valid(),
            final(self).spec_sample_rate() == old(self).spec_sample_rate(),
            final(self).spec_current_id() == old(self).spec_current_id(),
            final(self).spec_nodes().len() == old(self).spec_nodes().len(),
            r is Ok <==> has_oscillator(old(self).spec_nodes(), id),
            match r {
                Ok(_) => updated_at(
                    old(self).spec_nodes(),
                    final(self).spec_nodes(),
                    id,
                    |d0: AudioDevice, d1: AudioDevice| table_set(
                        d0,
                        d1,
                        generated_table(waveform, DEFAULT_TABLE_LEN as int),
                        waveform,
                    ),
                ),
                Err(e) => final(self).spec_nodes() == old(self).spec_nodes() && e == Error::Audio(
                    AudioError::AudioGraphInvalidId(id),
                ),
            },
    {
        let wavetable = WaveTable::from_waveform(waveform, DEFAULT_TABLE_LEN);
        self.set_wavetable(id, wavetable)
    }

    /// The amplitude parameter of the node carrying `id`; every device
    /// kind has one.  Fails exactly when no node carries `id`.
    pub fn get_amplitude(&self, id: u32) -> (r: Result<i64, Error>)
        ensures
            r is Ok <==> has_id(self.spec_nodes(), id),
            match r {
                Ok(a) => exists|k: int|
                    0 <= k < self.spec_nodes().len() && #[trigger] self.spec_nodes()[k].spec_id()
                        == Some(id) && device_amplitude(self.spec_nodes()[k].spec_device()) == a,
                Err(e) => e == Error::Audio(AudioError::AudioGraphInvalidId(id)),
            },
    {
        match self.find_index(id) {
            None => Err(Error::Audio(AudioError::AudioGraphInvalidId(id))),
            Some(k) => {
                let node = &self.nodes[k];
                match &node.device {
                    AudioDevice::Oscillator(o) => Ok(o.get_amplitude()),
                    AudioDevice::Amplifier(a) => Ok(a.get_amplitude()),
                    AudioDevice::MasterOutput(m) => Ok(m.get_amplitude()),
                }
            },
        }
    }

    /// The frequency of the oscillator carrying `id`, in Q32 hertz.  Fails
    /// exactly when `id` does not address an oscillator node.
    pub fn get_frequency(&self, id: u32) -> (r: Result<i64, Error>)
        requires
            self.valid(),
        ensures
            r is Ok <==> has_oscillator(self.spec_nodes(), id),
            match r {
                Ok(f) => exists|k: int|
                    0 <= k < self.spec_nodes().len() && #[trigger] self.spec_nodes()[k].spec_id()
                        == Some(id) && (self.spec_nodes()[k].spec_device() matches
                    AudioDevice::Oscillator(o) && o@.frequency == f),
                Err(e) => e == Error::Audio(AudioError::AudioGraphInvalidId(id)),
            },
    {
        let ghost s = self.spec_nodes();
        match self.find_index(id) {
            None => Err(Error::Audio(AudioError::AudioGraphInvalidId(id))),
            Some(k) => {
                proof {
                    lemma_id_pos_unique(s, k as int, id);
                    assert forall|j: int|
                        0 <= j < s.len() && s[j].spec_id() == Some(id) implies j == k as int by {
                        lemma_id_pos_unique(s, j, id);
                    }
                }
                let node = &self.nodes[k];
                match &node.device {
                    AudioDevice::Oscillator(o) => Ok(o.get_frequency()),
                    _ => Err(Error::Audio(AudioError::AudioGraphInvalidId(id))),
                }
            },
        }
    }

    /// The waveform tag of the oscillator carrying `id`.  Fails exactly
    /// when `id` does not address an oscillator node.
    pub fn get_waveform(&self, id: u32) -> (r: Result<WaveForm, Error>)
        requires
            self.valid(),
        ensures
            r is Ok <==> has_oscillator(self.spec_nodes(), id),
            match r {
                Ok(wf) => exists|k: int|
                    0 <= k < self.spec_nodes().len() && #[trigger] self.spec_nodes()[k].spec_id()
                        == Some(id) && (self.spec_nodes()[k].spec_device() matches
                    AudioDevice::Oscillator(o) && o@.waveform == wf),
                Err(e) => e == Error::Audio(AudioError::AudioGraphInvalidId(id)),
            },
    {
        let ghost s = self.spec_nodes();
        match self.find_index(id) {
            None => Err(Error::Audio(AudioError::AudioGraphInvalidId(id))),
            Some(k) => {
                proof {
                    lemma_id_pos_unique(s, k as int, id);
                    assert forall|j: int|
                        0 <= j < s.len() && s[j].spec_id() == Some(id) implies j == k as int by {
                        lemma_id_pos_unique(s, j, id);
                    }
                }
                let node = &self.nodes[k];
                match &node.device {
                    AudioDevice::Oscillator(o) => Ok(o.get_waveform()),
                    _ => Err(Error::Audio(AudioError::AudioGraphInvalidId(id))),
                }
            },
        }
    }

    /// Shared access to the node carrying `id`; an identifier the graph
    /// never issued is reported as invalid, never a crash or a default.
    pub fn get_node(&self, id: u32) -> (r: Result<&AudioNode, Error>)
        ensures
            r is Ok <==> has_id(self.spec_nodes(), id),
            match r {
                Ok(node) => exists|k: int|
                    0 <= k < self.spec_nodes().len() && #[trigger] self.spec_nodes()[k] == *node
                        && node.spec_id() == Some(id),
                Err(e) => e == Error::Audio(AudioError::AudioGraphInvalidId(id)),
            },
    {
        match self.find_index(id) {
            Some(k) => Ok(&self.nodes[k]),
            None => Err(Error::Audio(AudioError::AudioGraphInvalidId(id))),
        }
    }
}

/// One device's sample for an already-mixed input.
fn render_device(d: &AudioDevice, input: i128, time: u64) -> (r: i64)
    requires
        device_wf(*d),
    ensures
        r == device_render(*d, input as int, time as int),
        -SAMPLE_MAX <= r <= SAMPLE_MAX,
{
    match d {
        AudioDevice::Oscillator(o) => o.render(time),
        AudioDevice::Amplifier(a) => {
            let x = crate::math::clamp_sample(input);
            crate::math::scale_sample(x, a.get_amplitude())
        },
        AudioDevice::MasterOutput(m) => {
            let x = crate::math::clamp_sample(input);
            crate::math::scale_sample(x, m.get_amplitude())
        },
    }
}

/// Exact mix of the nodes named by `audio_nodes`: the sum of their samples
/// at index `time`, widened so that no rounding or saturation touches it.
pub fn render_nodes(graph: &AudioGraph, audio_nodes: &Vec<u32>, time: u64) -> (r: i128)
    requires
        graph.valid(),
    ensures
        r == children_sum(
            graph.spec_nodes(),
            audio_nodes@,
            graph.spec_nodes().len() as int,
            time as int,
        ),
{
    let outs = graph.render_all(time);
    graph.sum_inputs(&outs, audio_nodes, graph.nodes.len(), time)
}

/// The live amplitude parameter of a device, whatever its kind.
pub open spec fn device_amplitude(d: AudioDevice) -> i64 {
    match d {
        AudioDevice::Oscillator(o) => o@.amplitude,
        AudioDevice::Amplifier(a) => a@,
        AudioDevice::MasterOutput(m) => m@,
    }
}

/// How a device changes when its amplitude parameter is replaced: same
/// kind, same remaining state, new amplitude.
pub open spec fn amp_set(d0: AudioDevice, d1: AudioDevice, a: i64) -> bool {
    match (d0, d1) {
        (AudioDevice::Oscillator(o0), AudioDevice::Oscillator(o1)) => o1@ == (OscState {
            amplitude: a,
            ..o0@
        }),
        (AudioDevice::Amplifier(a0), AudioDevice::Amplifier(a1)) => a1@ == a,
        (AudioDevice::MasterOutput(m0), AudioDevice::MasterOutput(m1)) => m1@ == a,
        _ => false,
    }
}

/// Whether the node carrying `id` exists and is an oscillator.
pub open spec fn has_oscillator(s: Seq<AudioNode>, id: u32) -> bool {
    exists|k: int|
        0 <= k < s.len() && #[trigger] s[k].spec_id() == Some(id) && s[k].spec_device()
            is Oscillator
}

/// How an oscillator device changes when its frequency is replaced: the
/// phase increment is recomputed from the new frequency at the graph's
/// sample rate; everything else is kept.  No other device kind qualifies.
pub open spec fn freq_set(d0: AudioDevice, d1: AudioDevice, f: i64, sr: int) -> bool {
    match (d0, d1) {
        (AudioDevice::Oscillator(o0), AudioDevice::Oscillator(o1)) => o1@ == (OscState {
            frequency: f,
            phase_increment: increment_for(f as int, sr) as u32,
            ..o0@
        }),
        _ => false,
    }
}

/// How an oscillator device changes when its wavetable is replaced: the
/// new sample sequence and shape tag are installed whole; everything else
/// is kept.  No other device kind qualifies.
pub open spec fn table_set(
    d0: AudioDevice,
    d1: AudioDevice,
    tbl: Seq<i64>,
    wf: WaveForm,
) -> bool {
    match (d0, d1) {
        (AudioDevice::Oscillator(o0), AudioDevice::Oscillator(o1)) => o1@ == (OscState {
            table: tbl,
            waveform: wf,
            ..o0@
        }),
        _ => false,
    }
}

/// How a parameter call changes the arena: every node keeps its place,
/// identifier and children, and only the node carrying `id` gets a new
/// device, related to its old one by `rel`.
pub open spec fn updated_at(
    s0: Seq<AudioNode>,
    s1: Seq<AudioNode>,
    id: u32,
    rel: spec_fn(AudioDevice, AudioDevice) -> bool,
) -> bool {
    &&& s1.len() == s0.len()
    &&& forall|k: int|
        0 <= k < s0.len() && s0[k].spec_id() != Some(id) ==> #[trigger] s1[k] == s0[k]
    &&& forall|k: int|
        0 <= k < s0.len() && s0[k].spec_id() == Some(id) ==> (#[trigger] s1[k].spec_id() == Some(
            id,
        ) && s1[k].spec_children() == s0[k].spec_children() && rel(
            s0[k].spec_device(),
            s1[k].spec_device(),
        ))
}

/// Replacing one node's device with another valid device of unchanged
/// identifier and children keeps the whole graph valid.
proof fn lemma_valid_after_device_update(g0: AudioGraph, g1: AudioGraph, k: int)
    requires
        g0.valid(),
        g1.spec_sample_rate() == g0.spec_sample_rate(),
        g1.spec_current_id() == g0.spec_current_id(),
        g1.spec_nodes().len() == g0.spec_nodes().len(),
        0 <= k < g0.spec_nodes().len(),
        forall|j: int|
            0 <= j < g0.spec_nodes().len() && j != k ==> #[trigger] g1.spec_nodes()[j]
                == g0.spec_nodes()[j],
        g1.spec_nodes()[k].spec_id() == g0.spec_nodes()[k].spec_id(),
        g1.spec_nodes()[k].spec_children() == g0.spec_nodes()[k].spec_children(),
        device_valid(g1.spec_nodes()[k].spec_device(), g0.spec_sample_rate() as int),
        k == 0 ==> g1.spec_nodes()[0].spec_device() is MasterOutput,
    ensures
        g1.valid(),
{
    let s = g0.spec_nodes();
    let s2 = g1.spec_nodes();
    assert forall|j: int| 0 <= j < s2.len() implies #[trigger] s2[j].spec_id() == s[j].spec_id()
        && s2[j].spec_children() == s[j].spec_children() by {
        if j != k {
            assert(s2[j] == s[j]);
        }
    }
    assert forall|j: int| 0 <= j < s2.len() implies device_valid(
        #[trigger] s2[j].spec_device(),
        g1.spec_sample_rate() as int,
    ) by {
        if j != k {
            assert(s2[j] == s[j]);
        }
    }
    assert forall|j: int, c: int|
        #![trigger s2[j].spec_children()[c]]
        0 <= j < s2.len() && 0 <= c < s2[j].spec_children().len() implies child_ok(
        s2,
        j,
        s2[j].spec_children()[c],
    ) by {
        let cid = s2[j].spec_children()[c];
        assert(cid == s[j].spec_children()[c]);
        assert(child_ok(s, j, cid));
        let w = choose|i: int| 0 <= i < s.len() && #[trigger] s[i].spec_id() == Some(cid);
        assert(s2[w].spec_id() == Some(cid));
    }
    assert forall|j: int, a: int, i: int, b: int|
        #![trigger s2[j].spec_children()[a], s2[i].spec_children()[b]]
        0 <= j < s2.len() && 0 <= a < s2[j].spec_children().len() && 0 <= i < s2.len() && 0 <= b
            < s2[i].spec_children().len() && (j != i || a != b) implies s2[j].spec_children()[a]
        != s2[i].spec_children()[b] by {
        assert(s2[j].spec_children()[a] == s[j].spec_children()[a]);
        assert(s2[i].spec_children()[b] == s[i].spec_children()[b]);
    }
}

/// A mix over no children, or below an empty bound, is silence.
proof fn lemma_children_sum_zero_bound(s: Seq<AudioNode>, cs: Seq<u32>, t: int)
    ensures
        children_sum(s, cs, 0, t) == 0,
    decreases cs.len(),
{
    if cs.len() > 0 {
        lemma_children_sum_zero_bound(s, cs.drop_last(), t);
    }
}

/// In an arena with assigned, strictly increasing identifiers, a position
/// carrying an identifier is the only one, so it is the one `id_pos` names.
proof fn lemma_id_pos_unique(s: Seq<AudioNode>, k: int, id: u32)
    requires
        ids_assigned(s),
        ids_sorted(s),
        0 <= k < s.len(),
        s[k].spec_id() == Some(id),
    ensures
        has_id(s, id),
        id_pos(s, id) == k,
{
    assert(has_id(s, id));
    let w = id_pos(s, id);
    assert(0 <= w < s.len() && s[w].spec_id() == Some(id));
    if w < k {
        assert((s[w].spec_id())->Some_0 < (s[k].spec_id())->Some_0);
        assert(false);
    }
    if w > k {
        assert((s[k].spec_id())->Some_0 < (s[w].spec_id())->Some_0);
        assert(false);
    }
}

/// Mixing is linear: a composite node over two children feeds its device
/// exactly the sum of the two children's samples, with no rounding and no
/// order effect beyond the order of addition.
pub proof fn lemma_mix_linearity(s: Seq<AudioNode>, ids: Seq<u32>, bound: int, t: int)
    requires
        ids.len() == 2,
        has_id(s, ids[0]),
        0 <= id_pos(s, ids[0]) < bound,
        has_id(s, ids[1]),
        0 <= id_pos(s, ids[1]) < bound,
    ensures
        children_sum(s, ids, bound, t) == node_out_at(s, id_pos(s, ids[0]), t) + node_out_at(
            s,
            id_pos(s, ids[1]),
            t,
        ),
{
    let one = ids.drop_last();
    assert(ids.last() == ids[1]);
    assert(one.len() == 1);
    assert(one.last() == ids[0]);
    assert(one.drop_last().len() == 0);
    assert(children_sum(s, one.drop_last(), bound, t) == 0);
    assert(children_sum(s, one, bound, t) == 0 + node_out_at(s, id_pos(s, ids[0]), t));
    assert(children_sum(s, ids, bound, t) == children_sum(s, one, bound, t) + node_out_at(
        s,
        id_pos(s, ids[1]),
        t,
    ));
}

/// An identifier larger than the graph's counter was never issued by
/// `get_uid`, so no node carries it and a lookup reports it invalid rather
/// than yielding some default node.
pub proof fn lemma_unissued_id_absent(g: AudioGraph, id: u32)
    requires
        g.valid(),
        id > g.spec_current_id(),
    ensures
        !has_id(g.spec_nodes(), id),
{
    let s = g.spec_nodes();
    if has_id(s, id) {
        let w = choose|k: int| 0 <= k < s.len() && #[trigger] s[k].spec_id() == Some(id);
        assert((s[w].spec_id())->Some_0 <= g.spec_current_id());
        assert(false);
    }
}

} // verus!
