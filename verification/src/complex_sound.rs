//! # Complex Sound
//!
//! A sound backed by a signal graph: an arena of [`StandardBlock`]s wired
//! by directed edges, evaluated once per engine sample in a cached process
//! order. The arena owns every block outright, so a handle is just an index
//! and no aliasing of node state is possible.
//!
//! The process order is recomputed whenever the topology changes. It is a
//! permutation of all node handles that starts at the input gain node and
//! ends at the output gain node; acyclic stretches of the graph are ordered
//! sources-first (so upstream nodes process before downstream ones), and
//! the nodes of any remaining cycle are appended in handle order.

use vstd::prelude::*;
use crate::sample_format::Sample;
use crate::standard_block::{StandardBlock, BlockModel, ModifierUnit, GenUnitModel, ModUnitModel, Interactor, Block, block_step, block_primed};
use crate::generators::Zero;
use crate::modifiers::Gain;
use crate::sounds::Sound;

verus! {

/// How many entries of a boolean sequence are true.
pub open spec fn count_true(s: Seq<bool>) -> nat
    decreases s.len(),
{
    if s.len() == 0 {
        0
    } else {
        count_true(s.drop_last()) + if s.last() {
            1nat
        } else {
            0nat
        }
    }
}

/// No sequence holds more true entries than entries.
proof fn lemma_count_true_le_len(s: Seq<bool>)
    ensures
        count_true(s) <= s.len(),
    decreases s.len(),
{
    if s.len() > 0 {
        lemma_count_true_le_len(s.drop_last());
    }
}

/// Turning one false entry true raises the count of true entries by one.
proof fn lemma_count_true_update(s: Seq<bool>, i: int)
    requires
        0 <= i < s.len(),
        !s[i],
    ensures
        count_true(s.update(i, true)) == count_true(s) + 1,
    decreases s.len(),
{
    if i == s.len() - 1 {
        assert(s.update(i, true).drop_last() =~= s.drop_last());
    } else {
        assert(s.update(i, true).drop_last() =~= s.drop_last().update(i, true));
        lemma_count_true_update(s.drop_last(), i);
    }
}

/// A sequence whose entries are all true has as many true entries as
/// entries.
proof fn lemma_count_true_full(s: Seq<bool>)
    requires
        forall|i: int| 0 <= i < s.len() ==> s[i],
    ensures
        count_true(s) == s.len(),
    decreases s.len(),
{
    if s.len() > 0 {
        lemma_count_true_full(s.drop_last());
    }
}

/// The order totality property: `order` is a permutation of the `n` node
/// handles — every entry is a handle, no handle appears twice, and every
/// handle appears.
pub open spec fn is_order_perm(order: Seq<usize>, n: nat) -> bool {
    &&& order.len() == n
    &&& forall|i: int| 0 <= i < order.len() ==> (#[trigger] order[i]) < n
    &&& forall|i: int, j: int| 0 <= i < j < order.len() ==> order[i] != order[j]
    &&& forall|v: usize| v < n ==> #[trigger] order.contains(v)
}

/// Every edge of the sequence connects two of the `n` node handles.
pub open spec fn edges_wf(edges: Seq<(usize, usize)>, n: nat) -> bool {
    forall|e: int|
        0 <= e < edges.len() ==> (#[trigger] edges[e]).0 < n && edges[e].1 < n
}

/// Computes a process order over the `n` nodes wired by `edges`: a
/// permutation of all handles that begins with `ig` and ends with `og`.
/// Nodes on acyclic stretches appear sources-first; nodes a cycle keeps
/// from ever reaching an in-degree of zero follow in handle order.
fn compute_order(n: usize, edges: &Vec<(usize, usize)>, ig: usize, og: usize) -> (r: Vec<usize>)
    requires
        n >= 2,
        ig < n,
        og < n,
        ig != og,
        edges_wf(edges@, n as nat),
    ensures
        is_order_perm(r@, n as nat),
        r@[0] == ig,
        r@[r@.len() - 1] == og,
{
    broadcast use vstd::seq_lib::group_seq_properties;
    // In-degree of every node.
    let mut indeg: Vec<usize> = Vec::new();
    let mut v: usize = 0;
    while v < n
        invariant
            indeg@.len() == v <= n,
            forall|k: int| 0 <= k < v ==> (#[trigger] indeg@[k]) == 0,
        decreases n - v,
    {
        indeg.push(0);
        v = v + 1;
    }
    let mut e: usize = 0;
    while e < edges.len()
        invariant
            e <= edges@.len(),
            indeg@.len() == n,
            edges_wf(edges@, n as nat),
            forall|k: int| 0 <= k < n ==> (#[trigger] indeg@[k]) <= e,
        decreases edges@.len() - e,
    {
        let t = edges[e].1;
        let d = indeg[t];
        if d < usize::MAX {
            indeg[t] = d + 1;
        }
        e = e + 1;
    }

    // Kahn's algorithm, one node per pass: repeatedly place the
    // lowest-numbered unplaced node whose remaining in-degree is zero, and
    // relieve the in-degree of its direct successors.
    let mut order: Vec<usize> = Vec::new();
    let mut queued: Vec<bool> = Vec::new();
    let mut v2: usize = 0;
    while v2 < n
        invariant
            queued@.len() == v2 <= n,
            forall|k: int| 0 <= k < v2 ==> !queued@[k],
        decreases n - v2,
    {
        queued.push(false);
        v2 = v2 + 1;
    }
    proof {
        lemma_count_true_zero(queued@);
    }
    let mut pass: usize = 0;
    while pass < n
        invariant
            pass <= n,
            indeg@.len() == n,
            queued@.len() == n,
            edges_wf(edges@, n as nat),
            order@.len() == count_true(queued@),
            order@.len() <= pass,
            forall|k: int| 0 <= k < order@.len() ==> (#[trigger] order@[k]) < n,
            forall|i: int, j: int| 0 <= i < j < order@.len() ==> order@[i] != order@[j],
            forall|w: usize| w < n ==> (queued@[w as int] <==> order@.contains(w)),
        decreases n - pass,
    {
        let mut found: usize = n;
        let mut scan: usize = 0;
        while scan < n
            invariant
                scan <= n,
                indeg@.len() == n,
                queued@.len() == n,
                found == n || (found < n && !queued@[found as int]),
            decreases n - scan,
        {
            if !queued[scan] && indeg[scan] == 0 {
                found = scan;
                scan = n;
            } else {
                scan = scan + 1;
            }
        }
        if found < n {
            let ghost prev = order@;
            let ghost prevq = queued@;
            proof {
                lemma_count_true_update(queued@, found as int);
                lemma_count_true_le_len(queued@);
                assert(!prev.contains(found));
            }
            order.push(found);
            queued[found] = true;
            proof {
                assert(order@ =~= prev.push(found));
                assert(order@[order@.len() - 1] == found);
                assert forall|w: usize| w < n implies (queued@[w as int] <==> order@.contains(w)) by {
                    if w == found {
                        assert(order@.contains(found));
                    } else {
                        if prev.contains(w) {
                            let wit = choose|i: int| 0 <= i < prev.len() && prev[i] == w;
                            assert(order@[wit] == w);
                        }
                        if order@.contains(w) {
                            let wit2 = choose|i: int| 0 <= i < order@.len() && order@[i] == w;
                            assert(prev[wit2] == w);
                        }
                    }
                }
            }
            // Relieve the successors of the placed node.
            let mut e2: usize = 0;
            while e2 < edges.len()
                invariant
                    e2 <= edges@.len(),
                    indeg@.len() == n,
                    edges_wf(edges@, n as nat),
                    found < n,
                decreases edges@.len() - e2,
            {
                if edges[e2].0 == found {
                    let t = edges[e2].1;
                    let d = indeg[t];
                    if d > 0 {
                        indeg[t] = d - 1;
                    }
                }
                e2 = e2 + 1;
            }
        }
        pass = pass + 1;
    }

    // Any nodes still unplaced sit on cycles; append them in handle order.
    let mut v3: usize = 0;
    while v3 < n
        invariant
            v3 <= n,
            queued@.len() == n,
            order@.len() == count_true(queued@),
            forall|k: int| 0 <= k < order@.len() ==> (#[trigger] order@[k]) < n,
            forall|i: int, j: int| 0 <= i < j < order@.len() ==> order@[i] != order@[j],
            forall|w: usize| w < n ==> (queued@[w as int] <==> order@.contains(w)),
            forall|k: int| 0 <= k < v3 ==> queued@[k],
        decreases n - v3,
    {
        if !queued[v3] {
            let ghost prev = order@;
            proof {
                lemma_count_true_update(queued@, v3 as int);
                lemma_count_true_le_len(queued@);
                assert(!prev.contains(v3));
            }
            order.push(v3);
            queued[v3] = true;
            proof {
                assert(order@ =~= prev.push(v3));
                assert(order@[order@.len() - 1] == v3);
                assert forall|w: usize| w < n implies (queued@[w as int] <==> order@.contains(w)) by {
                    if w == v3 {
                        assert(order@.contains(v3));
                    } else {
                        if prev.contains(w) {
                            let wit = choose|i: int| 0 <= i < prev.len() && prev[i] == w;
                            assert(order@[wit] == w);
                        }
                        if order@.contains(w) {
                            let wit2 = choose|i: int| 0 <= i < order@.len() && order@[i] == w;
                            assert(prev[wit2] == w);
                        }
                    }
                }
            }
        }
        v3 = v3 + 1;
    }
    proof {
        lemma_count_true_full(queued@);
        assert(order@.len() == n);
    }

    // Force the input gain to the front and the output gain to the back.
    let mut ord2: Vec<usize> = Vec::new();
    ord2.push(ig);
    let mut k: usize = 0;
    while k < order.len()
        invariant
            k <= order@.len(),
            order@.len() == n,
            ig < n,
            og < n,
            ig != og,
            forall|i: int| 0 <= i < order@.len() ==> (#[trigger] order@[i]) < n,
            forall|i: int, j: int| 0 <= i < j < order@.len() ==> order@[i] != order@[j],
            forall|w: usize| w < n ==> order@.contains(w),
            ord2@.len() >= 1,
            ord2@[0] == ig,
            forall|i: int| 0 <= i < ord2@.len() ==> (#[trigger] ord2@[i]) < n,
            forall|i: int, j: int| 0 <= i < j < ord2@.len() ==> ord2@[i] != ord2@[j],
            forall|i: int| 0 <= i < ord2@.len() ==> ord2@[i] != og,
            forall|i: int| 1 <= i < ord2@.len() ==> order@.take(k as int).contains(#[trigger] ord2@[i]),
            forall|i: int|
                0 <= i < k && order@[i] != ig && order@[i] != og ==> ord2@.contains(
                    #[trigger] order@[i],
                ),
            ord2@.len() == 1 + k - (if order@.take(k as int).contains(ig) {
                1int
            } else {
                0int
            }) - (if order@.take(k as int).contains(og) {
                1int
            } else {
                0int
            }),
        decreases order@.len() - k,
    {
        let x = order[k];
        let ghost prev2 = ord2@;
        proof {
            assert(order@.take(k as int + 1) =~= order@.take(k as int).push(order@[k as int]));
            assert(forall|i: int| 0 <= i < k ==> order@.take(k as int)[i] == order@[i]);
            if order@.take(k as int).contains(x) {
                let wit = choose|i: int|
                    0 <= i < order@.take(k as int).len() && order@.take(k as int)[i] == x;
                assert(order@[wit] == order@[k as int]);
                assert(false);
            }
            assert(!order@.take(k as int).contains(x));
            if prev2.contains(x) {
                let wit3 = choose|i: int| 0 <= i < prev2.len() && prev2[i] == x;
                assert(1 <= wit3 < prev2.len() || wit3 == 0);
            }
        }
        proof {
            vstd::seq_lib::lemma_seq_contains_after_push(order@.take(k as int), x, ig);
            vstd::seq_lib::lemma_seq_contains_after_push(order@.take(k as int), x, og);
            assert(order@.take(k as int + 1).contains(ig) <==> (order@.take(k as int).contains(ig)
                || x == ig));
            assert(order@.take(k as int + 1).contains(og) <==> (order@.take(k as int).contains(og)
                || x == og));
        }
        if x != ig && x != og {
            ord2.push(x);
            proof {
                assert(ord2@ =~= prev2.push(x));
                assert(ord2@[ord2@.len() - 1] == x);
                assert forall|i: int|
                    0 <= i < k + 1 && order@[i] != ig && order@[i] != og implies ord2@.contains(
                    #[trigger] order@[i],
                ) by {
                    if i == k {
                        assert(ord2@[ord2@.len() - 1] == order@[i]);
                    } else {
                        assert(prev2.contains(order@[i]));
                        let witm = choose|j: int| 0 <= j < prev2.len() && prev2[j] == order@[i];
                        assert(ord2@[witm] == order@[i]);
                    }
                }
                assert forall|i: int| 1 <= i < ord2@.len() implies order@.take(
                    k as int + 1,
                ).contains(#[trigger] ord2@[i]) by {
                    if i < prev2.len() {
                        let wit4 = choose|j: int|
                            0 <= j < order@.take(k as int).len() && order@.take(k as int)[j]
                                == prev2[i];
                        assert(order@.take(k as int + 1)[wit4] == prev2[i]);
                    } else {
                        assert(ord2@[i] == x);
                        assert(order@.take(k as int + 1)[k as int] == x);
                    }
                }
            }
        } else {
            proof {
                assert forall|i: int| 1 <= i < ord2@.len() implies order@.take(
                    k as int + 1,
                ).contains(#[trigger] ord2@[i]) by {
                    let wit4 = choose|j: int|
                        0 <= j < order@.take(k as int).len() && order@.take(k as int)[j]
                            == ord2@[i];
                    assert(order@.take(k as int + 1)[wit4] == ord2@[i]);
                }
            }
        }
        k = k + 1;
    }
    proof {
        assert(order@.take(n as int) =~= order@);
    }
    let ghost before_og = ord2@;
    ord2.push(og);
    proof {
        assert(ord2@ =~= before_og.push(og));
        assert(ord2@.len() == n);
        assert forall|w: usize| w < n implies #[trigger] ord2@.contains(w) by {
            if w == ig {
                assert(ord2@[0] == ig);
            } else if w == og {
                assert(ord2@[ord2@.len() - 1] == og);
            } else {
                assert(order@.contains(w));
                let wit = choose|i: int| 0 <= i < order@.len() && order@[i] == w;
                assert(0 <= wit < order@.len() && order@[wit] == w);
                assert(before_og.contains(order@[wit]));
                let wit2 = choose|i: int| 0 <= i < before_og.len() && before_og[i] == w;
                assert(ord2@[wit2] == w);
            }
        }
    }
    ord2
}

/// An empty sequence holds no true entries.
proof fn lemma_count_true_zero(s: Seq<bool>)
    requires
        forall|i: int| 0 <= i < s.len() ==> !s[i],
    ensures
        count_true(s) == 0,
    decreases s.len(),
{
    if s.len() > 0 {
        lemma_count_true_zero(s.drop_last());
    }
}


/// The mathematical state of a [`ComplexSound`]: the block arena, the edge
/// list, the cached process order, and the sound's registration and
/// mute/pause flags. Handle 0 is the input gain node and handle 1 the
/// output gain node.
pub ghost struct ComplexSoundModel {
    /// The blocks of the graph, addressed by handle.
    pub blocks: Seq<BlockModel>,
    /// The directed edges: `(from, to)` means the output of `from` feeds
    /// the input of `to`.
    pub edges: Seq<(usize, usize)>,
    /// The cached process order.
    pub order: Seq<usize>,
    /// The registration id, if the sound is registered with a channel.
    pub id: Option<usize>,
    /// Whether the sound is muted.
    pub is_muted: bool,
    /// Whether the sound is paused.
    pub is_paused: bool,
}

impl ComplexSoundModel {
    /// The graph is well formed: the two gain nodes exist, every edge
    /// connects existing nodes, no edge repeats, and the cached order is a
    /// permutation of all handles running from the input gain node to the
    /// output gain node.
    pub open spec fn wf(self) -> bool {
        &&& self.blocks.len() >= 2
        &&& edges_wf(self.edges, self.blocks.len())
        &&& forall|i: int, j: int|
            0 <= i < j < self.edges.len() ==> self.edges[i] != self.edges[j]
        &&& is_order_perm(self.order, self.blocks.len())
        &&& self.order[0] == 0
        &&& self.order[self.order.len() - 1] == 1
    }
}

/// The models of a sequence of blocks.
pub open spec fn blocks_view(s: Seq<StandardBlock>) -> Seq<BlockModel> {
    s.map_values(|b: StandardBlock| b@)
}

/// Primes every block that the first `upto` edges connect downstream of
/// `node` with the sample `y`, in edge order.
pub open spec fn prime_targets(
    blocks: Seq<BlockModel>,
    edges: Seq<(usize, usize)>,
    node: usize,
    y: Sample,
    upto: nat,
) -> Seq<BlockModel>
    decreases upto,
{
    if upto == 0 {
        blocks
    } else {
        let b = prime_targets(blocks, edges, node, y, (upto - 1) as nat);
        let e = edges[upto - 1];
        if e.0 == node {
            b.update(e.1 as int, block_primed(b[e.1 as int], y))
        } else {
            b
        }
    }
}

/// Evaluates one node: the node's block processes its accumulated input,
/// and the result primes every direct successor.
pub open spec fn eval_node(
    blocks: Seq<BlockModel>,
    edges: Seq<(usize, usize)>,
    node: usize,
) -> (Seq<BlockModel>, Sample) {
    let (b2, y) = block_step(blocks[node as int]);
    (prime_targets(blocks.update(node as int, b2), edges, node, y, edges.len()), y)
}

/// Evaluates the first `k` nodes of the process order in turn, yielding
/// the block states and the output of the node evaluated last (or silence
/// when no node has been evaluated).
pub open spec fn eval_run(
    blocks: Seq<BlockModel>,
    edges: Seq<(usize, usize)>,
    order: Seq<usize>,
    k: nat,
) -> (Seq<BlockModel>, Sample)
    decreases k,
{
    if k == 0 {
        (blocks, Sample::spec_zero())
    } else {
        let prev = eval_run(blocks, edges, order, (k - 1) as nat);
        eval_node(prev.0, edges, order[k - 1])
    }
}

/// One whole per-sample evaluation of the graph: the external input primes
/// the input gain node, every node processes in order, and the last
/// node's output (the output gain node's, by construction) is the result.
pub open spec fn graph_step(m: ComplexSoundModel, input: Sample) -> (Seq<BlockModel>, Sample) {
    let primed = m.blocks.update(0, block_primed(m.blocks[0], input));
    eval_run(primed, m.edges, m.order, m.order.len())
}

/// What one call of `process` on a complex sound does: a paused sound is
/// untouched and yields silence; otherwise the graph evaluates once, and
/// a muted sound substitutes silence for the result.
pub open spec fn sound_step(m: ComplexSoundModel, input: Sample) -> (ComplexSoundModel, Sample) {
    if m.is_paused {
        (m, Sample::spec_zero())
    } else {
        let (bl2, out) = graph_step(m, input);
        (
            ComplexSoundModel { blocks: bl2, ..m },
            if m.is_muted {
                Sample::spec_zero()
            } else {
                out
            },
        )
    }
}

/// Updating one block's model commutes with taking the models of all
/// blocks.
proof fn lemma_blocks_view_update(s: Seq<StandardBlock>, i: int, b: StandardBlock)
    requires
        0 <= i < s.len(),
    ensures
        blocks_view(s.update(i, b)) =~= blocks_view(s).update(i, b@),
{
}

/// A sound backed by a signal graph of [`StandardBlock`]s. The arena owns
/// every block; handles are plain indices, handle 0 being the input gain
/// node and handle 1 the output gain node.
#[derive(Debug)]
pub struct ComplexSound {
    blocks: Vec<StandardBlock>,
    edges: Vec<(usize, usize)>,
    order: Vec<usize>,
    id: Option<usize>,
    is_muted: bool,
    is_paused: bool,
}

impl View for ComplexSound {
    type V = ComplexSoundModel;

    closed spec fn view(&self) -> ComplexSoundModel {
        ComplexSoundModel {
            blocks: blocks_view(self.blocks@),
            edges: self.edges@,
            order: self.order@,
            id: self.id,
            is_muted: self.is_muted,
            is_paused: self.is_paused,
        }
    }
}

impl ComplexSound {
    /// Creates a new graph-backed sound holding only its two gain nodes:
    /// handle 0 scales external input by `input_gain`, handle 1 scales the
    /// graph's result by `output_gain`.
    pub fn new(input_gain: Sample, output_gain: Sample) -> (r: ComplexSound)
        ensures
            r@.wf(),
            r@.blocks.len() == 2,
            r@.blocks[0] == (BlockModel {
                g: GenUnitModel::Zero(Zero {  }),
                m: ModUnitModel::Gain(Gain { a: input_gain }),
                i: Interactor::ModifierPassthrough,
                input: Sample::spec_zero(),
            }),
            r@.blocks[1] == (BlockModel {
                g: GenUnitModel::Zero(Zero {  }),
                m: ModUnitModel::Gain(Gain { a: output_gain }),
                i: Interactor::ModifierPassthrough,
                input: Sample::spec_zero(),
            }),
            r@.edges.len() == 0,
            r@.order =~= seq![0usize, 1usize],
            r@.id.is_none(),
            !r@.is_muted,
            !r@.is_paused,
    {
        let mut blocks: Vec<StandardBlock> = Vec::new();
        blocks.push(StandardBlock::from_modifier(ModifierUnit::Gain(Gain::new(input_gain))));
        blocks.push(StandardBlock::from_modifier(ModifierUnit::Gain(Gain::new(output_gain))));
        let mut order: Vec<usize> = Vec::new();
        order.push(0);
        order.push(1);
        proof {
            assert forall|v: usize| v < 2 implies #[trigger] order@.contains(v) by {
                if v == 0 {
                    assert(order@[0] == v);
                } else {
                    assert(order@[1] == v);
                }
            }
        }
        ComplexSound {
            blocks,
            edges: Vec::new(),
            order,
            id: None,
            is_muted: false,
            is_paused: false,
        }
    }

    /// The handle of the node holding the input gain.
    pub fn get_input_gain(&self) -> (r: usize)
        ensures
            r == 0,
    {
        0
    }

    /// The handle of the node holding the output gain.
    pub fn get_output_gain(&self) -> (r: usize)
        ensures
            r == 1,
    {
        1
    }

    /// Adds a new node to the graph holding the given block and returns its
    /// handle. The process order is recomputed to cover the new node.
    pub fn add_block(&mut self, block: StandardBlock) -> (r: usize)
        requires
            old(self)@.wf(),
        ensures
            r == old(self)@.blocks.len(),
            final(self)@.blocks =~= old(self)@.blocks.push(block@),
            final(self)@.edges == old(self)@.edges,
            final(self)@.id == old(self)@.id,
            final(self)@.is_muted == old(self)@.is_muted,
            final(self)@.is_paused == old(self)@.is_paused,
            final(self)@.wf(),
    {
        let r = self.blocks.len();
        let ghost oldblocks = self.blocks@;
        self.blocks.push(block);
        proof {
            assert(blocks_view(self.blocks@) =~= blocks_view(oldblocks).push(block@));
        }
        let order = compute_order(self.blocks.len(), &self.edges, 0, 1);
        self.order = order;
        r
    }

    /// Adds a connection (edge) between the two given node handles; adding
    /// an edge that already exists is a no-op. The process order is
    /// recomputed.
    pub fn add_connection(&mut self, from: usize, to: usize)
        requires
            old(self)@.wf(),
            from < old(self)@.blocks.len(),
            to < old(self)@.blocks.len(),
        ensures
            final(self)@.blocks == old(self)@.blocks,
            final(self)@.edges =~= (if old(self)@.edges.contains((from, to)) {
                old(self)@.edges
            } else {
                old(self)@.edges.push((from, to))
            }),
            final(self)@.id == old(self)@.id,
            final(self)@.is_muted == old(self)@.is_muted,
            final(self)@.is_paused == old(self)@.is_paused,
            final(self)@.wf(),
    {
        let mut present = false;
        let mut e: usize = 0;
        while e < self.edges.len()
            invariant
                e <= self.edges@.len(),
                present <==> self.edges@.take(e as int).contains((from, to)),
            decreases self.edges@.len() - e,
        {
            proof {
                assert(self.edges@.take(e as int + 1) =~= self.edges@.take(e as int).push(
                    self.edges@[e as int],
                ));
                vstd::seq_lib::lemma_seq_contains_after_push(
                    self.edges@.take(e as int),
                    self.edges@[e as int],
                    (from, to),
                );
            }
            if self.edges[e].0 == from && self.edges[e].1 == to {
                present = true;
            }
            e = e + 1;
        }
        proof {
            assert(self.edges@.take(self.edges@.len() as int) =~= self.edges@);
        }
        if !present {
            let ghost oldedges = self.edges@;
            self.edges.push((from, to));
            proof {
                assert forall|i: int, j: int|
                    0 <= i < j < self.edges@.len() implies self.edges@[i] != self.edges@[j] by {
                    if j == self.edges@.len() - 1 {
                        if self.edges@[i] == (from, to) {
                            assert(oldedges[i] == (from, to));
                            assert(oldedges.contains((from, to)));
                        }
                    }
                }
            }
            let order = compute_order(self.blocks.len(), &self.edges, 0, 1);
            self.order = order;
        }
    }

    /// Removes the connection between the two given node handles; removing
    /// an absent edge is a no-op. The process order is recomputed.
    pub fn remove_connection(&mut self, from: usize, to: usize)
        requires
            old(self)@.wf(),
        ensures
            final(self)@.blocks == old(self)@.blocks,
            final(self)@.id == old(self)@.id,
            final(self)@.is_muted == old(self)@.is_muted,
            final(self)@.is_paused == old(self)@.is_paused,
            final(self)@.wf(),
            !final(self)@.edges.contains((from, to)),
            forall|p: (usize, usize)|
                p != (from, to) ==> (final(self)@.edges.contains(p) <==> old(
                    self,
                )@.edges.contains(p)),
    {
        let mut e: usize = 0;
        let mut hit: usize = self.edges.len();
        while e < self.edges.len()
            invariant
                e <= self.edges@.len(),
                hit <= self.edges@.len(),
                hit == self.edges@.len() ==> !self.edges@.take(e as int).contains((from, to)),
                hit < self.edges@.len() ==> self.edges@[hit as int] == (from, to),
            decreases self.edges@.len() - e,
        {
            proof {
                assert(self.edges@.take(e as int + 1) =~= self.edges@.take(e as int).push(
                    self.edges@[e as int],
                ));
                vstd::seq_lib::lemma_seq_contains_after_push(
                    self.edges@.take(e as int),
                    self.edges@[e as int],
                    (from, to),
                );
            }
            if hit == self.edges.len() && self.edges[e].0 == from && self.edges[e].1 == to {
                hit = e;
            }
            e = e + 1;
        }
        proof {
            assert(self.edges@.take(self.edges@.len() as int) =~= self.edges@);
        }
        let ghost oldedges = self.edges@;
        if hit < self.edges.len() {
            self.edges.remove(hit);
            proof {
                assert(self.edges@ =~= oldedges.take(hit as int) + oldedges.skip(hit as int + 1));
                lemma_edges_remove_unique(oldedges, hit as int, (from, to), self.edges@);
            }
            let order = compute_order(self.blocks.len(), &self.edges, 0, 1);
            self.order = order;
        } else {
            proof {
                assert(!oldedges.contains((from, to)));
            }
        }
    }

    /// Returns a copy of the process order: the node handles in the order
    /// they evaluate, a permutation of all handles from the input gain node
    /// to the output gain node.
    pub fn get_nodes(&self) -> (r: Vec<usize>)
        requires
            self@.wf(),
        ensures
            r@ == self@.order,
            is_order_perm(r@, self@.blocks.len()),
            r@[0] == 0,
            r@[r@.len() - 1] == 1,
    {
        let mut r: Vec<usize> = Vec::new();
        let mut i: usize = 0;
        while i < self.order.len()
            invariant
                i <= self.order@.len(),
                r@ =~= self.order@.take(i as int),
            decreases self.order@.len() - i,
        {
            r.push(self.order[i]);
            proof {
                assert(r@ =~= self.order@.take(i as int + 1));
            }
            i = i + 1;
        }
        proof {
            assert(r@ =~= self.order@);
        }
        r
    }
}

/// Removing one occurrence of an edge from a duplicate-free edge list
/// removes it entirely and keeps every other edge.
proof fn lemma_edges_remove_unique(
    edges: Seq<(usize, usize)>,
    hit: int,
    p0: (usize, usize),
    rest: Seq<(usize, usize)>,
)
    requires
        0 <= hit < edges.len(),
        edges[hit] == p0,
        forall|i: int, j: int| 0 <= i < j < edges.len() ==> edges[i] != edges[j],
        rest =~= edges.take(hit) + edges.skip(hit + 1),
    ensures
        !rest.contains(p0),
        forall|p: (usize, usize)| p != p0 ==> (rest.contains(p) <==> edges.contains(p)),
        forall|i: int, j: int| 0 <= i < j < rest.len() ==> rest[i] != rest[j],
        forall|e: int| 0 <= e < rest.len() ==> edges.contains(#[trigger] rest[e]),
{
    assert forall|e: int| 0 <= e < rest.len() implies edges.contains(#[trigger] rest[e]) by {
        if e < hit {
            assert(edges[e] == rest[e]);
        } else {
            assert(edges[e + 1] == rest[e]);
        }
    }
    if rest.contains(p0) {
        let w = choose|i: int| 0 <= i < rest.len() && rest[i] == p0;
        if w < hit {
            assert(edges[w] == p0);
        } else {
            assert(edges[w + 1] == p0);
        }
    }
    assert forall|p: (usize, usize)| p != p0 implies (rest.contains(p) <==> edges.contains(
        p,
    )) by {
        if rest.contains(p) {
            let w = choose|i: int| 0 <= i < rest.len() && rest[i] == p;
            if w < hit {
                assert(edges[w] == p);
            } else {
                assert(edges[w + 1] == p);
            }
        }
        if edges.contains(p) {
            let w = choose|i: int| 0 <= i < edges.len() && edges[i] == p;
            if w < hit {
                assert(rest[w] == p);
            } else if w > hit {
                assert(rest[w - 1] == p);
            }
        }
    }
}


impl Sound for ComplexSound {
    open spec fn muted(&self) -> bool {
        self@.is_muted
    }

    open spec fn paused(&self) -> bool {
        self@.is_paused
    }

    open spec fn reg_id(&self) -> Option<usize> {
        self@.id
    }

    fn toggle_pause(&mut self)
        ensures
            final(self)@ == (ComplexSoundModel {
                is_paused: !old(self)@.is_paused,
                ..old(self)@
            }),
    {
        self.is_paused = !self.is_paused;
    }

    fn is_paused(&self) -> (r: bool)
        ensures
            r == self.paused(),
    {
        self.is_paused
    }

    fn toggle_mute(&mut self)
        ensures
            final(self)@ == (ComplexSoundModel {
                is_muted: !old(self)@.is_muted,
                ..old(self)@
            }),
    {
        self.is_muted = !self.is_muted;
    }

    fn is_muted(&self) -> (r: bool)
        ensures
            r == self.muted(),
    {
        self.is_muted
    }

    fn register(&mut self, id: usize)
        ensures
            final(self)@ == (ComplexSoundModel { id: Some(id), ..old(self)@ }),
    {
        self.id = Some(id);
    }

    fn unregister(&mut self)
        ensures
            final(self)@ == (ComplexSoundModel { id: None, ..old(self)@ }),
    {
        self.id = None;
    }

    fn get_id(&self) -> (r: Option<usize>)
        ensures
            r == self.reg_id(),
    {
        self.id
    }

    /// Evaluates the graph once: the input primes the input gain node,
    /// every node processes in the cached order (each output priming the
    /// node's direct successors), and the output gain node's result — the
    /// last in the order — is returned, silenced if the sound is muted.
    fn process(&mut self, input: Sample) -> (out: Sample)
        ensures
            old(self)@.wf() ==> final(self)@ == sound_step(old(self)@, input).0,
            old(self)@.wf() ==> out == sound_step(old(self)@, input).1,
    {
        if self.is_paused {
            return Sample::zero();
        }
        let ghost m0 = self@;
        if self.blocks.len() >= 1 {
            self.blocks[0].prime_input(input);
        }
        let ghost primed = m0.blocks.update(0, block_primed(m0.blocks[0], input));
        proof {
            if m0.wf() {
                lemma_blocks_view_update(
                    old(self).blocks@,
                    0,
                    self.blocks@[0],
                );
                assert(blocks_view(self.blocks@) =~= primed);
            }
        }
        let mut out = Sample::zero();
        let mut i: usize = 0;
        while i < self.order.len()
            invariant
                i <= self.order@.len(),
                self.order@ == m0.order,
                self.edges@ == m0.edges,
                self.id == m0.id,
                self.is_muted == m0.is_muted,
                self.is_paused == m0.is_paused,
                self.blocks@.len() == m0.blocks.len(),
                m0.wf() ==> blocks_view(self.blocks@) == eval_run(
                    primed,
                    m0.edges,
                    m0.order,
                    i as nat,
                ).0,
                m0.wf() && i > 0 ==> out == eval_run(primed, m0.edges, m0.order, i as nat).1,
                m0.wf() && i == 0 ==> out == Sample::spec_zero(),
            decreases self.order@.len() - i,
        {
            let node = self.order[i];
            if node < self.blocks.len() {
                let ghost blocks_before = blocks_view(self.blocks@);
                let ghost raw_before = self.blocks@;
                let y = self.blocks[node].process();
                proof {
                    if m0.wf() {
                        lemma_blocks_view_update(
                            raw_before,
                            node as int,
                            self.blocks@[node as int],
                        );
                    }
                }
                proof {
                    if m0.wf() {
                        assert(blocks_view(self.blocks@) =~= blocks_before.update(
                            node as int,
                            block_step(blocks_before[node as int]).0,
                        ));
                        assert(y == block_step(blocks_before[node as int]).1);
                    }
                }
                let ghost base = blocks_view(self.blocks@);
                let mut e: usize = 0;
                while e < self.edges.len()
                    invariant
                        e <= self.edges@.len(),
                        self.edges@ == m0.edges,
                        self.order@ == m0.order,
                        self.id == m0.id,
                        self.is_muted == m0.is_muted,
                        self.is_paused == m0.is_paused,
                        node < self.blocks@.len(),
                        self.blocks@.len() == m0.blocks.len(),
                        m0.wf() ==> blocks_view(self.blocks@) == prime_targets(
                            base,
                            m0.edges,
                            node,
                            y,
                            e as nat,
                        ),
                    decreases self.edges@.len() - e,
                {
                    if self.edges[e].0 == node {
                        let t = self.edges[e].1;
                        if t < self.blocks.len() {
                            let ghost before_prime = blocks_view(self.blocks@);
                            let ghost raw_before2 = self.blocks@;
                            self.blocks[t].prime_input(y);
                            proof {
                                if m0.wf() {
                                    lemma_blocks_view_update(
                                        raw_before2,
                                        t as int,
                                        self.blocks@[t as int],
                                    );
                                    assert(blocks_view(self.blocks@) =~= before_prime.update(
                                        t as int,
                                        block_primed(before_prime[t as int], y),
                                    ));
                                }
                            }
                        }
                    }
                    e = e + 1;
                }
                out = y;
            }
            i = i + 1;
        }
        if self.is_muted {
            Sample::zero()
        } else {
            out
        }
    }
}


/// Mute silence with state continuity: muting changes only what a sound
/// returns, never how its internals advance. Processing a sound and its
/// mute-toggled twin from the same state leaves both with identical
/// internal state, so unmuting mid-stream resumes as if never muted.
pub proof fn lemma_mute_state_continuity(m: ComplexSoundModel, input: Sample)
    ensures
        sound_step(ComplexSoundModel { is_muted: !m.is_muted, ..m }, input).0
            == (ComplexSoundModel { is_muted: !m.is_muted, ..sound_step(m, input).0 }),
{
}


/// Priming downstream targets never changes how many blocks there are.
pub proof fn lemma_prime_targets_len(
    blocks: Seq<BlockModel>,
    edges: Seq<(usize, usize)>,
    node: usize,
    y: Sample,
    upto: nat,
)
    requires
        upto <= edges.len(),
        edges_wf(edges, blocks.len()),
    ensures
        prime_targets(blocks, edges, node, y, upto).len() == blocks.len(),
    decreases upto,
{
    if upto > 0 {
        lemma_prime_targets_len(blocks, edges, node, y, (upto - 1) as nat);
    }
}

/// Evaluating nodes never changes how many blocks there are.
pub proof fn lemma_eval_run_len(
    blocks: Seq<BlockModel>,
    edges: Seq<(usize, usize)>,
    order: Seq<usize>,
    k: nat,
)
    requires
        k <= order.len(),
        edges_wf(edges, blocks.len()),
        forall|i: int| 0 <= i < order.len() ==> (#[trigger] order[i]) < blocks.len(),
    ensures
        eval_run(blocks, edges, order, k).0.len() == blocks.len(),
    decreases k,
{
    if k > 0 {
        lemma_eval_run_len(blocks, edges, order, (k - 1) as nat);
        let prev = eval_run(blocks, edges, order, (k - 1) as nat);
        lemma_prime_targets_len(
            prev.0.update(order[k - 1] as int, block_step(prev.0[order[k - 1] as int]).0),
            edges,
            order[k - 1],
            block_step(prev.0[order[k - 1] as int]).1,
            edges.len(),
        );
    }
}

/// Processing a well-formed complex sound leaves it well formed: only the
/// blocks' internal state advances, never the topology or the order.
pub proof fn lemma_sound_step_wf(m: ComplexSoundModel, input: Sample)
    requires
        m.wf(),
    ensures
        sound_step(m, input).0.wf(),
{
    if !m.is_paused {
        let primed = m.blocks.update(0, block_primed(m.blocks[0], input));
        lemma_eval_run_len(primed, m.edges, m.order, m.order.len());
    }
}

} // verus!
