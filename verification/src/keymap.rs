//! A prefix tree from key sequences to bound values, matched one key at a time.
//!
//! The matcher is specified against two mathematical values: the map of bound
//! sequences and the keys accumulated since the last lookup resolved. The tree
//! itself is an arena of nodes; a node's children are found through its edge
//! list and the traversal position is the index of a node.

use vstd::prelude::*;
use crate::keyboard::Key;

verus! {

/// What one more key makes of the keys accumulated so far.
#[derive(Debug, PartialEq, Eq)]
pub enum KeyMapState<T> {
    /// The accumulated keys are exactly a bound sequence, with this value.
    Match(T),
    /// The accumulated keys are not bound but start at least one bound
    /// sequence.
    Continue,
    /// No bound sequence starts with the accumulated keys.
    NoMatch,
}

impl<T: Copy> Clone for KeyMapState<T> {
    fn clone(&self) -> (state: Self)
        ensures
            state == *self,
    {
        *self
    }
}

impl<T: Copy> Copy for KeyMapState<T> {}

/// The abstract state of a [`KeyMap`].
pub struct KeyMapView<T> {
    /// Every bound sequence with its value.
    pub bindings: Map<Seq<Key>, T>,
    /// The keys accumulated by the lookups since the last one that resolved.
    pub pending: Seq<Key>,
}

/// `whole` starts with `prefix`.
pub open spec fn starts_with(whole: Seq<Key>, prefix: Seq<Key>) -> bool {
    prefix.len() <= whole.len() && whole.subrange(0, prefix.len() as int) == prefix
}

/// At least one bound sequence is longer than `keys` and starts with it.
pub open spec fn continues<T>(bindings: Map<Seq<Key>, T>, keys: Seq<Key>) -> bool {
    exists|longer: Seq<Key>|
        {
            &&& bindings.contains_key(longer)
            &&& keys.len() < longer.len()
            &&& #[trigger] starts_with(longer, keys)
        }
}

/// The state of a lookup that has accumulated `keys`.
///
/// An exact match wins over a continuation: a sequence that is bound resolves
/// at once, also where longer bound sequences start with it.
pub open spec fn resolve<T>(bindings: Map<Seq<Key>, T>, keys: Seq<Key>) -> KeyMapState<T> {
    if bindings.contains_key(keys) {
        KeyMapState::Match(bindings[keys])
    } else if continues(bindings, keys) {
        KeyMapState::Continue
    } else {
        KeyMapState::NoMatch
    }
}

/// The keys a lookup keeps once it has come to `state` on `keys`: all of them
/// while the match continues, none once it has resolved either way.
pub open spec fn carried<T>(state: KeyMapState<T>, keys: Seq<Key>) -> Seq<Key> {
    if state is Continue {
        keys
    } else {
        Seq::empty()
    }
}

/// Binding a sequence twice overwrites: the bindings are as if only the
/// second binding had been made.
pub proof fn lemma_rebinding_overwrites<T>(
    bindings: Map<Seq<Key>, T>,
    keys: Seq<Key>,
    first: T,
    second: T,
)
    ensures
        bindings.insert(keys, first).insert(keys, second) == bindings.insert(keys, second),
{
}

/// The order in which two different sequences are bound does not matter.
pub proof fn lemma_binding_order_is_irrelevant<T>(
    bindings: Map<Seq<Key>, T>,
    one: Seq<Key>,
    value: T,
    other: Seq<Key>,
    other_value: T,
)
    requires
        one != other,
    ensures
        bindings.insert(one, value).insert(other, other_value) == bindings.insert(
            other,
            other_value,
        ).insert(one, value),
{
}

/// Matching is exact: binding a sequence changes what the keys `keys`
/// resolve to only where the sequence is `keys` or starts with `keys`.
pub proof fn lemma_unrelated_binding_changes_nothing<T>(
    bindings: Map<Seq<Key>, T>,
    bound: Seq<Key>,
    value: T,
    keys: Seq<Key>,
)
    requires
        !starts_with(bound, keys),
    ensures
        resolve(bindings.insert(bound, value), keys) == resolve(bindings, keys),
{
    assert(keys.subrange(0, keys.len() as int) =~= keys);
}

struct Edge {
    key: Key,
    child: usize,
}

struct Node<T> {
    value: Option<T>,
    edges: Vec<Edge>,
}

/// Stateful matcher of key sequences against a set of bindings.
pub struct KeyMap<T> {
    /// The arena; the root is node 0.
    nodes: Vec<Node<T>>,
    /// The node reached by the keys accumulated so far.
    cursor: usize,
    /// For each node, the key sequence that leads to it from the root.
    paths: Ghost<Seq<Seq<Key>>>,
    /// The inverse of `paths`.
    index: Ghost<Map<Seq<Key>, int>>,
}

/// `node` has an edge labelled `key` that leads to `child`.
spec fn has_edge<T>(node: Node<T>, key: Key, child: int) -> bool {
    exists|j: int|
        {
            &&& 0 <= j < node.edges@.len()
            &&& (#[trigger] node.edges@[j]).key == key
            &&& node.edges@[j].child == child
        }
}

/// An edge of a node is still an edge of it after one more was added.
proof fn lemma_edge_outlasts_push<T>(before: Node<T>, after: Node<T>, key: Key, child: int)
    requires
        has_edge(before, key, child),
        after.edges@.drop_last() == before.edges@,
        after.edges@.len() > 0,
    ensures
        has_edge(after, key, child),
{
}

/// `node` has no edge labelled `key`.
spec fn lacks_edge<T>(node: Node<T>, key: Key) -> bool {
    forall|j: int| 0 <= j < node.edges@.len() ==> (#[trigger] node.edges@[j]).key != key
}

impl<T> View for KeyMap<T> {
    type V = KeyMapView<T>;

    closed spec fn view(&self) -> KeyMapView<T> {
        KeyMapView { bindings: self.bound(), pending: self.paths@[self.cursor as int] }
    }
}

impl<T> KeyMap<T> {
    /// The sequences whose node holds a value, each with that value.
    spec fn bound(&self) -> Map<Seq<Key>, T> {
        Map::new(
            |keys: Seq<Key>|
                self.index@.contains_key(keys) && self.nodes@[self.index@[keys]].value is Some,
            |keys: Seq<Key>| self.nodes@[self.index@[keys]].value.unwrap(),
        )
    }

    /// The arena is a tree rooted at node 0 and `paths` and `index` describe
    /// it: every node is reached by exactly one key sequence, every edge leads
    /// to a later node whose path is the parent's path and the edge's key, and
    /// every node but the root hangs off the node of its path's front.
    spec fn is_tree(&self) -> bool {
        &&& self.nodes@.len() >= 1
        &&& self.paths@.len() == self.nodes@.len()
        &&& self.paths@[0] == Seq::<Key>::empty()
        &&& forall|i: int|
            0 <= i < self.paths@.len() ==> {
                &&& self.index@.contains_key(#[trigger] self.paths@[i])
                &&& self.index@[self.paths@[i]] == i
            }
        &&& forall|keys: Seq<Key>| #[trigger]
            self.index@.contains_key(keys) ==> {
                &&& 0 <= self.index@[keys] < self.paths@.len()
                &&& self.paths@[self.index@[keys]] == keys
            }
        &&& forall|i: int, j: int|
            0 <= i < self.nodes@.len() && 0 <= j < self.nodes@[i].edges@.len() ==> {
                let edge = #[trigger] self.nodes@[i].edges@[j];
                &&& i < edge.child < self.nodes@.len()
                &&& self.paths@[edge.child as int] == self.paths@[i].push(edge.key)
            }
        &&& forall|keys: Seq<Key>| #[trigger]
            self.index@.contains_key(keys) && keys.len() > 0 ==> {
                let front = keys.drop_last();
                &&& self.index@.contains_key(front)
                &&& has_edge(self.nodes@[self.index@[front]], keys.last(), self.index@[keys])
            }
    }

    /// Every node without children holds a value, but for the root and for
    /// the node `except`.
    spec fn leaves_bound(&self, except: int) -> bool {
        forall|i: int|
            0 < i < self.nodes@.len() && i != except ==> {
                let node = #[trigger] self.nodes@[i];
                node.edges@.len() == 0 ==> node.value is Some
            }
    }

    /// The invariant of the matcher: its tree is sound, every branch of it
    /// ends in a binding, and the traversal position is a node of it.
    pub closed spec fn well_formed(&self) -> bool {
        &&& self.is_tree()
        &&& self.leaves_bound(0)
        &&& self.cursor < self.nodes@.len()
    }

    /// Every front part of a sequence that has a node has a node.
    proof fn lemma_front_has_node(&self, keys: Seq<Key>, n: int)
        requires
            self.is_tree(),
            self.index@.contains_key(keys),
            0 <= n <= keys.len(),
        ensures
            self.index@.contains_key(keys.subrange(0, n)),
        decreases keys.len() - n,
    {
        if n == keys.len() {
            assert(keys.subrange(0, n) =~= keys);
        } else {
            self.lemma_front_has_node(keys.drop_last(), n);
            assert(keys.drop_last().subrange(0, n) =~= keys.subrange(0, n));
        }
    }

    /// Where a node has no edge for `key`, no node lies at or below the
    /// node's path extended by `key`.
    proof fn lemma_nothing_below_missing_edge(&self, node: int, key: Key, keys: Seq<Key>)
        requires
            self.is_tree(),
            0 <= node < self.nodes@.len(),
            lacks_edge(self.nodes@[node], key),
            starts_with(keys, self.paths@[node].push(key)),
        ensures
            !self.index@.contains_key(keys),
    {
        let front = self.paths@[node].push(key);
        if self.index@.contains_key(keys) {
            self.lemma_front_has_node(keys, front.len() as int);
            assert(front.drop_last() =~= self.paths@[node]);
        }
    }

    /// Below every node but the root lies a binding: a bound sequence starts
    /// with the node's path, and is longer than it where the node itself
    /// holds no value.
    proof fn lemma_binding_below(&self, node: int) -> (keys: Seq<Key>)
        requires
            self.is_tree(),
            self.leaves_bound(0),
            0 < node < self.nodes@.len(),
        ensures
            self.bound().contains_key(keys),
            starts_with(keys, self.paths@[node]),
            self.nodes@[node].value is None ==> self.paths@[node].len() < keys.len(),
        decreases self.nodes@.len() - node,
    {
        let path = self.paths@[node];
        let depth = path.len() as int;
        if self.nodes@[node].value is Some {
            assert(path.subrange(0, depth) =~= path);
            path
        } else {
            let edge = self.nodes@[node].edges@[0];
            let keys = self.lemma_binding_below(edge.child as int);
            let below = self.paths@[edge.child as int];
            assert(keys.subrange(0, depth) =~= below.subrange(0, depth));
            assert(below.subrange(0, depth) =~= path);
            keys
        }
    }

    /// A matcher with no binding, positioned at the root.
    pub fn new() -> (keymap: Self)
        ensures
            keymap.well_formed(),
            keymap@.bindings == Map::<Seq<Key>, T>::empty(),
            keymap@.pending == Seq::<Key>::empty(),
    {
        let mut nodes: Vec<Node<T>> = Vec::new();
        nodes.push(Node { value: None, edges: Vec::new() });
        let ghost root = Seq::<Key>::empty();
        KeyMap {
            nodes,
            cursor: 0,
            paths: Ghost(Seq::empty().push(root)),
            index: Ghost(Map::empty().insert(root, 0)),
        }
    }

    /// The child that `node` has for `key`, if it has one.
    fn find_child(&self, node: usize, key: Key) -> (found: Option<usize>)
        requires
            node < self.nodes@.len(),
        ensures
            found matches Some(child) ==> has_edge(self.nodes@[node as int], key, child as int),
            found is None ==> lacks_edge(self.nodes@[node as int], key),
    {
        let edges = &self.nodes[node].edges;
        let mut j: usize = 0;
        while j < edges.len()
            invariant
                node < self.nodes@.len(),
                *edges == self.nodes@[node as int].edges,
                j <= edges@.len(),
                forall|k: int| 0 <= k < j ==> (#[trigger] edges@[k]).key != key,
            decreases edges@.len() - j,
        {
            if edges[j].key == key {
                return Some(edges[j].child);
            }
            j += 1;
        }
        None
    }

    /// Hangs a new, empty node below `parent` on an edge labelled `key` and
    /// returns it. No binding changes; the new node is the only leaf that may
    /// be left without a value.
    fn add_child(&mut self, parent: usize, key: Key) -> (child: usize)
        requires
            old(self).is_tree(),
            old(self).cursor < old(self).nodes@.len(),
            parent < old(self).nodes@.len(),
            lacks_edge(old(self).nodes@[parent as int], key),
        ensures
            final(self).is_tree(),
            final(self).cursor == old(self).cursor,
            final(self)@ == old(self)@,
            final(self).nodes@.len() == old(self).nodes@.len() + 1,
            child < final(self).nodes@.len(),
            final(self).paths@[child as int] == old(self).paths@[parent as int].push(key),
            old(self).leaves_bound(parent as int) ==> final(self).leaves_bound(child as int),
    {
        let child: usize = self.nodes.len();
        let ghost path = self.paths@[parent as int].push(key);
        proof {
            assert(path.subrange(0, path.len() as int) =~= path);
            self.lemma_nothing_below_missing_edge(parent as int, key, path);
        }
        self.nodes.push(Node { value: None, edges: Vec::new() });
        self.nodes[parent].edges.push(Edge { key, child });
        self.paths = Ghost(self.paths@.push(path));
        self.index = Ghost(self.index@.insert(path, child as int));
        proof {
            let before = *old(self);
            let above = before.nodes@[parent as int];
            let grown = self.nodes@[parent as int];
            assert(path.drop_last() =~= before.paths@[parent as int]);
            assert forall|keys: Seq<Key>| #[trigger]
                self.index@.contains_key(keys) && keys.len() > 0 implies {
                let front = keys.drop_last();
                &&& self.index@.contains_key(front)
                &&& has_edge(self.nodes@[self.index@[front]], keys.last(), self.index@[keys])
            } by {
                if keys == path {
                    assert(grown.edges@[above.edges@.len() as int].key == key);
                } else if before.index@[keys.drop_last()] == parent {
                    assert(grown.edges@.drop_last() =~= above.edges@);
                    lemma_edge_outlasts_push(above, grown, keys.last(), before.index@[keys]);
                }
            }
            assert(self.bound() =~= before.bound());
        }
        child
    }

    /// Binds the one-key sequence `key` to `value`.
    ///
    /// An earlier binding of the same sequence is overwritten; every other
    /// binding and the traversal position stay as they are.
    pub fn bind_key(&mut self, key: Key, value: T)
        requires
            old(self).well_formed(),
        ensures
            final(self).well_formed(),
            final(self)@.bindings == old(self)@.bindings.insert(seq![key], value),
            final(self)@.pending == old(self)@.pending,
    {
        let keys: [Key; 1] = [key];
        assert(keys@ =~= seq![key]);
        self.bind_keys(&keys, value);
    }

    /// Binds the sequence `keys` to `value`.
    ///
    /// An earlier binding of the same sequence is overwritten; every other
    /// binding and the traversal position stay as they are. A sequence may be
    /// bound whether or not it starts, or is the start of, another bound
    /// sequence.
    pub fn bind_keys(&mut self, keys: &[Key], value: T)
        requires
            old(self).well_formed(),
            keys@.len() > 0,
        ensures
            final(self).well_formed(),
            final(self)@.bindings == old(self)@.bindings.insert(keys@, value),
            final(self)@.pending == old(self)@.pending,
    {
        let mut node: usize = 0;
        let mut i: usize = 0;
        while i < keys.len()
            invariant
                i <= keys@.len(),
                self.is_tree(),
                self.leaves_bound(node as int),
                self.cursor < self.nodes@.len(),
                node < self.nodes@.len(),
                self.paths@[node as int] == keys@.subrange(0, i as int),
                self@ == old(self)@,
            decreases keys@.len() - i,
        {
            let key = keys[i];
            match self.find_child(node, key) {
                Some(child) => {
                    node = child;
                },
                None => {
                    node = self.add_child(node, key);
                },
            }
            i += 1;
        }
        proof {
            assert(keys@.subrange(0, i as int) =~= keys@);
        }
        self.nodes[node].value = Some(value);
    }
}

impl<T: Copy> KeyMap<T> {
    /// Feeds one key to the lookup in progress and says what has become of it.
    ///
    /// The key is added to the keys accumulated so far. Where they are now a
    /// bound sequence, its value is returned; where they start a longer bound
    /// sequence, the lookup continues with the next key; otherwise it has
    /// failed. After a match and after a failure the next key starts a new
    /// lookup at the root.
    pub fn check_key(&mut self, key: Key) -> (state: KeyMapState<T>)
        requires
            old(self).well_formed(),
        ensures
            final(self).well_formed(),
            final(self)@.bindings == old(self)@.bindings,
            state == resolve(old(self)@.bindings, old(self)@.pending.push(key)),
            final(self)@.pending == carried(state, old(self)@.pending.push(key)),
    {
        let ghost keys = self@.pending.push(key);
        match self.find_child(self.cursor, key) {
            Some(child) => {
                let value: Option<T> = self.nodes[child].value;
                match value {
                    Some(value) => {
                        self.cursor = 0;
                        KeyMapState::Match(value)
                    },
                    None => {
                        proof {
                            self.lemma_binding_below(child as int);
                        }
                        self.cursor = child;
                        KeyMapState::Continue
                    },
                }
            },
            None => {
                proof {
                    assert forall|longer: Seq<Key>| #[trigger]
                        starts_with(longer, keys) implies !self.bound().contains_key(longer) by {
                        self.lemma_nothing_below_missing_edge(self.cursor as int, key, longer);
                    }
                    assert(keys.subrange(0, keys.len() as int) =~= keys);
                    assert(starts_with(keys, keys));
                }
                self.cursor = 0;
                KeyMapState::NoMatch
            },
        }
    }
}

} // verus!
