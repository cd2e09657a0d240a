use vstd::prelude::*;
use crate::ArtKey;
use crate::lemmas::{
    lemma_first_at, lemma_first_is_last, lemma_first_none, lemma_first_prepend, lemma_first_push,
    lemma_last_push, lemma_prepend_no_duplicates, lemma_push_no_duplicates,
};

verus! {

/// The longest compressed path prefix that an inner node stores.
pub const MAX_PREFIX_LEN: usize = 10;

/// The largest size, in bytes, of a key or value that a leaf stores inline.
pub const SMALL_STRUCT: usize = 8;

/// The mark of a byte without a child in a 48-wide node.
const EMPTY_CELL: u8 = 0;

/// A value small enough to be kept inline in a leaf, beside the other half of the pair.
#[derive(Debug)]
pub struct SmallStruct<T> {
    storage: T,
}

impl<T> View for SmallStruct<T> {
    type V = T;

    closed spec fn view(&self) -> T {
        self.storage
    }
}

impl<T> SmallStruct<T> {
    /// Stores `elem` inline; only values of at most `SMALL_STRUCT` bytes fit.
    pub fn new(elem: T) -> (r: Self)
        requires
            vstd::layout::size_of::<T>() <= SMALL_STRUCT,
        ensures
            r@ == elem,
    {
        SmallStruct { storage: elem }
    }

    /// The stored value.
    pub fn reference(&self) -> (r: &T)
        ensures
            *r == self@,
    {
        &self.storage
    }
}

/// A node of the tree: empty, an inner node of one of four widths, or a leaf
/// that holds a key and its value, each either boxed or inline.
#[derive(Debug)]
pub enum ArtNode<K, V> {
    Empty,
    Inner4(Box<ArtNode4<K, V>>),
    Inner16(Box<ArtNode16<K, V>>),
    Inner48(Box<ArtNode48<K, V>>),
    Inner256(Box<ArtNode256<K, V>>),
    LeafLarge(Box<(K, V)>),
    LeafLargeKey(Box<K>, SmallStruct<V>),
    LeafLargeValue(SmallStruct<K>, Box<V>),
    LeafSmall(SmallStruct<K>, SmallStruct<V>),
}

/// What every inner node keeps: its number of children and its compressed path prefix.
#[derive(Debug)]
pub struct ArtNodeBase {
    pub num_children: u16,
    pub partial_len: usize,
    pub partial: [u8; MAX_PREFIX_LEN],
}

/// Inner node with up to 4 children, keyed by the bytes in `keys[..num_children]`.
#[derive(Debug)]
pub struct ArtNode4<K, V> {
    pub n: ArtNodeBase,
    pub keys: [u8; 4],
    pub children: Vec<ArtNode<K, V>>,
}

/// Inner node with up to 16 children, keyed by the bytes in `keys[..num_children]`.
#[derive(Debug)]
pub struct ArtNode16<K, V> {
    pub n: ArtNodeBase,
    pub keys: [u8; 16],
    pub children: Vec<ArtNode<K, V>>,
}

/// Inner node with up to 48 children; `keys[b]` is 0 where byte `b` has no child,
/// and one more than the child's position otherwise.
#[derive(Debug)]
pub struct ArtNode48<K, V> {
    pub n: ArtNodeBase,
    pub keys: [u8; 256],
    pub children: Vec<ArtNode<K, V>>,
}

/// Inner node with one slot per byte; a slot that holds `Empty` has no child.
#[derive(Debug)]
pub struct ArtNode256<K, V> {
    pub n: ArtNodeBase,
    pub children: Vec<ArtNode<K, V>>,
}

impl<K, V> ArtNode<K, V> {
    /// The node is a leaf, holding a key and a value.
    pub open spec fn is_leaf(&self) -> bool {
        ||| self is LeafLarge
        ||| self is LeafLargeKey
        ||| self is LeafLargeValue
        ||| self is LeafSmall
    }

    /// The key that a leaf holds.
    pub open spec fn leaf_key(&self) -> K
        recommends
            self.is_leaf(),
    {
        match self {
            ArtNode::LeafLarge(b) => b.0,
            ArtNode::LeafLargeKey(k, _) => **k,
            ArtNode::LeafLargeValue(k, _) => k@,
            ArtNode::LeafSmall(k, _) => k@,
            _ => arbitrary(),
        }
    }

    /// The value that a leaf holds.
    pub open spec fn leaf_value(&self) -> V
        recommends
            self.is_leaf(),
    {
        match self {
            ArtNode::LeafLarge(b) => b.1,
            ArtNode::LeafLargeKey(_, v) => v@,
            ArtNode::LeafLargeValue(_, v) => **v,
            ArtNode::LeafSmall(_, v) => v@,
            _ => arbitrary(),
        }
    }
}

impl<K: ArtKey, V> ArtNode<K, V> {
    /// The key of a leaf; only a leaf holds one.
    #[inline]
    pub fn key(&self) -> (r: &K)
        requires
            self.is_leaf(),
        ensures
            *r == self.leaf_key(),
    {
        match self {
            ArtNode::LeafLarge(ptr) => &ptr.0,
            ArtNode::LeafLargeKey(key_ptr, _) => &**key_ptr,
            ArtNode::LeafLargeValue(key_small, _) => key_small.reference(),
            ArtNode::LeafSmall(key_small, _) => key_small.reference(),
            _ => vstd::pervasive::unreached(),
        }
    }

    /// A leaf holding `key` and `value`; a half larger than `SMALL_STRUCT` bytes
    /// is boxed, a smaller one is kept inline.
    #[inline]
    pub fn new_leaf(key: K, value: V) -> (r: ArtNode<K, V>)
        ensures
            r.is_leaf(),
            r.leaf_key() == key,
            r.leaf_value() == value,
            (r is LeafLarge || r is LeafLargeKey) <==> vstd::layout::size_of::<K>() > SMALL_STRUCT,
            (r is LeafLarge || r is LeafLargeValue) <==> vstd::layout::size_of::<V>() > SMALL_STRUCT,
    {
        if core::mem::size_of::<K>() > SMALL_STRUCT {
            if core::mem::size_of::<V>() > SMALL_STRUCT {
                ArtNode::LeafLarge(Box::new((key, value)))
            } else {
                ArtNode::LeafLargeKey(Box::new(key), SmallStruct::new(value))
            }
        } else {
            if core::mem::size_of::<V>() > SMALL_STRUCT {
                ArtNode::LeafLargeValue(SmallStruct::new(key), Box::new(value))
            } else {
                ArtNode::LeafSmall(SmallStruct::new(key), SmallStruct::new(value))
            }
        }
    }
}

/// The bytes of a key, read from position `depth` on, agree with the stored
/// prefix `partial` in its first `j` places.
pub open spec fn prefix_agrees(key: Seq<u8>, partial: Seq<u8>, depth: int, j: int) -> bool {
    forall|i: int| 0 <= i < j ==> key[i + depth] == partial[i]
}

impl ArtNodeBase {
    /// A base with no children and an empty prefix.
    pub fn new() -> (r: Self)
        ensures
            r.num_children == 0,
            r.partial_len == 0,
            forall|i: int| 0 <= i < MAX_PREFIX_LEN ==> r.partial[i] == 0,
    {
        ArtNodeBase { num_children: 0, partial_len: 0, partial: [0u8; MAX_PREFIX_LEN] }
    }

    /// Every place that the prefix comparison reaches is in bounds: the
    /// stored prefix holds it and the key has a byte there.
    pub open spec fn prefix_match_in_bounds(&self, key: Seq<u8>, depth: int) -> bool {
        forall|j: int|
            0 <= j < self.partial_len && #[trigger] prefix_agrees(key, self.partial@, depth, j)
                ==> j < MAX_PREFIX_LEN && j + depth < key.len()
    }

    /// The number of leading bytes of the stored prefix that agree with the
    /// key's bytes from `depth` on (at most `partial_len`).
    pub fn compute_prefix_match<K: ArtKey>(&self, key: &K, depth: usize) -> (r: usize)
        requires
            self.prefix_match_in_bounds(key.key_bytes(), depth as int),
        ensures
            r <= self.partial_len,
            prefix_agrees(key.key_bytes(), self.partial@, depth as int, r as int),
            r < self.partial_len ==> key.key_bytes()[r + depth] != self.partial[r as int],
    {
        let bytes = key.bytes();
        let bytes_len = bytes.len();
        for i in 0..self.partial_len
            invariant
                bytes@ == key.key_bytes(),
                bytes_len == bytes@.len(),
                self.prefix_match_in_bounds(bytes@, depth as int),
                prefix_agrees(bytes@, self.partial@, depth as int, i as int),
        {
            if bytes[i + depth] != self.partial[i] {
                return i;
            }
        }
        self.partial_len
    }
}

/// The operations that every inner node offers.
///
/// Each node is seen as a partial map from bytes to children (`child`); on a
/// `tidy` node (distinct keys, no `Empty` child) this map is exactly what
/// `add_child`, `grow_and_add` and the lookups build and read.
pub trait ArtNodeTrait<K, V>: Sized {
    /// The node's internal invariant.
    spec fn wf(&self) -> bool;

    /// The child that `byte` leads to, if any.
    spec fn child(&self, byte: u8) -> Option<ArtNode<K, V>>;

    /// Keys are distinct and no reachable child is `Empty`.
    spec fn tidy(&self) -> bool;

    /// The node's base (child count and prefix).
    spec fn base_spec(&self) -> ArtNodeBase;

    /// The same node with its base replaced by `b`.
    spec fn with_base(&self, b: ArtNodeBase) -> Self;

    /// The node is at its capacity.
    spec fn spec_is_full(&self) -> bool;

    /// `add_child` can store one more child under `byte`.
    spec fn can_add(&self, byte: u8) -> bool;

    /// `grow_and_add` can move the node into the next wider kind.
    spec fn can_grow(&self) -> bool;

    /// `find_child_mut` has a slot for `byte`.
    spec fn can_find_mut(&self, byte: u8) -> bool;

    /// The slot that `find_child_mut` hands out for `byte`.
    spec fn slot(&self, byte: u8) -> ArtNode<K, V>;

    /// `after` is this node with the slot for `byte` holding `c`, all else unchanged.
    spec fn slot_replaced(&self, after: &Self, byte: u8, c: ArtNode<K, V>) -> bool;

    /// Stores `node` as a child under `byte`.
    fn add_child(&mut self, node: ArtNode<K, V>, byte: u8)
        requires
            old(self).wf(),
            old(self).can_add(byte),
        ensures
            final(self).wf(),
            final(self).base_spec().num_children == old(self).base_spec().num_children + 1,
            final(self).base_spec().partial_len == old(self).base_spec().partial_len,
            final(self).base_spec().partial == old(self).base_spec().partial,
            forall|b: u8| b != byte ==> final(self).child(b) == old(self).child(b),
            old(self).child(byte) is None && !(node is Empty) ==> final(self).child(byte) == Some(
                node,
            ),
            old(self).tidy() && old(self).child(byte) is None && !(node is Empty)
                ==> final(self).tidy(),
    ;

    /// Whether the node has reached its capacity.
    fn is_full(&self) -> (r: bool)
        requires
            self.wf(),
        ensures
            r == self.spec_is_full(),
            !r ==> forall|b: u8| self.can_add(b),
    ;

    /// Moves the children into a node of the next wider kind and adds `leaf` under `byte`.
    fn grow_and_add(self, leaf: ArtNode<K, V>, byte: u8) -> (r: ArtNode<K, V>)
        requires
            self.wf(),
            self.can_grow(),
        ensures
            r.inner_wf(),
            r.inner_base().partial_len == self.base_spec().partial_len,
            r.inner_base().partial == self.base_spec().partial,
            self.tidy() && self.child(byte) is None && !(leaf is Empty) ==> {
                &&& r.inner_tidy()
                &&& forall|b: u8|
                    #[trigger] r.inner_child(b) == if b == byte {
                        Some(leaf)
                    } else {
                        self.child(b)
                    }
            },
    ;

    /// Mutable access to the base.
    fn mut_base(&mut self) -> (r: &mut ArtNodeBase)
        ensures
            *r == old(self).base_spec(),
            *final(self) == old(self).with_base(*final(r)),
    ;

    /// The base.
    fn base(&self) -> (r: &ArtNodeBase)
        ensures
            *r == self.base_spec(),
    ;

    /// Mutable access to the slot for `byte`; only kinds that have a slot there hand one out.
    fn find_child_mut(&mut self, byte: u8) -> (r: &mut ArtNode<K, V>)
        requires
            old(self).wf(),
            old(self).can_find_mut(byte),
        ensures
            *r == old(self).slot(byte),
            old(self).child(byte) matches Some(c) ==> *r == c,
            old(self).slot_replaced(&*final(self), byte, *final(r)),
            final(self).wf(),
            final(self).base_spec() == old(self).base_spec(),
            forall|b: u8| b != byte ==> final(self).child(b) == old(self).child(b),
            !(*final(r) is Empty) ==> final(self).child(byte) == Some(*final(r)),
    ;

    /// The child under `byte`, if any.
    fn find_child(&self, byte: u8) -> (r: Option<&ArtNode<K, V>>)
        requires
            self.wf(),
        ensures
            match r {
                Some(c) => self.child(byte) == Some(*c),
                None => self.child(byte) is None,
            },
    ;

    /// Whether there is a child under `byte`.
    fn has_child(&self, byte: u8) -> (r: bool)
        requires
            self.wf(),
        ensures
            r == self.child(byte) is Some,
    ;

    /// Wraps the boxed node as a tree node.
    fn to_art_node(self: Box<Self>) -> (r: ArtNode<K, V>)
        ensures
            r.inner_base() == self.base_spec(),
            forall|b: u8| #[trigger] r.inner_child(b) == self.child(b),
            self.wf() ==> r.inner_wf(),
            self.tidy() ==> r.inner_tidy(),
    ;
}

impl<K, V> ArtNode<K, V> {
    /// The child under `byte` of an inner node; `None` for any other node.
    pub open spec fn inner_child(&self, byte: u8) -> Option<ArtNode<K, V>> {
        match self {
            ArtNode::Inner4(n) => n.lookup(byte),
            ArtNode::Inner16(n) => n.lookup(byte),
            ArtNode::Inner48(n) => n.lookup(byte),
            ArtNode::Inner256(n) => n.lookup(byte),
            _ => None,
        }
    }

    /// The node is an inner node that meets its invariant.
    pub open spec fn inner_wf(&self) -> bool {
        match self {
            ArtNode::Inner4(n) => n.well_formed(),
            ArtNode::Inner16(n) => n.well_formed(),
            ArtNode::Inner48(n) => n.well_formed(),
            ArtNode::Inner256(n) => n.well_formed(),
            _ => false,
        }
    }

    /// The node is an inner node whose keys are distinct and whose children are not `Empty`.
    pub open spec fn inner_tidy(&self) -> bool {
        match self {
            ArtNode::Inner4(n) => n.is_tidy(),
            ArtNode::Inner16(n) => n.is_tidy(),
            ArtNode::Inner48(n) => n.is_tidy(),
            ArtNode::Inner256(n) => n.is_tidy(),
            _ => false,
        }
    }

    /// The base of an inner node.
    pub open spec fn inner_base(&self) -> ArtNodeBase
        recommends
            self is Inner4 || self is Inner16 || self is Inner48 || self is Inner256,
    {
        match self {
            ArtNode::Inner4(n) => n.n,
            ArtNode::Inner16(n) => n.n,
            ArtNode::Inner48(n) => n.n,
            ArtNode::Inner256(n) => n.n,
            _ => arbitrary(),
        }
    }
}

impl<K, V> Default for ArtNode<K, V> {
    fn default() -> (r: Self)
        ensures
            r is Empty,
    {
        ArtNode::Empty
    }
}

} // verus!

verus! {

impl<K, V> ArtNode256<K, V> {
    /// The invariant: one slot per byte.
    pub open spec fn well_formed(&self) -> bool {
        self.children@.len() == 256
    }

    /// The child under `byte`: the slot's content unless it is `Empty`.
    pub open spec fn lookup(&self, byte: u8) -> Option<ArtNode<K, V>> {
        if self.children@[byte as int] is Empty {
            None
        } else {
            Some(self.children@[byte as int])
        }
    }

    /// Always: each byte has its own slot.
    pub open spec fn is_tidy(&self) -> bool {
        true
    }

    /// An empty node: every slot holds `Empty`.
    pub fn new() -> (r: Self)
        ensures
            r.well_formed(),
            r.n.num_children == 0,
            r.n.partial_len == 0,
            forall|i: int| 0 <= i < 256 ==> r.children@[i] is Empty,
            forall|b: u8| r.lookup(b) is None,
    {
        let mut children: Vec<ArtNode<K, V>> = Vec::new();
        for i in 0..256usize
            invariant
                children@.len() == i,
                forall|j: int| 0 <= j < i ==> children@[j] is Empty,
        {
            children.push(ArtNode::Empty);
        }
        ArtNode256 { n: ArtNodeBase::new(), children }
    }
}

impl<K: ArtKey, V> ArtNodeTrait<K, V> for ArtNode256<K, V> {
    open spec fn wf(&self) -> bool {
        self.well_formed()
    }

    open spec fn child(&self, byte: u8) -> Option<ArtNode<K, V>> {
        self.lookup(byte)
    }

    open spec fn tidy(&self) -> bool {
        self.is_tidy()
    }

    open spec fn base_spec(&self) -> ArtNodeBase {
        self.n
    }

    open spec fn with_base(&self, b: ArtNodeBase) -> Self {
        ArtNode256 { n: b, children: self.children }
    }

    open spec fn spec_is_full(&self) -> bool {
        self.n.num_children >= 256
    }

    open spec fn can_add(&self, byte: u8) -> bool {
        self.n.num_children < u16::MAX
    }

    /// The widest node has no wider kind to grow into.
    open spec fn can_grow(&self) -> bool {
        false
    }

    open spec fn can_find_mut(&self, byte: u8) -> bool {
        true
    }

    open spec fn slot(&self, byte: u8) -> ArtNode<K, V> {
        self.children@[byte as int]
    }

    open spec fn slot_replaced(&self, after: &Self, byte: u8, c: ArtNode<K, V>) -> bool {
        &&& after.n == self.n
        &&& after.children@ == self.children@.update(byte as int, c)
    }

    fn add_child(&mut self, child: ArtNode<K, V>, byte: u8)
        ensures
            final(self).n.num_children == old(self).n.num_children + 1,
            final(self).children@ == old(self).children@.update(byte as int, child),
    {
        self.n.num_children += 1;
        self.children.set(byte as usize, child);
    }

    fn is_full(&self) -> (r: bool)
        ensures
            r == (self.n.num_children >= 256),
    {
        self.n.num_children >= 256
    }

    fn to_art_node(self: Box<Self>) -> (r: ArtNode<K, V>)
        ensures
            r == ArtNode::Inner256(self),
    {
        ArtNode::Inner256(self)
    }

    fn grow_and_add(self, _leaf: ArtNode<K, V>, _byte: u8) -> (r: ArtNode<K, V>) {
        vstd::pervasive::unreached()
    }

    fn mut_base(&mut self) -> (r: &mut ArtNodeBase) {
        &mut self.n
    }

    fn base(&self) -> (r: &ArtNodeBase) {
        &self.n
    }

    fn find_child_mut(&mut self, byte: u8) -> (r: &mut ArtNode<K, V>) {
        &mut self.children[byte as usize]
    }

    fn find_child(&self, byte: u8) -> (r: Option<&ArtNode<K, V>>) {
        match &self.children[byte as usize] {
            ArtNode::Empty => None,
            value => Some(value),
        }
    }

    fn has_child(&self, byte: u8) -> (r: bool) {
        match self.children[byte as usize] {
            ArtNode::Empty => false,
            _ => true,
        }
    }
}

} // verus!

verus! {

/// One more than the last place of `x` in `ks`, or 0 where `x` does not occur.
pub open spec fn last_mark(ks: Seq<u8>, x: u8) -> int {
    match ks.index_of_last(x) {
        Some(j) => j + 1,
        None => 0,
    }
}

/// How many of the first `n` entries of `keys` are in use (not zero).
pub open spec fn occupied(keys: Seq<u8>, n: int) -> nat
    decreases n,
{
    if n <= 0 {
        0
    } else {
        occupied(keys, n - 1) + if keys[n - 1] != 0 {
            1nat
        } else {
            0nat
        }
    }
}

impl<K, V> ArtNode48<K, V> {
    /// The invariant: every used entry of `keys` names a stored child, and no
    /// two bytes name the same one.
    pub open spec fn well_formed(&self) -> bool {
        &&& self.n.num_children <= 48
        &&& self.children@.len() == self.n.num_children
        &&& forall|b: int| 0 <= b < 256 ==> #[trigger] self.keys@[b] <= self.n.num_children
        &&& forall|b1: int, b2: int|
            0 <= b1 < 256 && 0 <= b2 < 256 && b1 != b2 && self.keys@[b1] != 0
                ==> #[trigger] self.keys@[b1] != #[trigger] self.keys@[b2]
    }

    /// The child under `byte`: the stored child that `keys[byte]` names, if any.
    pub open spec fn lookup(&self, byte: u8) -> Option<ArtNode<K, V>> {
        if self.keys@[byte as int] == 0 {
            None
        } else {
            Some(self.children@[self.keys@[byte as int] - 1])
        }
    }

    /// No byte leads to an `Empty` child.
    pub open spec fn is_tidy(&self) -> bool {
        forall|b: int|
            0 <= b < 256 && self.keys@[b] != 0 ==> !(#[trigger] self.children@[self.keys@[b]
                - 1] is Empty)
    }

    /// An empty node: no byte has a child.
    pub fn new() -> (r: Self)
        ensures
            r.well_formed(),
            r.is_tidy(),
            r.n.num_children == 0,
            r.n.partial_len == 0,
            forall|b: int| 0 <= b < 256 ==> r.keys@[b] == 0,
            forall|b: u8| r.lookup(b) is None,
    {
        ArtNode48 { n: ArtNodeBase::new(), keys: [EMPTY_CELL; 256], children: Vec::new() }
    }
}

impl<K: ArtKey, V> ArtNodeTrait<K, V> for ArtNode48<K, V> {
    open spec fn wf(&self) -> bool {
        self.well_formed()
    }

    open spec fn child(&self, byte: u8) -> Option<ArtNode<K, V>> {
        self.lookup(byte)
    }

    open spec fn tidy(&self) -> bool {
        self.is_tidy()
    }

    open spec fn base_spec(&self) -> ArtNodeBase {
        self.n
    }

    open spec fn with_base(&self, b: ArtNodeBase) -> Self {
        ArtNode48 { n: b, keys: self.keys, children: self.children }
    }

    open spec fn spec_is_full(&self) -> bool {
        self.n.num_children >= 48
    }

    open spec fn can_add(&self, byte: u8) -> bool {
        self.n.num_children < 48
    }

    open spec fn can_grow(&self) -> bool {
        true
    }

    open spec fn can_find_mut(&self, byte: u8) -> bool {
        self.keys@[byte as int] != 0
    }

    open spec fn slot(&self, byte: u8) -> ArtNode<K, V> {
        self.children@[self.keys@[byte as int] - 1]
    }

    open spec fn slot_replaced(&self, after: &Self, byte: u8, c: ArtNode<K, V>) -> bool {
        &&& after.n == self.n
        &&& after.keys == self.keys
        &&& after.children@ == self.children@.update(self.keys@[byte as int] - 1, c)
    }

    fn add_child(&mut self, child: ArtNode<K, V>, byte: u8)
        ensures
            final(self).n.num_children == old(self).n.num_children + 1,
            final(self).children@ == old(self).children@.push(child),
            final(self).keys@ == old(self).keys@.update(
                byte as int,
                (old(self).n.num_children + 1) as u8,
            ),
    {
        self.children.push(child);
        self.n.num_children += 1;
        self.keys[byte as usize] = self.n.num_children as u8;
    }

    fn is_full(&self) -> (r: bool)
        ensures
            r == (self.n.num_children >= 48),
    {
        self.n.num_children >= 48
    }

    fn to_art_node(self: Box<Self>) -> (r: ArtNode<K, V>)
        ensures
            r == ArtNode::Inner48(self),
    {
        ArtNode::Inner48(self)
    }

    fn grow_and_add(self, leaf: ArtNode<K, V>, byte: u8) -> (r: ArtNode<K, V>)
        ensures
            r matches ArtNode::Inner256(b) && {
                &&& b.n.num_children == 1 + occupied(self.keys@, 256)
                &&& b.n.partial_len == self.n.partial_len
                &&& b.n.partial == self.n.partial
                &&& forall|x: int|
                    0 <= x < 256 ==> #[trigger] b.children@[x] == if self.keys@[x] != 0 {
                        self.children@[self.keys@[x] - 1]
                    } else if x == byte {
                        leaf
                    } else {
                        ArtNode::Empty
                    }
            },
    {
        let ghost keys = self.keys@;
        let ghost kids = self.children@;
        let ghost base0 = self.n;
        let mut node = self;
        let mut new_node = ArtNode256::new();
        new_node.n.partial_len = node.n.partial_len;
        new_node.n.partial = node.n.partial;
        new_node.add_child(leaf, byte);
        for i in 0..256usize
            invariant
                node.keys@ == keys,
                node.n == base0,
                node.n.num_children == node.children@.len(),
                node.well_formed(),
                kids.len() == node.children@.len(),
                new_node.well_formed(),
                new_node.n.partial_len == node.n.partial_len,
                new_node.n.partial == node.n.partial,
                new_node.n.num_children == 1 + occupied(keys, i as int),
                occupied(keys, i as int) <= i,
                forall|x: int|
                    i <= x < 256 && keys[x] != 0 ==> #[trigger] node.children@[keys[x] - 1]
                        == kids[keys[x] - 1],
                forall|x: int|
                    0 <= x < 256 ==> #[trigger] new_node.children@[x] == if x < i && keys[x]
                        != 0 {
                        kids[keys[x] - 1]
                    } else if x == byte {
                        leaf
                    } else {
                        ArtNode::Empty
                    },
        {
            if node.keys[i] != EMPTY_CELL {
                let idx = node.keys[i] as usize - 1;
                let mut child = ArtNode::Empty;
                std::mem::swap(&mut child, &mut node.children[idx]);
                new_node.add_child(child, i as u8);
                proof {
                    assert forall|x: int|
                        i + 1 <= x < 256 && keys[x] != 0 implies #[trigger] node.children@[keys[x]
                        - 1] == kids[keys[x] - 1] by {
                        assert(keys[x] != keys[i as int]);
                    }
                }
            }
        }
        let r = ArtNode::Inner256(Box::new(new_node));
        proof {
            if self.is_tidy() && self.lookup(byte) is None && !(leaf is Empty) {
                assert forall|b: u8| #[trigger]
                    r.inner_child(b) == if b == byte {
                        Some(leaf)
                    } else {
                        self.lookup(b)
                    } by {
                    assert(b as int == byte as int ==> b == byte);
                }
            }
        }
        r
    }

    fn mut_base(&mut self) -> (r: &mut ArtNodeBase) {
        &mut self.n
    }

    fn base(&self) -> (r: &ArtNodeBase) {
        &self.n
    }

    fn find_child_mut(&mut self, byte: u8) -> (r: &mut ArtNode<K, V>) {
        let idx = self.keys[byte as usize] as usize - 1;
        &mut self.children[idx]
    }

    fn find_child(&self, byte: u8) -> (r: Option<&ArtNode<K, V>>) {
        if self.keys[byte as usize] == EMPTY_CELL {
            None
        } else {
            Some(&self.children[self.keys[byte as usize] as usize - 1])
        }
    }

    fn has_child(&self, byte: u8) -> (r: bool) {
        self.keys[byte as usize] != EMPTY_CELL
    }
}

} // verus!

verus! {

impl<K, V> ArtNode4<K, V> {
    /// The invariant: one stored child per used key.
    pub open spec fn well_formed(&self) -> bool {
        &&& self.n.num_children <= 4
        &&& self.children@.len() == self.n.num_children
    }

    /// The keys in use, in the order the children were added.
    pub open spec fn live_keys(&self) -> Seq<u8> {
        self.keys@.take(self.n.num_children as int)
    }

    /// The child under `byte`: the one at the first place where `byte` is a used key.
    pub open spec fn lookup(&self, byte: u8) -> Option<ArtNode<K, V>> {
        match self.live_keys().index_of_first(byte) {
            Some(i) => Some(self.children@[i]),
            None => None,
        }
    }

    /// Used keys are distinct and no stored child is `Empty`.
    pub open spec fn is_tidy(&self) -> bool {
        &&& self.live_keys().no_duplicates()
        &&& forall|i: int| 0 <= i < self.children@.len() ==> !(#[trigger] self.children@[i] is Empty)
    }

    /// An empty node.
    pub fn new() -> (r: Self)
        ensures
            r.well_formed(),
            r.is_tidy(),
            r.n.num_children == 0,
            r.n.partial_len == 0,
            forall|j: int| 0 <= j < 4 ==> r.keys@[j] == 0,
            forall|b: u8| r.lookup(b) is None,
    {
        let r = ArtNode4 { n: ArtNodeBase::new(), keys: [0u8; 4], children: Vec::new() };
        proof {
            assert forall|b: u8| r.lookup(b) is None by {
                lemma_first_none(r.live_keys(), b);
            }
        }
        r
    }
}

impl<K: ArtKey, V> ArtNodeTrait<K, V> for ArtNode4<K, V> {
    open spec fn wf(&self) -> bool {
        self.well_formed()
    }

    open spec fn child(&self, byte: u8) -> Option<ArtNode<K, V>> {
        self.lookup(byte)
    }

    open spec fn tidy(&self) -> bool {
        self.is_tidy()
    }

    open spec fn base_spec(&self) -> ArtNodeBase {
        self.n
    }

    open spec fn with_base(&self, b: ArtNodeBase) -> Self {
        ArtNode4 { n: b, keys: self.keys, children: self.children }
    }

    open spec fn spec_is_full(&self) -> bool {
        self.n.num_children >= 4
    }

    open spec fn can_add(&self, byte: u8) -> bool {
        self.n.num_children < 4
    }

    /// Growing moves every stored child, so it needs all of them.
    open spec fn can_grow(&self) -> bool {
        self.n.num_children == 4
    }

    open spec fn can_find_mut(&self, byte: u8) -> bool {
        self.lookup(byte) is Some
    }

    open spec fn slot(&self, byte: u8) -> ArtNode<K, V> {
        self.children@[self.live_keys().index_of_first(byte)->0]
    }

    open spec fn slot_replaced(&self, after: &Self, byte: u8, c: ArtNode<K, V>) -> bool {
        &&& after.n == self.n
        &&& after.keys == self.keys
        &&& after.children@ == self.children@.update(self.live_keys().index_of_first(byte)->0, c)
    }

    fn add_child(&mut self, child: ArtNode<K, V>, byte: u8)
        ensures
            final(self).n.num_children == old(self).n.num_children + 1,
            final(self).children@ == old(self).children@.push(child),
            final(self).keys@ == old(self).keys@.update(old(self).n.num_children as int, byte),
            final(self).live_keys() == old(self).live_keys().push(byte),
    {
        let idx = self.n.num_children as usize;
        self.children.push(child);
        self.keys[idx] = byte;
        self.n.num_children += 1;
        proof {
            let ol = old(self).live_keys();
            assert(self.live_keys() =~= ol.push(byte));
            assert forall|b: u8| b != byte implies self.lookup(b) == old(self).lookup(b) by {
                lemma_first_push(ol, byte, b);
                ol.index_of_first_ensures(b);
            }
            lemma_first_push(ol, byte, byte);
            ol.index_of_first_ensures(byte);
            if old(self).is_tidy() && old(self).lookup(byte) is None && !(child is Empty) {
                lemma_push_no_duplicates(ol, byte);
            }
        }
    }

    fn is_full(&self) -> (r: bool)
        ensures
            r ==> self.can_grow(),
            r == (self.n.num_children >= 4),
    {
        self.n.num_children >= 4
    }

    fn to_art_node(self: Box<Self>) -> (r: ArtNode<K, V>)
        ensures
            r == ArtNode::Inner4(self),
    {
        ArtNode::Inner4(self)
    }

    /// Moves the 4 children, after `leaf`, into a 16-wide node.
    fn grow_and_add(self, leaf: ArtNode<K, V>, byte: u8) -> (r: ArtNode<K, V>)
        ensures
            r matches ArtNode::Inner16(b) && {
                &&& b.n.num_children == 5
                &&& b.n.partial_len == self.n.partial_len
                &&& b.n.partial == self.n.partial
                &&& b.children@ == seq![leaf] + self.children@
                &&& b.live_keys() == seq![byte] + self.keys@
                &&& forall|j: int| 5 <= j < 16 ==> b.keys@[j] == 0
            },
            forall|x: u8| #[trigger] r.inner_child(x) == if x == byte {
                Some(leaf)
            } else {
                self.lookup(x)
            },
    {
        let ghost keys = self.keys@;
        let ghost kids = self.children@;
        let ghost base0 = self.n;
        let mut node = self;
        let mut new_node = ArtNode16::new();
        new_node.n.partial_len = node.n.partial_len;
        new_node.n.partial = node.n.partial;
        new_node.add_child(leaf, byte);
        proof {
            assert(new_node.live_keys() =~= seq![byte] + keys.take(0));
            assert(new_node.children@ =~= seq![leaf] + kids.take(0));
        }
        for i in 0..4usize
            invariant
                node.n == base0,
                node.keys@ == keys,
                node.children@.len() == 4,
                kids.len() == 4,
                forall|j: int| i <= j < 4 ==> #[trigger] node.children@[j] == kids[j],
                new_node.well_formed(),
                new_node.n.partial_len == base0.partial_len,
                new_node.n.partial == base0.partial,
                new_node.n.num_children == 1 + i,
                new_node.children@ == seq![leaf] + kids.take(i as int),
                new_node.live_keys() == seq![byte] + keys.take(i as int),
                forall|j: int| 1 + i <= j < 16 ==> new_node.keys@[j] == 0,
        {
            let mut child = ArtNode::Empty;
            std::mem::swap(&mut child, &mut node.children[i]);
            new_node.add_child(child, node.keys[i]);
            proof {
                assert(new_node.live_keys() =~= seq![byte] + keys.take(i + 1));
                assert(new_node.children@ =~= seq![leaf] + kids.take(i + 1));
            }
        }
        proof {
            assert(keys.take(4) =~= keys);
            assert(kids.take(4) =~= kids);
            assert(self.live_keys() =~= keys);
        }
        let r = ArtNode::Inner16(Box::new(new_node));
        proof {
            assert forall|x: u8| #[trigger]
                r.inner_child(x) == if x == byte {
                    Some(leaf)
                } else {
                    self.lookup(x)
                } by {
                lemma_first_prepend(byte, keys, x);
                keys.index_of_first_ensures(x);
            }
            if self.is_tidy() && self.lookup(byte) is None && !(leaf is Empty) {
                keys.index_of_first_ensures(byte);
                lemma_prepend_no_duplicates(byte, keys);
            }
        }
        r
    }

    fn mut_base(&mut self) -> (r: &mut ArtNodeBase) {
        &mut self.n
    }

    fn base(&self) -> (r: &ArtNodeBase) {
        &self.n
    }

    fn find_child_mut(&mut self, byte: u8) -> (r: &mut ArtNode<K, V>) {
        let ghost live = self.live_keys();
        proof {
            live.index_of_first_ensures(byte);
        }
        let num = self.n.num_children;
        for i in 0..num
            invariant
                num == self.n.num_children,
                self.well_formed(),
                live == self.live_keys(),
                live.contains(byte),
                *self == *old(self),
                forall|j: int| 0 <= j < i ==> live[j] != byte,
        {
            if self.keys[i as usize] == byte {
                proof {
                    lemma_first_at(live, byte, i as int);
                    assert forall|b: u8| b != byte implies (#[trigger] live.index_of_first(b) matches Some(
                        k,
                    ) ==> k != i && 0 <= k < live.len()) by {
                        live.index_of_first_ensures(b);
                    }
                }
                return &mut self.children[i as usize];
            }
        }
        proof {
            let k = choose|k: int| 0 <= k < live.len() && live[k] == byte;
        }
        vstd::pervasive::unreached()
    }

    fn find_child(&self, byte: u8) -> (r: Option<&ArtNode<K, V>>) {
        let ghost live = self.live_keys();
        let num = self.n.num_children;
        for i in 0..num
            invariant
                num == self.n.num_children,
                self.well_formed(),
                live == self.live_keys(),
                forall|j: int| 0 <= j < i ==> live[j] != byte,
        {
            if self.keys[i as usize] == byte {
                proof {
                    lemma_first_at(live, byte, i as int);
                }
                return Some(&self.children[i as usize]);
            }
        }
        proof {
            lemma_first_none(live, byte);
        }
        None
    }

    fn has_child(&self, byte: u8) -> (r: bool) {
        let ghost live = self.live_keys();
        let num = self.n.num_children;
        for i in 0..num
            invariant
                num == self.n.num_children,
                self.well_formed(),
                live == self.live_keys(),
                forall|j: int| 0 <= j < i ==> live[j] != byte,
        {
            if self.keys[i as usize] == byte {
                proof {
                    lemma_first_at(live, byte, i as int);
                }
                return true;
            }
        }
        proof {
            lemma_first_none(live, byte);
        }
        false
    }
}

} // verus!

verus! {

impl<K, V> ArtNode16<K, V> {
    /// The invariant: one stored child per used key.
    pub open spec fn well_formed(&self) -> bool {
        &&& self.n.num_children <= 16
        &&& self.children@.len() == self.n.num_children
    }

    /// The keys in use, in the order the children were added.
    pub open spec fn live_keys(&self) -> Seq<u8> {
        self.keys@.take(self.n.num_children as int)
    }

    /// The child under `byte`: the one at the first place where `byte` is a used key.
    pub open spec fn lookup(&self, byte: u8) -> Option<ArtNode<K, V>> {
        match self.live_keys().index_of_first(byte) {
            Some(i) => Some(self.children@[i]),
            None => None,
        }
    }

    /// Used keys are distinct and no stored child is `Empty`.
    pub open spec fn is_tidy(&self) -> bool {
        &&& self.live_keys().no_duplicates()
        &&& forall|i: int| 0 <= i < self.children@.len() ==> !(#[trigger] self.children@[i] is Empty)
    }

    /// An empty node.
    pub fn new() -> (r: Self)
        ensures
            r.well_formed(),
            r.is_tidy(),
            r.n.num_children == 0,
            r.n.partial_len == 0,
            forall|j: int| 0 <= j < 16 ==> r.keys@[j] == 0,
            forall|b: u8| r.lookup(b) is None,
    {
        let r = ArtNode16 { n: ArtNodeBase::new(), keys: [0u8; 16], children: Vec::new() };
        proof {
            assert forall|b: u8| r.lookup(b) is None by {
                lemma_first_none(r.live_keys(), b);
            }
        }
        r
    }
}

impl<K: ArtKey, V> ArtNodeTrait<K, V> for ArtNode16<K, V> {
    open spec fn wf(&self) -> bool {
        self.well_formed()
    }

    open spec fn child(&self, byte: u8) -> Option<ArtNode<K, V>> {
        self.lookup(byte)
    }

    open spec fn tidy(&self) -> bool {
        self.is_tidy()
    }

    open spec fn base_spec(&self) -> ArtNodeBase {
        self.n
    }

    open spec fn with_base(&self, b: ArtNodeBase) -> Self {
        ArtNode16 { n: b, keys: self.keys, children: self.children }
    }

    open spec fn spec_is_full(&self) -> bool {
        self.n.num_children >= 16
    }

    open spec fn can_add(&self, byte: u8) -> bool {
        self.n.num_children < 16
    }

    /// Growing moves every stored child, so it needs all of them.
    open spec fn can_grow(&self) -> bool {
        self.n.num_children == 16
    }

    open spec fn can_find_mut(&self, byte: u8) -> bool {
        self.lookup(byte) is Some
    }

    open spec fn slot(&self, byte: u8) -> ArtNode<K, V> {
        self.children@[self.live_keys().index_of_first(byte)->0]
    }

    open spec fn slot_replaced(&self, after: &Self, byte: u8, c: ArtNode<K, V>) -> bool {
        &&& after.n == self.n
        &&& after.keys == self.keys
        &&& after.children@ == self.children@.update(self.live_keys().index_of_first(byte)->0, c)
    }

    fn add_child(&mut self, child: ArtNode<K, V>, byte: u8)
        ensures
            final(self).n.num_children == old(self).n.num_children + 1,
            final(self).children@ == old(self).children@.push(child),
            final(self).keys@ == old(self).keys@.update(old(self).n.num_children as int, byte),
            final(self).live_keys() == old(self).live_keys().push(byte),
    {
        let idx = self.n.num_children as usize;
        self.children.push(child);
        self.keys[idx] = byte;
        self.n.num_children += 1;
        proof {
            let ol = old(self).live_keys();
            assert(self.live_keys() =~= ol.push(byte));
            assert forall|b: u8| b != byte implies self.lookup(b) == old(self).lookup(b) by {
                lemma_first_push(ol, byte, b);
                ol.index_of_first_ensures(b);
            }
            lemma_first_push(ol, byte, byte);
            ol.index_of_first_ensures(byte);
            if old(self).is_tidy() && old(self).lookup(byte) is None && !(child is Empty) {
                lemma_push_no_duplicates(ol, byte);
            }
        }
    }

    fn is_full(&self) -> (r: bool)
        ensures
            r ==> self.can_grow(),
            r == (self.n.num_children >= 16),
    {
        self.n.num_children >= 16
    }

    fn to_art_node(self: Box<Self>) -> (r: ArtNode<K, V>)
        ensures
            r == ArtNode::Inner16(self),
    {
        ArtNode::Inner16(self)
    }

    /// Moves the 16 children, after `leaf`, into a 48-wide node; where a key
    /// occurs twice the later one wins.
    fn grow_and_add(self, leaf: ArtNode<K, V>, byte: u8) -> (r: ArtNode<K, V>)
        ensures
            r matches ArtNode::Inner48(b) && {
                &&& b.n.num_children == 17
                &&& b.n.partial_len == self.n.partial_len
                &&& b.n.partial == self.n.partial
                &&& b.children@ == seq![leaf] + self.children@
                &&& forall|x: u8|
                    #[trigger] b.keys@[x as int] as int == last_mark(seq![byte] + self.keys@, x)
            },
    {
        let ghost keys = self.keys@;
        let ghost kids = self.children@;
        let ghost base0 = self.n;
        let mut node = self;
        let mut new_node = ArtNode48::new();
        new_node.n.partial_len = node.n.partial_len;
        new_node.n.partial = node.n.partial;
        new_node.add_child(leaf, byte);
        proof {
            assert forall|x: u8|
                #[trigger] new_node.keys@[x as int] as int == last_mark(seq![byte] + keys.take(0), x) by {
                assert(seq![byte] + keys.take(0) =~= Seq::<u8>::empty().push(byte));
                lemma_last_push(Seq::<u8>::empty(), byte, x);
                Seq::<u8>::empty().index_of_last_ensures(x);
            }
            assert(new_node.children@ =~= seq![leaf] + kids.take(0));
        }
        for i in 0..16usize
            invariant
                node.n == base0,
                node.keys@ == keys,
                node.children@.len() == 16,
                kids.len() == 16,
                forall|j: int| i <= j < 16 ==> #[trigger] node.children@[j] == kids[j],
                new_node.well_formed(),
                new_node.n.partial_len == base0.partial_len,
                new_node.n.partial == base0.partial,
                new_node.n.num_children == 1 + i,
                new_node.children@ == seq![leaf] + kids.take(i as int),
                forall|x: u8|
                    #[trigger] new_node.keys@[x as int] as int == last_mark(
                        seq![byte] + keys.take(i as int),
                        x,
                    ),
        {
            let ghost before = new_node.keys@;
            let mut child = ArtNode::Empty;
            std::mem::swap(&mut child, &mut node.children[i]);
            new_node.add_child(child, node.keys[i]);
            proof {
                let ks = seq![byte] + keys.take(i as int);
                assert(seq![byte] + keys.take(i + 1) =~= ks.push(keys[i as int]));
                assert forall|x: u8|
                    #[trigger] new_node.keys@[x as int] as int == last_mark(
                        seq![byte] + keys.take(i + 1),
                        x,
                    ) by {
                    lemma_last_push(ks, keys[i as int], x);
                    assert(before[x as int] as int == last_mark(ks, x));
                }
                assert(new_node.children@ =~= seq![leaf] + kids.take(i + 1));
            }
        }
        proof {
            assert(keys.take(16) =~= keys);
            assert(kids.take(16) =~= kids);
        }
        let r = ArtNode::Inner48(Box::new(new_node));
        proof {
            let ks = seq![byte] + keys;
            if self.is_tidy() && self.lookup(byte) is None && !(leaf is Empty) {
                assert(self.live_keys() =~= keys);
                keys.index_of_first_ensures(byte);
                lemma_prepend_no_duplicates(byte, keys);
                assert forall|x: u8| #[trigger]
                    r.inner_child(x) == if x == byte {
                        Some(leaf)
                    } else {
                        self.lookup(x)
                    } by {
                    lemma_first_is_last(ks, x);
                    lemma_first_prepend(byte, keys, x);
                    ks.index_of_last_ensures(x);
                    keys.index_of_first_ensures(x);
                }
                assert forall|x: int| 0 <= x < 256 && new_node.keys@[x] != 0 implies
                    !(#[trigger] new_node.children@[new_node.keys@[x] - 1] is Empty) by {
                    ks.index_of_last_ensures(x as u8);
                    assert(new_node.keys@[(x as u8) as int] as int == last_mark(ks, x as u8));
                }
            }
        }
        r
    }

    fn mut_base(&mut self) -> (r: &mut ArtNodeBase) {
        &mut self.n
    }

    fn base(&self) -> (r: &ArtNodeBase) {
        &self.n
    }

    fn find_child_mut(&mut self, byte: u8) -> (r: &mut ArtNode<K, V>) {
        let ghost live = self.live_keys();
        proof {
            live.index_of_first_ensures(byte);
        }
        let num = self.n.num_children;
        for i in 0..num
            invariant
                num == self.n.num_children,
                self.well_formed(),
                live == self.live_keys(),
                live.contains(byte),
                *self == *old(self),
                forall|j: int| 0 <= j < i ==> live[j] != byte,
        {
            if self.keys[i as usize] == byte {
                proof {
                    lemma_first_at(live, byte, i as int);
                    assert forall|b: u8| b != byte implies (#[trigger] live.index_of_first(b) matches Some(
                        k,
                    ) ==> k != i && 0 <= k < live.len()) by {
                        live.index_of_first_ensures(b);
                    }
                }
                return &mut self.children[i as usize];
            }
        }
        proof {
            let k = choose|k: int| 0 <= k < live.len() && live[k] == byte;
        }
        vstd::pervasive::unreached()
    }

    fn find_child(&self, byte: u8) -> (r: Option<&ArtNode<K, V>>) {
        let ghost live = self.live_keys();
        let num = self.n.num_children;
        for i in 0..num
            invariant
                num == self.n.num_children,
                self.well_formed(),
                live == self.live_keys(),
                forall|j: int| 0 <= j < i ==> live[j] != byte,
        {
            if self.keys[i as usize] == byte {
                proof {
                    lemma_first_at(live, byte, i as int);
                }
                return Some(&self.children[i as usize]);
            }
        }
        proof {
            lemma_first_none(live, byte);
        }
        None
    }

    fn has_child(&self, byte: u8) -> (r: bool) {
        let ghost live = self.live_keys();
        let num = self.n.num_children;
        for i in 0..num
            invariant
                num == self.n.num_children,
                self.well_formed(),
                live == self.live_keys(),
                forall|j: int| 0 <= j < i ==> live[j] != byte,
        {
            if self.keys[i as usize] == byte {
                proof {
                    lemma_first_at(live, byte, i as int);
                }
                return true;
            }
        }
        proof {
            lemma_first_none(live, byte);
        }
        false
    }
}

} // verus!

verus! {

impl<K: ArtKey, V> ArtNode4<K, V> {
    /// The node counts as full exactly when it holds 4 children: fullness
    /// depends on the child count alone, not on the prefix or the keys.
    pub proof fn lemma_full_iff_at_capacity(&self)
        ensures
            self.spec_is_full() <==> self.n.num_children >= 4,
            forall|b: ArtNodeBase| #[trigger] self.with_base(b).spec_is_full() <==> b.num_children >= 4,
    {
    }

    /// A well-formed 4-wide node is full exactly when `add_child` has no room
    /// left, and exactly when `grow_and_add` may move it into a 16-wide node.
    pub proof fn lemma_full_iff_no_room(&self, byte: u8)
        requires
            self.well_formed(),
        ensures
            self.spec_is_full() <==> !self.can_add(byte),
            self.spec_is_full() <==> self.can_grow(),
    {
    }
}

impl<K: ArtKey, V> ArtNode16<K, V> {
    /// The node counts as full exactly when it holds 16 children: fullness
    /// depends on the child count alone, not on the prefix or the keys.
    pub proof fn lemma_full_iff_at_capacity(&self)
        ensures
            self.spec_is_full() <==> self.n.num_children >= 16,
            forall|b: ArtNodeBase| #[trigger] self.with_base(b).spec_is_full() <==> b.num_children >= 16,
    {
    }

    /// A well-formed 16-wide node is full exactly when `add_child` has no room
    /// left, and exactly when `grow_and_add` may move it into a 48-wide node.
    pub proof fn lemma_full_iff_no_room(&self, byte: u8)
        requires
            self.well_formed(),
        ensures
            self.spec_is_full() <==> !self.can_add(byte),
            self.spec_is_full() <==> self.can_grow(),
    {
    }
}

impl<K: ArtKey, V> ArtNode48<K, V> {
    /// The node counts as full exactly when it holds 48 children: fullness
    /// depends on the child count alone, not on the prefix or the keys.
    pub proof fn lemma_full_iff_at_capacity(&self)
        ensures
            self.spec_is_full() <==> self.n.num_children >= 48,
            forall|b: ArtNodeBase| #[trigger] self.with_base(b).spec_is_full() <==> b.num_children >= 48,
    {
    }

    /// A well-formed 48-wide node is full exactly when `add_child` has no room
    /// left; it may grow into a 256-wide node at any time.
    pub proof fn lemma_full_iff_no_room(&self, byte: u8)
        requires
            self.well_formed(),
        ensures
            self.spec_is_full() <==> !self.can_add(byte),
            self.can_grow(),
    {
    }
}

} // verus!

verus! {

impl<K: ArtKey, V> ArtNode256<K, V> {
    /// The node counts as full exactly when it holds 256 children: fullness
    /// depends on the child count alone, not on the prefix or the slots.
    pub proof fn lemma_full_iff_at_capacity(&self)
        ensures
            self.spec_is_full() <==> self.n.num_children >= 256,
            forall|b: ArtNodeBase| #[trigger] self.with_base(b).spec_is_full() <==> b.num_children >= 256,
    {
    }

    /// A well-formed 256-wide node that is not full has room for another
    /// child under any byte; it never grows.
    pub proof fn lemma_not_full_has_room(&self, byte: u8)
        requires
            self.well_formed(),
        ensures
            !self.spec_is_full() ==> self.can_add(byte),
            !self.can_grow(),
    {
    }
}

} // verus!
