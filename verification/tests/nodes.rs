use lib::nodes::{
    ArtNode, ArtNode16, ArtNode256, ArtNode4, ArtNode48, ArtNodeBase, ArtNodeTrait, SmallStruct,
    MAX_PREFIX_LEN, SMALL_STRUCT,
};
use lib::ArtKey;

type Node = ArtNode<Vec<u8>, u64>;

fn leaf(k: u8, v: u64) -> Node {
    ArtNode::new_leaf(vec![k], v)
}

fn leaf_value(n: &Node) -> u64 {
    match n {
        ArtNode::LeafLarge(b) => b.1,
        ArtNode::LeafLargeKey(_, v) => *v.reference(),
        ArtNode::LeafLargeValue(_, v) => **v,
        ArtNode::LeafSmall(_, v) => *v.reference(),
        _ => panic!("not a leaf"),
    }
}

#[test]
fn constants() {
    assert_eq!(MAX_PREFIX_LEN, 10);
    assert_eq!(SMALL_STRUCT, 8);
}

#[test]
fn small_struct_roundtrip() {
    let s = SmallStruct::new(0xdead_beef_u32);
    assert_eq!(*s.reference(), 0xdead_beef_u32);
    let t = SmallStruct::new(7u64);
    assert_eq!(*t.reference(), 7u64);
}

#[test]
fn key_bytes_of_vec_and_array() {
    let v = vec![1u8, 2, 3];
    assert_eq!(v.bytes(), &[1u8, 2, 3][..]);
    let a = [4u8, 5];
    assert_eq!(a.bytes(), &[4u8, 5][..]);
}

#[test]
fn new_leaf_large_key_small_value() {
    let n: ArtNode<Vec<u8>, u32> = ArtNode::new_leaf(vec![1, 2, 3], 42u32);
    assert!(matches!(n, ArtNode::LeafLargeKey(_, _)));
    assert_eq!(n.key(), &vec![1u8, 2, 3]);
}

#[test]
fn new_leaf_large_key_large_value() {
    let n: ArtNode<Vec<u8>, [u64; 4]> = ArtNode::new_leaf(vec![9], [1, 2, 3, 4]);
    assert!(matches!(n, ArtNode::LeafLarge(_)));
    assert_eq!(n.key(), &vec![9u8]);
    if let ArtNode::LeafLarge(b) = &n {
        assert_eq!(b.1, [1, 2, 3, 4]);
    }
}

#[test]
fn new_leaf_small_key_large_value() {
    let n: ArtNode<[u8; 4], Vec<u8>> = ArtNode::new_leaf([1, 2, 3, 4], vec![5, 6]);
    assert!(matches!(n, ArtNode::LeafLargeValue(_, _)));
    assert_eq!(n.key(), &[1u8, 2, 3, 4]);
    if let ArtNode::LeafLargeValue(_, v) = &n {
        assert_eq!(**v, vec![5u8, 6]);
    }
}

#[test]
fn new_leaf_small_key_small_value() {
    let n: ArtNode<[u8; 8], u64> = ArtNode::new_leaf([7; 8], 99u64);
    assert!(matches!(n, ArtNode::LeafSmall(_, _)));
    assert_eq!(n.key(), &[7u8; 8]);
    if let ArtNode::LeafSmall(_, v) = &n {
        assert_eq!(*v.reference(), 99u64);
    }
}

#[test]
fn default_is_empty() {
    let n: Node = ArtNode::default();
    assert!(matches!(n, ArtNode::Empty));
}

#[test]
fn base_new_is_empty() {
    let b = ArtNodeBase::new();
    assert_eq!(b.num_children, 0);
    assert_eq!(b.partial_len, 0);
    assert_eq!(b.partial, [0u8; MAX_PREFIX_LEN]);
}

#[test]
fn prefix_match_stops_at_first_difference() {
    let mut b = ArtNodeBase::new();
    b.partial_len = 3;
    b.partial[0] = 1;
    b.partial[1] = 2;
    b.partial[2] = 3;
    let key = vec![9u8, 1, 2, 4];
    assert_eq!(b.compute_prefix_match(&key, 1), 2);
}

#[test]
fn prefix_match_full_prefix() {
    let mut b = ArtNodeBase::new();
    b.partial_len = 2;
    b.partial[0] = 5;
    b.partial[1] = 6;
    let key = [0u8, 5, 6, 7];
    assert_eq!(b.compute_prefix_match(&key, 1), 2);
}

#[test]
fn prefix_match_mismatch_at_start() {
    let mut b = ArtNodeBase::new();
    b.partial_len = 4;
    b.partial[0] = 1;
    let key = vec![2u8];
    assert_eq!(b.compute_prefix_match(&key, 0), 0);
}

#[test]
fn prefix_match_empty_prefix() {
    let b = ArtNodeBase::new();
    let key: Vec<u8> = vec![];
    assert_eq!(b.compute_prefix_match(&key, 0), 0);
}

#[test]
fn node4_add_and_find() {
    let mut n: ArtNode4<Vec<u8>, u64> = ArtNode4::new();
    assert!(!n.has_child(3));
    assert!(n.find_child(3).is_none());
    n.add_child(leaf(3, 30), 3);
    n.add_child(leaf(1, 10), 1);
    assert_eq!(n.base().num_children, 2);
    assert!(n.has_child(3));
    assert!(n.has_child(1));
    assert!(!n.has_child(2));
    assert_eq!(leaf_value(n.find_child(3).unwrap()), 30);
    assert_eq!(leaf_value(n.find_child(1).unwrap()), 10);
    assert!(n.find_child(2).is_none());
}

#[test]
fn node4_duplicate_key_keeps_first() {
    let mut n: ArtNode4<Vec<u8>, u64> = ArtNode4::new();
    n.add_child(leaf(3, 30), 3);
    n.add_child(leaf(3, 31), 3);
    assert_eq!(n.base().num_children, 2);
    assert_eq!(leaf_value(n.find_child(3).unwrap()), 30);
}

#[test]
fn node4_is_full_after_four() {
    let mut n: ArtNode4<Vec<u8>, u64> = ArtNode4::new();
    for b in 0..4u8 {
        assert!(!n.is_full());
        n.add_child(leaf(b, b as u64), b);
    }
    assert!(n.is_full());
}

#[test]
fn node4_find_child_mut_writes_through() {
    let mut n: ArtNode4<Vec<u8>, u64> = ArtNode4::new();
    n.add_child(leaf(1, 10), 1);
    n.add_child(leaf(2, 20), 2);
    *n.find_child_mut(2) = leaf(2, 22);
    assert_eq!(leaf_value(n.find_child(2).unwrap()), 22);
    assert_eq!(leaf_value(n.find_child(1).unwrap()), 10);
}

#[test]
fn node4_mut_base_changes_prefix_only() {
    let mut n: ArtNode4<Vec<u8>, u64> = ArtNode4::new();
    n.add_child(leaf(1, 10), 1);
    {
        let b = n.mut_base();
        b.partial_len = 2;
        b.partial[0] = 7;
    }
    assert_eq!(n.base().partial_len, 2);
    assert_eq!(n.base().partial[0], 7);
    assert_eq!(leaf_value(n.find_child(1).unwrap()), 10);
}

#[test]
fn node4_grow_into_node16() {
    let mut n: ArtNode4<Vec<u8>, u64> = ArtNode4::new();
    n.mut_base().partial_len = 1;
    n.mut_base().partial[0] = 42;
    for b in [10u8, 20, 30, 40] {
        n.add_child(leaf(b, b as u64), b);
    }
    let g = n.grow_and_add(leaf(50, 50), 50);
    match &g {
        ArtNode::Inner16(b) => {
            assert_eq!(b.n.num_children, 5);
            assert_eq!(b.n.partial_len, 1);
            assert_eq!(b.n.partial[0], 42);
            assert_eq!(&b.keys[..5], &[50u8, 10, 20, 30, 40][..]);
            assert!(!b.is_full());
            for k in [10u8, 20, 30, 40, 50] {
                assert_eq!(leaf_value(b.find_child(k).unwrap()), k as u64);
            }
            assert!(!b.has_child(60));
        }
        _ => panic!("expected a 16-wide node"),
    }
}

#[test]
fn node4_to_art_node() {
    let mut n: ArtNode4<Vec<u8>, u64> = ArtNode4::new();
    n.add_child(leaf(1, 10), 1);
    let a = Box::new(n).to_art_node();
    match &a {
        ArtNode::Inner4(b) => assert_eq!(leaf_value(b.find_child(1).unwrap()), 10),
        _ => panic!("expected a 4-wide node"),
    }
}

#[test]
fn node16_add_find_full() {
    let mut n: ArtNode16<Vec<u8>, u64> = ArtNode16::new();
    for b in 0..16u8 {
        assert!(!n.is_full());
        n.add_child(leaf(b, 100 + b as u64), b * 3);
    }
    assert!(n.is_full());
    assert_eq!(leaf_value(n.find_child(45).unwrap()), 115);
    assert!(n.has_child(0));
    assert!(!n.has_child(1));
    *n.find_child_mut(3) = leaf(1, 7);
    assert_eq!(leaf_value(n.find_child(3).unwrap()), 7);
}

#[test]
fn node16_grow_into_node48() {
    let mut n: ArtNode16<Vec<u8>, u64> = ArtNode16::new();
    for b in 0..16u8 {
        n.add_child(leaf(b, 100 + b as u64), b + 1);
    }
    let g = n.grow_and_add(leaf(200, 200), 200);
    match &g {
        ArtNode::Inner48(b) => {
            assert_eq!(b.n.num_children, 17);
            assert_eq!(b.keys[200], 1);
            assert_eq!(b.keys[1], 2);
            assert_eq!(b.keys[16], 17);
            assert_eq!(b.keys[0], 0);
            assert_eq!(leaf_value(b.find_child(200).unwrap()), 200);
            for k in 1..=16u8 {
                assert_eq!(leaf_value(b.find_child(k).unwrap()), 99 + k as u64);
            }
            assert!(b.find_child(0).is_none());
            assert!(!b.is_full());
        }
        _ => panic!("expected a 48-wide node"),
    }
}

#[test]
fn node48_add_find_full() {
    let mut n: ArtNode48<Vec<u8>, u64> = ArtNode48::new();
    assert!(n.find_child(7).is_none());
    for b in 0..48u8 {
        assert!(!n.is_full());
        n.add_child(leaf(b, b as u64), 255 - b);
    }
    assert!(n.is_full());
    assert_eq!(n.keys[255], 1);
    assert_eq!(n.keys[208], 48);
    assert_eq!(leaf_value(n.find_child(250).unwrap()), 5);
    assert!(n.has_child(208));
    assert!(!n.has_child(207));
    *n.find_child_mut(250) = leaf(0, 555);
    assert_eq!(leaf_value(n.find_child(250).unwrap()), 555);
}

#[test]
fn node48_duplicate_key_takes_last() {
    let mut n: ArtNode48<Vec<u8>, u64> = ArtNode48::new();
    n.add_child(leaf(1, 1), 9);
    n.add_child(leaf(2, 2), 9);
    assert_eq!(n.base().num_children, 2);
    assert_eq!(leaf_value(n.find_child(9).unwrap()), 2);
}

#[test]
fn node48_grow_into_node256() {
    let mut n: ArtNode48<Vec<u8>, u64> = ArtNode48::new();
    n.mut_base().partial_len = 3;
    for b in 0..48u8 {
        n.add_child(leaf(b, b as u64), b * 2);
    }
    let g = n.grow_and_add(leaf(1, 1000), 1);
    match &g {
        ArtNode::Inner256(b) => {
            assert_eq!(b.n.num_children, 49);
            assert_eq!(b.n.partial_len, 3);
            assert_eq!(leaf_value(b.find_child(1).unwrap()), 1000);
            for k in 0..48u8 {
                assert_eq!(leaf_value(b.find_child(k * 2).unwrap()), k as u64);
            }
            assert!(b.find_child(3).is_none());
            assert!(!b.has_child(200));
            assert!(!b.is_full());
        }
        _ => panic!("expected a 256-wide node"),
    }
}

#[test]
fn node256_add_find() {
    let mut n: ArtNode256<Vec<u8>, u64> = ArtNode256::new();
    assert!(!n.has_child(0));
    assert!(n.find_child(255).is_none());
    n.add_child(leaf(1, 11), 255);
    n.add_child(leaf(2, 22), 0);
    assert_eq!(n.base().num_children, 2);
    assert!(n.has_child(255));
    assert_eq!(leaf_value(n.find_child(0).unwrap()), 22);
    assert!(matches!(n.find_child_mut(7), ArtNode::Empty));
    *n.find_child_mut(7) = leaf(7, 77);
    assert_eq!(leaf_value(n.find_child(7).unwrap()), 77);
    assert!(!n.is_full());
}

#[test]
fn node256_is_full_after_256() {
    let mut n: ArtNode256<Vec<u8>, u64> = ArtNode256::new();
    for b in 0..=255u8 {
        assert!(!n.is_full());
        n.add_child(leaf(b, b as u64), b);
    }
    assert!(n.is_full());
    assert_eq!(leaf_value(n.find_child(128).unwrap()), 128);
}

#[test]
fn node256_empty_child_is_no_child() {
    let mut n: ArtNode256<Vec<u8>, u64> = ArtNode256::new();
    n.add_child(ArtNode::Empty, 5);
    assert_eq!(n.base().num_children, 1);
    assert!(!n.has_child(5));
    assert!(n.find_child(5).is_none());
}

#[test]
fn node_to_art_node_variants() {
    let a: Node = Box::new(ArtNode16::new()).to_art_node();
    assert!(matches!(a, ArtNode::Inner16(_)));
    let b: Node = Box::new(ArtNode48::new()).to_art_node();
    assert!(matches!(b, ArtNode::Inner48(_)));
    let c: Node = Box::new(ArtNode256::new()).to_art_node();
    assert!(matches!(c, ArtNode::Inner256(_)));
}
