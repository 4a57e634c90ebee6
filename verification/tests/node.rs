use dropset::error::DropsetError;
use dropset::state::node::{Node, NODE_SIZE};
use dropset::state::order::NextSectorIndex;
use dropset::state::sector::{NonNilSectorIndex, SectorIndex, NIL};
use dropset::state::transmutable::Transmutable;

#[test]
fn node_links_and_payload() {
    let mut node = Node::new(1, 2, [3u8; 64]);
    assert_eq!((node.next(), node.prev()), (1, 2));
    node.set_next(4);
    node.set_prev(5);
    assert_eq!((node.next(), node.prev()), (4, 5));
    node.set_payload(&[9u8; 64]);
    node.zero_out_payload();
    let bytes = [[4u8, 0, 0, 0], [5u8, 0, 0, 0]].concat().into_iter().chain([0u8; 64]).collect::<Vec<u8>>();
    assert_eq!(bytes.len(), NODE_SIZE);
    let loaded = Node::load(&bytes).unwrap();
    assert_eq!((loaded.next(), loaded.prev()), (4, 5));
}

#[test]
fn node_lookup_by_index() {
    let mut nodes = vec![Node::new(NIL, NIL, [0u8; 64]), Node::new(7, 8, [0u8; 64])];
    assert!(matches!(Node::from_sector_index_mut(&mut nodes, NIL), Err(DropsetError::InvalidSectorIndex)));
    assert!(matches!(Node::from_sector_index_mut(&mut nodes, 2), Err(DropsetError::IndexOutOfBounds)));
    Node::from_sector_index_mut(&mut nodes, 1).unwrap().set_next(11);
    assert_eq!(nodes[1].next(), 11);
    let one = NonNilSectorIndex::new(1).unwrap();
    let two = NonNilSectorIndex::new(2).unwrap();
    assert_eq!(Node::from_non_nil_sector_index(&nodes, one).unwrap().prev(), 8);
    assert!(matches!(Node::from_non_nil_sector_index(&nodes, two), Err(DropsetError::IndexOutOfBounds)));
    Node::from_non_nil_sector_index_mut(&mut nodes, one).unwrap().set_prev(12);
    assert_eq!(nodes[1].prev(), 12);
    Node::from_sector_index_mut_unchecked(&mut nodes, 0).set_next(13);
    assert_eq!(nodes[0].next(), 13);
}

#[test]
fn next_sector_index_into_index() {
    let n = NextSectorIndex(42);
    let i: SectorIndex = n.into();
    assert_eq!(i, 42);
    assert_eq!(n.index(), 42);
}
