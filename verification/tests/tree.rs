use workshop::tree::BinaryTree;

#[derive(Debug)]
struct Foo(u32);

fn leaf<T>() -> BinaryTree<T> {
    BinaryTree::Leaf
}

fn node<T>(t: T, s: BinaryTree<T>, l: BinaryTree<T>) -> BinaryTree<T> {
    BinaryTree::Node { value: t, left: Box::new(s), right: Box::new(l) }
}

fn node_leaf<T>(t: T) -> BinaryTree<T> {
    BinaryTree::Node { value: t, left: Box::new(leaf()), right: Box::new(leaf()) }
}

#[test]
fn size_empty() {
    assert_eq!(leaf::<usize>().size(), 0);
}

#[test]
fn size_single() {
    assert_eq!(node_leaf(0).size(), 1);
}

#[test]
fn size_more() {
    assert_eq!(node(0, node_leaf(1), node_leaf(2)).size(), 3);
}

#[test]
fn size_large() {
    assert_eq!(
        node(
            4,
            node(2, node_leaf(1), node_leaf(3)),
            node(6, node_leaf(5), node_leaf(7))
        )
        .size(),
        7
    );
}

#[test]
fn insert_1() {
    assert_eq!(
        node(5, node(4, node_leaf(3), leaf()), leaf()),
        leaf().insert(5).insert(4).insert(3)
    );
}

#[test]
fn insert_2() {
    assert_eq!(
        node(5, node_leaf(4), node_leaf(52)),
        leaf().insert(5).insert(4).insert(5).insert(52)
    );
}

#[test]
fn insert_3() {
    assert_eq!(
        node(
            10,
            node(4, node_leaf(3), node_leaf(5)),
            node(12, node_leaf(11), leaf())
        ),
        leaf()
            .insert(10)
            .insert(4)
            .insert(12)
            .insert(11)
            .insert(5)
            .insert(3)
    )
}

#[test]
fn contains_0() {
    assert!(!leaf().contains(&3))
}

#[test]
fn contains_1() {
    assert!(leaf().insert(3).insert(1).insert(9).insert(5).contains(&3));
}

#[test]
fn contains_2() {
    assert!(!leaf().insert(3).insert(1).insert(9).insert(5).contains(&7));
}

#[test]
fn height() {
    assert_eq!(
        node(
            10,
            node(4, node(3, node_leaf(5), leaf()), node_leaf(5)),
            node(12, node_leaf(11), leaf())
        )
        .height(),
        4
    )
}

#[test]
fn height_2() {
    let tree = node(
        10,
        node(
            5,
            node(3, node(1, node_leaf(0), node_leaf(2)), node_leaf(4)),
            node(7, node_leaf(6), node_leaf(8)),
        ),
        node(12, node_leaf(11), leaf()),
    );

    assert_eq!(tree.height(), 5)
}

#[test]
fn contains_different_type() {
    assert!(leaf()
        .insert("abc")
        .insert("por")
        .insert("fei")
        .insert("das")
        .contains(&"das"));
}

#[test]
fn apply_closure_mut() {
    let mut tree = node(1, node_leaf(0), node_leaf(2));
    let mut iterated = 0;
    tree.for_each_mut(|node| {
        *node += 1;
        iterated += 1;
    });
    assert_eq!(iterated, 3);
}

#[test]
fn apply_closure_changes_every_value() {
    let mut tree = node(1, node_leaf(0), node_leaf(2));
    tree.for_each_mut(|node| *node += 1);
    assert_eq!(tree, node(2, node_leaf(1), node_leaf(3)));
}

#[test]
fn insert_keeps_what_is_there() {
    let tree = leaf().insert(3).insert(1).insert(9);
    assert_eq!(tree.size(), 3);
    let again = tree.insert(9);
    assert_eq!(again.size(), 3);
    assert_eq!(again.height(), 2);
    assert!(again.contains(&1));
    assert!(again.contains(&9));
    assert!(!again.contains(&2));
}

#[test]
fn apply_closure() {
    let mut tree = node(1, node_leaf(0), node_leaf(2));
    tree.for_each_mut(|node| *node += 1);
    let expected = "Node {
    value: 2,
    left: Node {
        value: 1,
        left: Leaf,
        right: Leaf,
    },
    right: Node {
        value: 3,
        left: Leaf,
        right: Leaf,
    },
}";
    assert_eq!(format!("{tree:#?}"), expected);
}

#[test]
fn closure_non_ord() {
    let mut tree = node(Foo(0), node_leaf(Foo(1)), node_leaf(Foo(2)));
    tree.for_each_mut(|v| v.0 += 1);
    let expected = "Node {
    value: Foo(
        1,
    ),
    left: Node {
        value: Foo(
            2,
        ),
        left: Leaf,
        right: Leaf,
    },
    right: Node {
        value: Foo(
            3,
        ),
        left: Leaf,
        right: Leaf,
    },
}";
    assert_eq!(format!("{tree:#?}"), expected);
}
