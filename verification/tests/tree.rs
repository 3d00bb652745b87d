use ckusro_core::namespace::{Namespace, NamespaceType};
use ckusro_core::tree::Tree;

fn get_node() -> Box<Tree<Namespace>> {
    Box::new(Tree::new_node())
}

fn fill_tree() -> Box<Tree<Namespace>> {
    let repo1 = Tree::Leaf(Box::new(Namespace::new(
        NamespaceType::Repository,
        "ckusro",
    )));

    let mut user1 = match *get_node() {
        Tree::Node(v) => v,
        Tree::Leaf(_) => panic!(""),
    };
    user1.push(repo1);

    let mut domain1 = match *get_node() {
        Tree::Node(v) => v,
        Tree::Leaf(_) => panic!(""),
    };
    domain1.push(Tree::Node(user1));

    let mut root = match *get_node() {
        Tree::Node(v) => v,
        Tree::Leaf(_) => panic!(""),
    };

    root.push(Tree::Node(domain1));

    Box::new(Tree::Node(root))
}

fn print_tree(tree: Box<Tree<Namespace>>) {
    match *tree {
        Tree::Node(v) => {
            println!("node {}", v.len());
            for a in v {
                print_tree(Box::new(a))
            }
        }
        Tree::Leaf(v) => println!("leaf {:?}", v),
    }
}

#[test]
fn test_tree() {
    let root = *fill_tree();
    print_tree(Box::new(root));
}

#[test]
fn new_node_is_empty_and_new_leaf_keeps_its_value() {
    let node: Tree<u64> = Tree::new_node();
    match node {
        Tree::Node(v) => assert_eq!(v.len(), 0),
        Tree::Leaf(_) => panic!("expected a node"),
    }

    let leaf: Tree<u64> = Tree::new_leaf(7);
    match leaf {
        Tree::Leaf(b) => assert_eq!(*b, 7),
        Tree::Node(_) => panic!("expected a leaf"),
    }
}
