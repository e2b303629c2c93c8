use lucid::{Blob, Commit, FileType, Tree, TreeEntry, TreeEntryData, ValidationError};

const HELLO_BLOB: &str = "6ec7b8623e97359d53afe3c8233646baab5c63c8";
const HELLO_TREE: &str = "a89b5793ba773185099fd0ec3623d21453f42baa";
const ROOT_COMMIT: &str = "0a5ad6bbd33737f506617519472a18900bd460fb";

fn hello_blob() -> Blob {
    Blob::new("Hello, world!\n".to_string())
}

fn hello_tree() -> Tree {
    let entry = TreeEntry::blob("hello.txt".to_string(), &hello_blob(), FileType::NormalFile).unwrap();
    Tree::new(vec![entry]).unwrap()
}

#[test]
fn blob_serializes_with_header() {
    assert_eq!(hello_blob().serialize(), "blob\nHello, world!\n");
}

#[test]
fn blob_hash_is_sha1_of_serialization() {
    let h = hello_blob().to_hash();
    assert_eq!(h, HELLO_BLOB);
    assert_ne!(h, hello_blob().serialize());
}

#[test]
fn empty_blob_and_tree_are_well_defined() {
    let b = Blob::new(String::new());
    assert_eq!(b.serialize(), "blob\n");
    assert_eq!(b.to_hash(), "4b1568079f8fc1adcdbff5bf24b9be9fc9e4576d");
    let t = Tree::new(Vec::new()).unwrap();
    assert_eq!(t.serialize(), "tree\n");
    assert_eq!(t.to_hash(), "7a1e081e78d460b482b7d71436a46811e7ebd091");
    assert_eq!(t.to_hash(), t.to_hash());
    assert_eq!(b.to_hash(), b.to_hash());
}

#[test]
fn serialization_and_hash_are_repeatable() {
    let t = hello_tree();
    assert_eq!(t.serialize(), t.serialize());
    assert_eq!(t.to_hash(), hello_tree().to_hash());
}

#[test]
fn equal_contents_give_equal_hashes() {
    let a = Blob::new("same".to_string());
    let b = Blob::new("same".to_string());
    let c = Blob::new("samf".to_string());
    assert_eq!(a.to_hash(), b.to_hash());
    assert_ne!(a.to_hash(), c.to_hash());
}

#[test]
fn tree_lists_entries_in_order() {
    let t = hello_tree();
    assert_eq!(t.serialize(), format!("tree\nfile {} hello.txt\n", HELLO_BLOB));
    assert_eq!(t.to_hash(), HELLO_TREE);
}

#[test]
fn role_tags_follow_entry_kind() {
    let b = hello_blob();
    let sub = hello_tree();
    let entries = vec![
        TreeEntry::blob("n".to_string(), &b, FileType::NormalFile).unwrap(),
        TreeEntry::blob("x".to_string(), &b, FileType::Executable).unwrap(),
        TreeEntry::blob("l".to_string(), &b, FileType::SymbolicLink).unwrap(),
        TreeEntry::tree("d".to_string(), &sub).unwrap(),
    ];
    let t = Tree::new(entries).unwrap();
    let expected = format!(
        "tree\nfile {b} n\nexec {b} x\nlink {b} l\ntree {t} d\n",
        b = HELLO_BLOB,
        t = HELLO_TREE
    );
    assert_eq!(t.serialize(), expected);
    let e = &t.entries()[3];
    assert_eq!(e.name(), "d");
    assert_eq!(e.role_tag(), "tree");
    assert_eq!(e.hash(), HELLO_TREE);
    assert!(matches!(e.data(), TreeEntryData::Tree { .. }));
}

#[test]
fn entry_order_changes_tree_hash() {
    let x = Blob::new("x".to_string());
    let y = Blob::new("y".to_string());
    let ab = Tree::new(vec![
        TreeEntry::blob("a".to_string(), &x, FileType::NormalFile).unwrap(),
        TreeEntry::blob("b".to_string(), &y, FileType::NormalFile).unwrap(),
    ])
    .unwrap();
    let ba = Tree::new(vec![
        TreeEntry::blob("b".to_string(), &y, FileType::NormalFile).unwrap(),
        TreeEntry::blob("a".to_string(), &x, FileType::NormalFile).unwrap(),
    ])
    .unwrap();
    assert_ne!(ab.serialize(), ba.serialize());
    assert_ne!(ab.to_hash(), ba.to_hash());
}

#[test]
fn file_type_changes_tree_but_not_blob() {
    let b = hello_blob();
    let normal = Tree::new(vec![TreeEntry::blob("f".to_string(), &b, FileType::NormalFile).unwrap()]).unwrap();
    let exec = Tree::new(vec![TreeEntry::blob("f".to_string(), &b, FileType::Executable).unwrap()]).unwrap();
    assert_ne!(normal.to_hash(), exec.to_hash());
    assert_eq!(normal.entries()[0].hash(), exec.entries()[0].hash());
}

#[test]
fn malformed_names_are_rejected() {
    let b = hello_blob();
    for name in ["", "a/b", "/", "line\nbreak"] {
        assert_eq!(
            TreeEntry::blob(name.to_string(), &b, FileType::NormalFile).err(),
            Some(ValidationError::MalformedName)
        );
    }
    let t = hello_tree();
    assert_eq!(TreeEntry::tree("x/y".to_string(), &t).err(), Some(ValidationError::MalformedName));
    assert!(TreeEntry::blob(".hidden file".to_string(), &b, FileType::NormalFile).is_ok());
}

#[test]
fn duplicate_names_are_rejected() {
    let b = hello_blob();
    let t = hello_tree();
    let entries = vec![
        TreeEntry::blob("same".to_string(), &b, FileType::NormalFile).unwrap(),
        TreeEntry::blob("other".to_string(), &b, FileType::NormalFile).unwrap(),
        TreeEntry::tree("same".to_string(), &t).unwrap(),
    ];
    assert_eq!(Tree::new(entries).err(), Some(ValidationError::DuplicateName));
}

#[test]
fn root_commit_has_no_parent_line() {
    let c = Commit::new(&hello_tree(), None);
    assert_eq!(c.serialize(), format!("commit\ntree {}\n", HELLO_TREE));
    assert!(!c.serialize().contains("parent"));
    assert_eq!(c.tree(), HELLO_TREE);
    assert_eq!(c.parent(), None);
    assert_eq!(c.to_hash(), ROOT_COMMIT);
}

#[test]
fn commit_parent_line_holds_parent_hash() {
    let b = hello_blob();
    let tree = hello_tree();
    let c1 = Commit::new(&tree, None);
    let new_tree = Tree::new(vec![
        TreeEntry::blob("README.md".to_string(), &b, FileType::NormalFile).unwrap(),
        TreeEntry::tree("data".to_string(), &tree).unwrap(),
    ])
    .unwrap();
    assert_eq!(new_tree.to_hash(), "3f5e16a73cde8733aa39420ee3bd3b503b2df458");
    let c2 = Commit::new(&new_tree, Some(&c1));
    let text = c2.serialize();
    assert!(text.ends_with(&format!("parent {}\n", c1.to_hash())));
    assert_eq!(
        text,
        format!("commit\ntree 3f5e16a73cde8733aa39420ee3bd3b503b2df458\nparent {}\n", ROOT_COMMIT)
    );
    assert_eq!(c2.parent(), Some(ROOT_COMMIT));
    assert_eq!(c2.to_hash(), "7b0fb87e10a92f822788a5bb4f38bfec6ec0d1b2");
}

#[test]
fn changed_blob_propagates_to_tree_and_commit() {
    let build = |contents: &str| {
        let b = Blob::new(contents.to_string());
        let inner = Tree::new(vec![TreeEntry::blob("f".to_string(), &b, FileType::NormalFile).unwrap()]).unwrap();
        let outer = Tree::new(vec![TreeEntry::tree("dir".to_string(), &inner).unwrap()]).unwrap();
        let c = Commit::new(&outer, None);
        (outer.to_hash(), c.to_hash())
    };
    let (t1, c1) = build("content");
    let (t2, c2) = build("contenT");
    assert_ne!(t1, t2);
    assert_ne!(c1, c2);
}

#[test]
fn blob_keeps_contents() {
    assert_eq!(hello_blob().contents(), "Hello, world!\n");
}
