use lucid::{
    candidate, locate_repository_directory, locate_step, worktree_root, AbsPath, LocateError, LocateStep,
    ValidationError,
};

fn path(text: &str) -> AbsPath {
    let components: Vec<String> = text.split('/').filter(|c| !c.is_empty()).map(|c| c.to_string()).collect();
    AbsPath::from_components(components).unwrap()
}

#[test]
fn finds_repository_above_start() {
    let existing = vec![path("/a"), path("/a/b"), path("/a/b/.lucid"), path("/a/b/c"), path("/a/b/c/d")];
    let start = path("/a/b/c/d");
    let repo = locate_repository_directory(&start, &existing).unwrap();
    assert_eq!(repo.to_path_string(), "/a/b/.lucid");
    let root = worktree_root(&start, &existing).unwrap();
    assert_eq!(root.to_path_string(), "/a/b");
}

#[test]
fn nearest_repository_wins() {
    let existing = vec![path("/.lucid"), path("/a/b/.lucid")];
    let repo = locate_repository_directory(&path("/a/b/c"), &existing).unwrap();
    assert_eq!(repo.to_path_string(), "/a/b/.lucid");
    let repo = locate_repository_directory(&path("/a/x"), &existing).unwrap();
    assert_eq!(repo.to_path_string(), "/.lucid");
    assert_eq!(worktree_root(&path("/a/x"), &existing).unwrap().to_path_string(), "/");
}

#[test]
fn start_directory_itself_is_checked() {
    let existing = vec![path("/a/b/.lucid")];
    let repo = locate_repository_directory(&path("/a/b"), &existing).unwrap();
    assert_eq!(repo.to_path_string(), "/a/b/.lucid");
}

#[test]
fn no_repository_is_not_found() {
    let existing = vec![path("/a"), path("/a/b"), path("/a/.lucidx"), path("/a/b/c/.lucid")];
    assert_eq!(locate_repository_directory(&path("/a/b"), &existing).err(), Some(LocateError::NotFound));
    assert_eq!(worktree_root(&path("/a/b"), &existing).err(), Some(LocateError::NotFound));
    assert_eq!(locate_repository_directory(&AbsPath::root(), &Vec::new()).err(), Some(LocateError::NotFound));
}

#[test]
fn step_decides_found_ascend_or_not_found() {
    let dir = path("/a/b");
    match locate_step(&dir, true) {
        LocateStep::Found { repository, worktree } => {
            assert_eq!(repository.to_path_string(), "/a/b/.lucid");
            assert_eq!(worktree.to_path_string(), "/a/b");
        }
        _ => panic!("expected a match"),
    }
    match locate_step(&dir, false) {
        LocateStep::Ascend(p) => assert_eq!(p.to_path_string(), "/a"),
        _ => panic!("expected to ascend"),
    }
    assert!(matches!(locate_step(&AbsPath::root(), false), LocateStep::NotFound));
}

#[test]
fn candidate_appends_reserved_name() {
    assert_eq!(candidate(&path("/a")).to_path_string(), "/a/.lucid");
    assert_eq!(candidate(&AbsPath::root()).to_path_string(), "/.lucid");
}

#[test]
fn paths_render_and_compare() {
    assert_eq!(AbsPath::root().to_path_string(), "/");
    let p = path("/usr/local/bin");
    assert_eq!(p.to_path_string(), "/usr/local/bin");
    assert_eq!(p.components().len(), 3);
    assert!(p.same_as(&path("/usr/local/bin")));
    assert!(!p.same_as(&path("/usr/local")));
    assert_eq!(p.parent().unwrap().to_path_string(), "/usr/local");
    assert!(AbsPath::root().parent().is_none());
    assert_eq!(p.join("x".to_string()).unwrap().to_path_string(), "/usr/local/bin/x");
}

#[test]
fn malformed_components_are_rejected() {
    assert_eq!(
        AbsPath::from_components(vec!["a".to_string(), "".to_string()]).err(),
        Some(ValidationError::MalformedName)
    );
    assert_eq!(
        AbsPath::from_components(vec!["a/b".to_string()]).err(),
        Some(ValidationError::MalformedName)
    );
    assert_eq!(AbsPath::root().join("a/b".to_string()).err(), Some(ValidationError::MalformedName));
}
