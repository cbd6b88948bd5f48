use dircap::prune::prune_candidates;

fn components(path: &[&str]) -> Vec<String> {
    let mut v: Vec<String> = Vec::new();
    for c in path {
        v.push(c.to_string());
    }
    v
}

#[test]
fn candidates_walk_from_parent_to_root() {
    let path = components(&["a", "b", "c.txt"]);
    let candidates = prune_candidates(&path);
    assert_eq!(
        candidates,
        vec![components(&["a", "b"]), components(&["a"]), components(&[])]
    );
}

#[test]
fn candidate_of_top_level_file_is_the_root_alone() {
    let path = components(&["f.txt"]);
    let candidates = prune_candidates(&path);
    assert_eq!(candidates, vec![components(&[])]);
}

#[test]
fn no_candidates_for_the_root_itself() {
    let path = components(&[]);
    let candidates = prune_candidates(&path);
    assert_eq!(candidates.len(), 0);
}
