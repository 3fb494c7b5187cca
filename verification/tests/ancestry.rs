use gixkit::fetch::graph::{Commit, ObjectGraph};
use gixkit::hash::ObjectId;

fn oid(n: u8) -> ObjectId {
    ObjectId { bytes: vec![n; 20] }
}

fn commit(id: u8, parents: &[u8]) -> Commit {
    Commit { id: oid(id), parents: parents.iter().map(|p| oid(*p)).collect() }
}

/// 1 <- 2 <- 3 <- 6 (a merge of 3 and 5), 1 <- 4 <- 5, and 7 on its own.
fn graph() -> ObjectGraph {
    ObjectGraph {
        commits: vec![
            commit(6, &[3, 5]),
            commit(5, &[4]),
            commit(4, &[1]),
            commit(3, &[2]),
            commit(2, &[1]),
            commit(1, &[]),
            commit(7, &[]),
        ],
    }
}

#[test]
fn a_commit_is_reached_from_its_descendants() {
    let g = graph();
    assert!(g.is_ancestor(&oid(2), &oid(3)));
    assert!(g.is_ancestor(&oid(1), &oid(3)));
    assert!(g.is_ancestor(&oid(1), &oid(6)));
    assert!(g.is_ancestor(&oid(4), &oid(6)));
    assert!(g.is_ancestor(&oid(2), &oid(6)));
    assert!(g.is_ancestor(&oid(5), &oid(6)));
}

#[test]
fn a_commit_is_not_reached_from_its_ancestors_or_from_other_lines() {
    let g = graph();
    assert!(!g.is_ancestor(&oid(3), &oid(2)));
    assert!(!g.is_ancestor(&oid(6), &oid(1)));
    assert!(!g.is_ancestor(&oid(4), &oid(3)));
    assert!(!g.is_ancestor(&oid(7), &oid(6)));
    assert!(!g.is_ancestor(&oid(1), &oid(7)));
}

#[test]
fn a_commit_is_reached_from_itself_even_if_unknown() {
    let g = graph();
    assert!(g.is_ancestor(&oid(3), &oid(3)));
    assert!(g.is_ancestor(&oid(99), &oid(99)));
    assert!(ObjectGraph { commits: vec![] }.is_ancestor(&oid(1), &oid(1)));
}

#[test]
fn nothing_is_known_of_commits_that_are_not_listed() {
    let g = graph();
    assert!(!g.is_ancestor(&oid(1), &oid(99)));
    assert!(!g.is_ancestor(&oid(99), &oid(6)));
    assert!(!ObjectGraph { commits: vec![] }.is_ancestor(&oid(1), &oid(2)));
}

#[test]
fn a_parent_needs_no_entry_of_its_own() {
    let g = ObjectGraph { commits: vec![commit(2, &[1])] };
    assert!(g.is_ancestor(&oid(1), &oid(2)));
    assert!(!g.is_ancestor(&oid(2), &oid(1)));
}

#[test]
fn a_corrupt_graph_with_a_cycle_is_walked_once() {
    let g = ObjectGraph { commits: vec![commit(1, &[2]), commit(2, &[3]), commit(3, &[1]), commit(4, &[])] };
    assert!(g.is_ancestor(&oid(1), &oid(2)));
    assert!(g.is_ancestor(&oid(2), &oid(1)));
    assert!(!g.is_ancestor(&oid(4), &oid(1)));
}

#[test]
fn entries_with_one_identifier_add_up() {
    let g = ObjectGraph { commits: vec![commit(3, &[1]), commit(3, &[2]), commit(2, &[0])] };
    assert!(g.is_ancestor(&oid(1), &oid(3)));
    assert!(g.is_ancestor(&oid(2), &oid(3)));
    assert!(g.is_ancestor(&oid(0), &oid(3)));
    assert!(!g.is_ancestor(&oid(1), &oid(2)));
}

#[test]
fn a_long_line_is_walked_to_its_end() {
    let commits: Vec<Commit> = (1..=200u8).map(|n| commit(n, &[n - 1])).collect();
    let g = ObjectGraph { commits };
    assert!(g.is_ancestor(&oid(0), &oid(200)));
    assert!(g.is_ancestor(&oid(57), &oid(200)));
    assert!(!g.is_ancestor(&oid(200), &oid(57)));
    assert!(!g.is_ancestor(&oid(201), &oid(200)));
}
