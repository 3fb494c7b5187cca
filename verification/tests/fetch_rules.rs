use gixkit::fetch::graph::{Commit, ObjectGraph};
use gixkit::fetch::name::{Category, FullName};
use gixkit::fetch::refs::update::{Error, Mode, Outcome};
use gixkit::fetch::refs::{classify, plan, resolve, Classified, Update};
use gixkit::fetch::store::{LogLine, RefEntry, RefStore, RefValue};
use gixkit::fetch::transaction::{apply, CommitError, PreviousValue, RefEdit};
use gixkit::fetch::worktree::{holder_of, Liveness, Worktree, WorktreeIndex};
use gixkit::fetch::{DryRun, Mapping, RefSpec, RemoteRef, RepoState, Source};
use gixkit::hash::ObjectId;

fn oid(n: u8) -> ObjectId {
    ObjectId { bytes: vec![n; 20] }
}

fn full(name: &str) -> FullName {
    FullName::from_bytes(name.as_bytes())
}

fn entry(name: &str, value: RefValue) -> RefEntry {
    RefEntry { name: full(name), value }
}

fn checkout(dir: &str, liveness: Liveness, head: Option<&str>) -> Worktree {
    Worktree { dir: dir.to_string(), liveness, head: head.map(full) }
}

fn state() -> RepoState {
    RepoState {
        refs: RefStore {
            entries: vec![
                entry("refs/heads/main", RefValue::Direct(oid(3))),
                entry("refs/heads/topic", RefValue::Direct(oid(2))),
                entry("refs/heads/link", RefValue::Symbolic(full("refs/heads/main"))),
                entry("refs/heads/broken", RefValue::Unreadable),
                entry("refs/remotes/origin/main", RefValue::Direct(oid(3))),
                entry("refs/remotes/origin/old", RefValue::Direct(oid(2))),
                entry("refs/remotes/origin/side", RefValue::Direct(oid(9))),
                entry("refs/tags/v1", RefValue::Direct(oid(1))),
            ],
            log: vec![],
        },
        worktrees: WorktreeIndex::Listed(vec![
            checkout("/work/main", Liveness::Present, Some("refs/heads/main")),
            checkout("/work/detached", Liveness::Present, None),
            checkout("/work/gone", Liveness::Missing, Some("refs/heads/topic")),
            checkout("/work/second", Liveness::Locked, Some("refs/heads/topic")),
        ]),
        graph: ObjectGraph {
            commits: vec![
                Commit { id: oid(1), parents: vec![] },
                Commit { id: oid(2), parents: vec![oid(1)] },
                Commit { id: oid(3), parents: vec![oid(2)] },
                Commit { id: oid(9), parents: vec![oid(1)] },
            ],
        },
    }
}

fn spec(force: bool) -> RefSpec {
    RefSpec { force, src: Some(b"refs/heads/*".to_vec()), dst: Some(b"refs/remotes/origin/*".to_vec()) }
}

fn mapping(target: u8, local: Option<&str>, spec_index: usize) -> Mapping {
    Mapping {
        remote: Source::Ref(RemoteRef::Direct {
            full_ref_name: b"refs/heads/main".to_vec(),
            object: oid(target),
        }),
        local: local.map(full),
        spec_index,
    }
}

fn update(mode: Mode, edit_index: Option<usize>) -> Update {
    Update { mode, edit_index }
}

fn only(outcome: Outcome) -> (Update, Option<RefEdit>) {
    assert_eq!(outcome.updates.len(), 1);
    let update = outcome.updates[0].clone();
    let edit = update.edit_index.map(|i| outcome.edits[i].clone());
    (update, edit)
}

fn run(target: u8, local: Option<&str>, force: bool) -> (Update, Option<RefEdit>) {
    let mut repo = state();
    only(resolve(&mut repo, &vec![mapping(target, local, 0)], &vec![spec(force)], DryRun::Yes).unwrap())
}

#[test]
fn a_mapping_without_destination_needs_no_change_whatever_the_flags() {
    for force in [false, true] {
        assert_eq!(run(3, None, force), (update(Mode::NoChangeNeeded, None), None));
        assert_eq!(run(7, None, force), (update(Mode::NoChangeNeeded, None), None));
    }
}

#[test]
fn a_mapping_without_destination_reads_nothing() {
    let mut repo = state();
    repo.worktrees = WorktreeIndex::Unavailable;
    repo.refs = RefStore { entries: vec![entry("refs/heads/main", RefValue::Unreadable)], log: vec![] };
    let out = resolve(&mut repo, &vec![mapping(3, None, 0)], &vec![spec(true)], DryRun::No).unwrap();
    assert_eq!(out.updates, vec![update(Mode::NoChangeNeeded, None)]);
    assert_eq!(out.edits, vec![]);
}

#[test]
fn a_checked_out_destination_is_refused_even_if_nothing_would_change() {
    let refused = Mode::RejectedCurrentlyCheckedOut { worktree_dir: "/work/main".to_string() };
    for force in [false, true] {
        assert_eq!(run(3, Some("refs/heads/main"), force), (update(refused.clone(), None), None));
        assert_eq!(run(9, Some("refs/heads/main"), force), (update(refused.clone(), None), None));
    }
}

#[test]
fn a_checked_out_destination_is_refused_whatever_became_of_the_worktree() {
    assert_eq!(
        run(2, Some("refs/heads/topic"), true),
        (update(Mode::RejectedCurrentlyCheckedOut { worktree_dir: "/work/gone".to_string() }, None), None)
    );
}

#[test]
fn a_branch_that_does_not_exist_yet_is_refused_if_it_is_checked_out() {
    let mut repo = state();
    repo.worktrees = WorktreeIndex::Listed(vec![checkout(
        "/work/unborn",
        Liveness::Present,
        Some("refs/heads/unborn"),
    )]);
    let out = resolve(
        &mut repo,
        &vec![mapping(3, Some("refs/heads/unborn"), 0)],
        &vec![spec(false)],
        DryRun::Yes,
    )
    .unwrap();
    assert_eq!(
        out.updates,
        vec![update(Mode::RejectedCurrentlyCheckedOut { worktree_dir: "/work/unborn".to_string() }, None)]
    );
}

#[test]
fn a_symbolic_destination_is_refused_before_worktrees_are_looked_at() {
    let mut repo = state();
    repo.worktrees = WorktreeIndex::Listed(vec![checkout(
        "/work/link",
        Liveness::Present,
        Some("refs/heads/link"),
    )]);
    for force in [false, true] {
        let out = resolve(
            &mut repo,
            &vec![mapping(3, Some("refs/heads/link"), 0)],
            &vec![spec(force)],
            DryRun::Yes,
        )
        .unwrap();
        assert_eq!(out.updates, vec![update(Mode::RejectedSymbolic, None)]);
        assert_eq!(out.edits.len(), 0);
    }
    repo.worktrees = WorktreeIndex::Unavailable;
    let out = resolve(
        &mut repo,
        &vec![mapping(3, Some("refs/heads/link"), 0)],
        &vec![spec(true)],
        DryRun::Yes,
    )
    .unwrap();
    assert_eq!(out.updates, vec![update(Mode::RejectedSymbolic, None)]);
}

#[test]
fn a_tag_with_another_value_is_kept_unless_forced() {
    assert_eq!(run(3, Some("refs/tags/v1"), false), (update(Mode::RejectedTagUpdate, None), None));
    let (forced, edit) = run(3, Some("refs/tags/v1"), true);
    assert_eq!(forced, update(Mode::Forced, Some(0)));
    assert_eq!(
        edit,
        Some(RefEdit {
            name: full("refs/tags/v1"),
            new: oid(3),
            expected: PreviousValue::MustExistAndMatch(oid(1)),
            message: "fetch: updating tag".to_string(),
        })
    );
}

#[test]
fn a_tag_is_never_fast_forwarded() {
    // 3 descends from 1, which would move a branch forward
    assert_eq!(run(3, Some("refs/tags/v1"), false).0.mode, Mode::RejectedTagUpdate);
    assert_eq!(run(3, Some("refs/remotes/origin/old"), false).0.mode, Mode::FastForward);
}

#[test]
fn a_tag_with_the_same_value_needs_no_change() {
    for force in [false, true] {
        let (same, edit) = run(1, Some("refs/tags/v1"), force);
        assert_eq!(same, update(Mode::NoChangeNeeded, Some(0)));
        assert_eq!(edit.unwrap().expected, PreviousValue::MustExistAndMatch(oid(1)));
    }
}

#[test]
fn an_equal_value_queues_an_edit_that_changes_nothing() {
    let (same, edit) = run(3, Some("refs/remotes/origin/main"), false);
    assert_eq!(same, update(Mode::NoChangeNeeded, Some(0)));
    assert_eq!(
        edit,
        Some(RefEdit {
            name: full("refs/remotes/origin/main"),
            new: oid(3),
            expected: PreviousValue::MustExistAndMatch(oid(3)),
            message: "fetch: no update will be performed".to_string(),
        })
    );
}

#[test]
fn a_missing_destination_is_created() {
    for force in [false, true] {
        let (new, edit) = run(3, Some("refs/remotes/origin/new"), force);
        assert_eq!(new, update(Mode::New, Some(0)));
        assert_eq!(
            edit,
            Some(RefEdit {
                name: full("refs/remotes/origin/new"),
                new: oid(3),
                expected: PreviousValue::MustNotExist,
                message: "fetch: storing ref".to_string(),
            })
        );
    }
    assert_eq!(run(3, Some("refs/tags/v2"), false).1.unwrap().message, "fetch: storing tag");
    assert_eq!(run(3, Some("refs/heads/new"), false).1.unwrap().message, "fetch: storing head");
}

#[test]
fn force_overwrites_without_looking_at_the_history() {
    let (forced, edit) = run(9, Some("refs/remotes/origin/main"), true);
    assert_eq!(forced, update(Mode::Forced, Some(0)));
    assert_eq!(
        edit,
        Some(RefEdit {
            name: full("refs/remotes/origin/main"),
            new: oid(9),
            expected: PreviousValue::MustExistAndMatch(oid(3)),
            message: "fetch: forced-update".to_string(),
        })
    );
    // a descendant is written as forced too, since the flag decides first
    assert_eq!(run(3, Some("refs/remotes/origin/old"), true).0.mode, Mode::Forced);
    // an object that the graph does not know
    assert_eq!(run(42, Some("refs/remotes/origin/main"), true).0.mode, Mode::Forced);
}

#[test]
fn without_force_only_descendants_are_written() {
    let (forward, edit) = run(3, Some("refs/remotes/origin/old"), false);
    assert_eq!(forward, update(Mode::FastForward, Some(0)));
    assert_eq!(
        edit,
        Some(RefEdit {
            name: full("refs/remotes/origin/old"),
            new: oid(3),
            expected: PreviousValue::MustExistAndMatch(oid(2)),
            message: "fetch: fast-forward".to_string(),
        })
    );
    // backwards
    assert_eq!(run(2, Some("refs/remotes/origin/main"), false), (update(Mode::RejectedNonFastForward, None), None));
    // sideways
    assert_eq!(run(9, Some("refs/remotes/origin/main"), false), (update(Mode::RejectedNonFastForward, None), None));
    // unknown to the graph
    assert_eq!(run(42, Some("refs/remotes/origin/main"), false), (update(Mode::RejectedNonFastForward, None), None));
}

#[test]
fn the_pattern_of_the_mapping_decides_on_force() {
    let mut repo = state();
    let specs = vec![spec(false), spec(true)];
    let mappings = vec![
        mapping(9, Some("refs/remotes/origin/main"), 0),
        mapping(9, Some("refs/remotes/origin/main"), 1),
    ];
    let out = resolve(&mut repo, &mappings, &specs, DryRun::Yes).unwrap();
    assert_eq!(
        out.updates,
        vec![update(Mode::RejectedNonFastForward, None), update(Mode::Forced, Some(0))]
    );
}

#[test]
fn the_source_may_be_an_object_or_a_symbolic_reference() {
    let mut repo = state();
    let mappings = vec![
        Mapping { remote: Source::ObjectId(oid(3)), local: Some(full("refs/remotes/origin/a")), spec_index: 0 },
        Mapping {
            remote: Source::Ref(RemoteRef::Symbolic {
                full_ref_name: b"HEAD".to_vec(),
                target: b"refs/heads/main".to_vec(),
                object: oid(2),
            }),
            local: Some(full("refs/remotes/origin/HEAD")),
            spec_index: 0,
        },
    ];
    let out = resolve(&mut repo, &mappings, &vec![spec(false)], DryRun::Yes).unwrap();
    assert_eq!(out.edits[0].new, oid(3));
    assert_eq!(out.edits[1].new, oid(2));
}

#[test]
fn updates_follow_the_mappings_and_edits_follow_the_updates() {
    let mut repo = state();
    let mappings = vec![
        mapping(3, Some("refs/remotes/origin/new"), 0),
        mapping(3, Some("refs/heads/main"), 0),
        mapping(3, None, 0),
        mapping(3, Some("refs/remotes/origin/main"), 0),
        mapping(3, Some("refs/tags/v1"), 0),
        mapping(3, Some("refs/heads/link"), 0),
        mapping(9, Some("refs/remotes/origin/main"), 0),
        mapping(9, Some("refs/remotes/origin/side"), 1),
        mapping(3, Some("refs/remotes/origin/old"), 0),
        mapping(3, Some("refs/tags/v1"), 1),
    ];
    let out = resolve(&mut repo, &mappings, &vec![spec(false), spec(true)], DryRun::Yes).unwrap();
    assert_eq!(
        out.updates,
        vec![
            update(Mode::New, Some(0)),
            update(Mode::RejectedCurrentlyCheckedOut { worktree_dir: "/work/main".to_string() }, None),
            update(Mode::NoChangeNeeded, None),
            update(Mode::NoChangeNeeded, Some(1)),
            update(Mode::RejectedTagUpdate, None),
            update(Mode::RejectedSymbolic, None),
            update(Mode::RejectedNonFastForward, None),
            update(Mode::NoChangeNeeded, Some(2)),
            update(Mode::FastForward, Some(3)),
            update(Mode::Forced, Some(4)),
        ]
    );
    assert_eq!(out.updates.len(), mappings.len());
    let with_edit = out.updates.iter().filter(|u| u.edit_index.is_some()).count();
    assert_eq!(out.edits.len(), with_edit);
    assert_eq!(
        out.edits.iter().map(|e| e.name.bytes.clone()).collect::<Vec<_>>(),
        vec![
            b"refs/remotes/origin/new".to_vec(),
            b"refs/remotes/origin/main".to_vec(),
            b"refs/remotes/origin/side".to_vec(),
            b"refs/remotes/origin/old".to_vec(),
            b"refs/tags/v1".to_vec(),
        ]
    );
    for (i, u) in out.updates.iter().enumerate() {
        if let Some(at) = u.edit_index {
            assert_eq!(out.edits[at].name, mappings[i].local.clone().unwrap());
        }
    }
}

#[test]
fn no_mappings_give_an_empty_outcome() {
    let mut repo = state();
    let out = resolve(&mut repo, &vec![], &vec![], DryRun::No).unwrap();
    assert_eq!(out, Outcome { updates: vec![], edits: vec![] });
    assert_eq!(repo, state());
}

#[test]
fn the_same_input_gives_the_same_outcome() {
    let mappings = vec![
        mapping(3, Some("refs/remotes/origin/new"), 0),
        mapping(9, Some("refs/remotes/origin/main"), 1),
        mapping(3, Some("refs/heads/main"), 0),
    ];
    let specs = vec![spec(false), spec(true)];
    let mut repo = state();
    let first = resolve(&mut repo, &mappings, &specs, DryRun::Yes);
    let second = resolve(&mut repo, &mappings, &specs, DryRun::Yes);
    let mut other = state();
    let third = resolve(&mut other, &mappings, &specs, DryRun::Yes);
    assert_eq!(first, second);
    assert_eq!(first, third);
    assert_eq!(first, plan(&state(), &mappings, &specs));
}

#[test]
fn a_dry_run_leaves_every_reference_as_it_was() {
    let mappings = vec![
        mapping(3, Some("refs/remotes/origin/new"), 0),
        mapping(9, Some("refs/remotes/origin/main"), 1),
    ];
    let mut repo = state();
    let out = resolve(&mut repo, &mappings, &vec![spec(false), spec(true)], DryRun::Yes).unwrap();
    assert_eq!(out.edits.len(), 2);
    assert_eq!(repo, state());
    assert_eq!(repo.refs.read(&full("refs/remotes/origin/new")), None);
    assert_eq!(repo.refs.read(&full("refs/remotes/origin/main")), Some(&RefValue::Direct(oid(3))));
}

#[test]
fn without_dry_run_the_edits_are_written() {
    let mappings = vec![
        mapping(3, Some("refs/remotes/origin/new"), 0),
        mapping(9, Some("refs/remotes/origin/main"), 1),
        mapping(9, Some("refs/tags/v1"), 0),
    ];
    let specs = vec![spec(false), spec(true)];
    let mut repo = state();
    let planned = plan(&repo, &mappings, &specs).unwrap();
    let out = resolve(&mut repo, &mappings, &specs, DryRun::No).unwrap();
    assert_eq!(out, planned);
    assert_eq!(repo.refs.read(&full("refs/remotes/origin/new")), Some(&RefValue::Direct(oid(3))));
    assert_eq!(repo.refs.read(&full("refs/remotes/origin/main")), Some(&RefValue::Direct(oid(9))));
    assert_eq!(repo.refs.read(&full("refs/tags/v1")), Some(&RefValue::Direct(oid(1))));
    assert_eq!(repo.refs.read(&full("refs/heads/main")), Some(&RefValue::Direct(oid(3))));
    assert_eq!(repo.worktrees, state().worktrees);
    assert_eq!(repo.graph, state().graph);

    let again = resolve(&mut repo, &mappings, &specs, DryRun::No).unwrap();
    assert_eq!(
        again.updates,
        vec![
            update(Mode::NoChangeNeeded, Some(0)),
            update(Mode::NoChangeNeeded, Some(1)),
            update(Mode::RejectedTagUpdate, None),
        ]
    );
}

#[test]
fn an_unreadable_destination_ends_the_fetch() {
    let mappings = vec![
        mapping(3, Some("refs/remotes/origin/new"), 0),
        mapping(3, Some("refs/heads/broken"), 0),
    ];
    for dry_run in [DryRun::Yes, DryRun::No] {
        let mut repo = state();
        assert_eq!(resolve(&mut repo, &mappings, &vec![spec(true)], dry_run), Err(Error::ReadFailed));
        assert_eq!(repo, state());
    }
    assert_eq!(classify(&state(), &mappings[1], &vec![spec(false)]), Err(Error::ReadFailed));
}

#[test]
fn worktrees_that_cannot_be_listed_end_the_fetch() {
    let mut repo = state();
    repo.worktrees = WorktreeIndex::Unavailable;
    let before = repo.clone();
    for name in ["refs/remotes/origin/new", "refs/remotes/origin/main", "refs/tags/v1"] {
        assert_eq!(
            resolve(&mut repo, &vec![mapping(3, Some(name), 0)], &vec![spec(true)], DryRun::No),
            Err(Error::EnumerationFailed)
        );
        assert_eq!(repo, before);
    }
}

#[test]
fn the_first_failure_is_the_one_reported() {
    let mut repo = state();
    repo.worktrees = WorktreeIndex::Unavailable;
    let broken = mapping(3, Some("refs/heads/broken"), 0);
    let unlisted = mapping(3, Some("refs/remotes/origin/new"), 0);
    assert_eq!(
        resolve(&mut repo, &vec![broken.clone(), unlisted.clone()], &vec![spec(false)], DryRun::Yes),
        Err(Error::ReadFailed)
    );
    assert_eq!(
        resolve(&mut repo, &vec![unlisted, broken], &vec![spec(false)], DryRun::Yes),
        Err(Error::EnumerationFailed)
    );
}

#[test]
fn classification_of_one_mapping() {
    assert_eq!(
        classify(&state(), &mapping(3, Some("refs/heads/link"), 0), &vec![spec(true)]),
        Ok(Classified { mode: Mode::RejectedSymbolic, edit: None })
    );
    assert_eq!(
        classify(&state(), &mapping(3, Some("refs/remotes/origin/x"), 0), &vec![spec(false)]),
        Ok(Classified {
            mode: Mode::New,
            edit: Some(RefEdit {
                name: full("refs/remotes/origin/x"),
                new: oid(3),
                expected: PreviousValue::MustNotExist,
                message: "fetch: storing ref".to_string(),
            }),
        })
    );
}

fn edit(name: &str, new: u8, expected: PreviousValue) -> RefEdit {
    RefEdit { name: full(name), new: oid(new), expected, message: "test".to_string() }
}

#[test]
fn a_batch_is_written_if_every_expectation_is_met() {
    let mut store = state().refs;
    let edits = vec![
        edit("refs/heads/main", 9, PreviousValue::MustExistAndMatch(oid(3))),
        edit("refs/heads/new", 1, PreviousValue::MustNotExist),
        edit("refs/heads/new", 2, PreviousValue::MustNotExist),
    ];
    assert_eq!(apply(&mut store, &edits, DryRun::No), Ok(()));
    assert_eq!(store.read(&full("refs/heads/main")), Some(&RefValue::Direct(oid(9))));
    assert_eq!(store.read(&full("refs/heads/new")), Some(&RefValue::Direct(oid(2))));
    assert_eq!(store.read(&full("refs/heads/topic")), Some(&RefValue::Direct(oid(2))));
}

#[test]
fn every_committed_edit_leaves_a_line_in_the_log() {
    let mut store = state().refs;
    let edits = vec![
        edit("refs/heads/main", 3, PreviousValue::MustExistAndMatch(oid(3))),
        edit("refs/heads/new", 1, PreviousValue::MustNotExist),
    ];
    assert_eq!(apply(&mut store, &edits, DryRun::No), Ok(()));
    assert_eq!(store.commit_batch(&vec![edit("refs/heads/new", 2, PreviousValue::MustExistAndMatch(oid(1)))]), Ok(()));
    assert_eq!(
        store.log,
        vec![
            LogLine { name: full("refs/heads/main"), new: oid(3), message: "test".to_string() },
            LogLine { name: full("refs/heads/new"), new: oid(1), message: "test".to_string() },
            LogLine { name: full("refs/heads/new"), new: oid(2), message: "test".to_string() },
        ]
    );
    assert_eq!(
        store.commit_batch(&vec![edit("refs/heads/new", 3, PreviousValue::MustNotExist)]),
        Err(CommitError::ConcurrentModification)
    );
    assert_eq!(store.log.len(), 3);
}

#[test]
fn a_fetch_logs_what_it_wrote_and_why() {
    let mut repo = state();
    let mappings = vec![
        mapping(3, Some("refs/remotes/origin/main"), 0),
        mapping(3, Some("refs/heads/main"), 0),
        mapping(3, Some("refs/tags/v2"), 0),
    ];
    resolve(&mut repo, &mappings, &vec![spec(false)], DryRun::Yes).unwrap();
    assert_eq!(repo.refs.log, vec![]);
    resolve(&mut repo, &mappings, &vec![spec(false)], DryRun::No).unwrap();
    assert_eq!(
        repo.refs.log,
        vec![
            LogLine {
                name: full("refs/remotes/origin/main"),
                new: oid(3),
                message: "fetch: no update will be performed".to_string(),
            },
            LogLine { name: full("refs/tags/v2"), new: oid(3), message: "fetch: storing tag".to_string() },
        ]
    );
}

#[test]
fn a_batch_is_not_written_if_one_expectation_is_not_met() {
    for unmet in [
        edit("refs/heads/main", 9, PreviousValue::MustExistAndMatch(oid(2))),
        edit("refs/heads/main", 9, PreviousValue::MustNotExist),
        edit("refs/heads/none", 9, PreviousValue::MustExistAndMatch(oid(2))),
        edit("refs/heads/link", 9, PreviousValue::MustExistAndMatch(oid(3))),
        edit("refs/heads/broken", 9, PreviousValue::MustExistAndMatch(oid(3))),
        edit("refs/heads/broken", 9, PreviousValue::MustNotExist),
    ] {
        let mut store = state().refs;
        let edits = vec![edit("refs/heads/new", 1, PreviousValue::MustNotExist), unmet];
        assert_eq!(apply(&mut store, &edits, DryRun::No), Err(CommitError::ConcurrentModification));
        assert_eq!(store, state().refs);
    }
}

#[test]
fn a_batch_is_not_written_in_a_dry_run() {
    let mut store = state().refs;
    let edits = vec![
        edit("refs/heads/new", 1, PreviousValue::MustNotExist),
        edit("refs/heads/main", 9, PreviousValue::MustNotExist),
    ];
    assert_eq!(apply(&mut store, &edits, DryRun::Yes), Ok(()));
    assert_eq!(store, state().refs);
}

#[test]
fn a_store_reads_what_was_set() {
    let mut store = RefStore::new();
    assert_eq!(store.read(&full("refs/heads/a")), None);
    store.set(&full("refs/heads/a"), RefValue::Direct(oid(1)));
    store.set(&full("refs/heads/b"), RefValue::Symbolic(full("refs/heads/a")));
    store.set(&full("refs/heads/a"), RefValue::Direct(oid(2)));
    assert_eq!(store.read(&full("refs/heads/a")), Some(&RefValue::Direct(oid(2))));
    assert_eq!(store.read(&full("refs/heads/b")), Some(&RefValue::Symbolic(full("refs/heads/a"))));
    assert_eq!(store.read(&full("refs/heads/")), None);
    assert_eq!(store.entries.len(), 2);
}

#[test]
fn of_two_entries_with_one_name_the_first_counts() {
    let mut store = RefStore {
        entries: vec![
            entry("refs/heads/a", RefValue::Direct(oid(1))),
            entry("refs/heads/a", RefValue::Direct(oid(2))),
        ],
        log: vec![],
    };
    assert_eq!(store.read(&full("refs/heads/a")), Some(&RefValue::Direct(oid(1))));
    store.set(&full("refs/heads/a"), RefValue::Direct(oid(3)));
    assert_eq!(store.read(&full("refs/heads/a")), Some(&RefValue::Direct(oid(3))));
}

#[test]
fn the_first_worktree_with_the_branch_holds_it() {
    let worktrees = match state().worktrees {
        WorktreeIndex::Listed(worktrees) => worktrees,
        WorktreeIndex::Unavailable => unreachable!(),
    };
    assert_eq!(holder_of(&worktrees, &full("refs/heads/main")), Some(0));
    assert_eq!(holder_of(&worktrees, &full("refs/heads/topic")), Some(2));
    assert_eq!(holder_of(&worktrees, &full("refs/heads/other")), None);
    assert_eq!(holder_of(&vec![], &full("refs/heads/main")), None);
    assert_eq!(worktrees[1].checked_out_ref(), None);
    assert_eq!(worktrees[0].checked_out_ref(), Some(&full("refs/heads/main")));
}

#[test]
fn names_fall_under_namespaces() {
    assert_eq!(full("refs/tags/v1").category(), Some(Category::Tag));
    assert_eq!(full("refs/tags/").category(), Some(Category::Tag));
    assert_eq!(full("refs/heads/main").category(), Some(Category::LocalBranch));
    assert_eq!(full("refs/remotes/origin/main").category(), None);
    assert_eq!(full("refs/tags").category(), None);
    assert_eq!(full("HEAD").category(), None);
    assert_eq!(full("").category(), None);
    assert!(full("refs/tags/a/b").is_tag());
    assert!(!full("refs/heads/tags/a").is_tag());
    assert!(!full("xrefs/tags/a").is_tag());
}

#[test]
fn a_pattern_with_a_plus_permits_losing_history() {
    assert!(spec(true).allow_non_fast_forward());
    assert!(!spec(false).allow_non_fast_forward());
}
