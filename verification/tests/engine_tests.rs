//! Tests of the squash engine: bounded walks, boundary resolution, the
//! squash rewrite, and the selection protocol.

use git_squash::commit::Commit;
use git_squash::error::SquashError;
use git_squash::repo::{collect_present, RepoState};
use git_squash::selection::{
    accept_custom_message, candidate_lines, resolve_selection, MessageSource,
};
use git_squash::validate_input;

/// A linear history of `n` commits: the tip is "Commit {n-1}" and carries
/// tree identity `n - 1`; the root is "Commit 0" with tree 0.
fn linear_history(n: u64) -> RepoState {
    let mut history: Vec<Commit> = Vec::new();
    let mut k = n;
    while k > 0 {
        let i = k - 1;
        let message = format!("Commit {}", i);
        history.push(Commit {
            id: i,
            parents: if i == 0 { vec![] } else { vec![i - 1] },
            timestamp: 1000 + i as i64,
            summary: message.clone(),
            message,
            tree: i,
        });
        k -= 1;
    }
    // The index holds exactly what the tip committed.
    RepoState { index_tree: if n > 0 { n - 1 } else { 0 }, history }
}

#[test]
fn test_commit_message_validation() {
    let long_message = "a".repeat(80 + 1);
    assert!(validate_input(&long_message).is_err());
}

#[test]
fn validation_boundary() {
    let at_limit = "a".repeat(80);
    assert!(validate_input(&at_limit).is_ok());
    let over = "a".repeat(81);
    assert_eq!(validate_input(&over), Err(SquashError::MessageTooLong));
    assert!(validate_input(&String::new()).is_ok());
}

#[test]
fn walk_is_bounded_and_ends_early() {
    let repo = linear_history(3);
    assert_eq!(repo.walk(2).len(), 2);
    assert_eq!(repo.walk(3).len(), 3);
    assert_eq!(repo.walk(10).len(), 3);
    assert_eq!(repo.walk(0).len(), 0);
    let two = repo.walk(2);
    assert_eq!(two[0].message, "Commit 2");
    assert_eq!(two[1].message, "Commit 1");
}

#[test]
fn collect_present_skips_failed_steps() {
    let repo = linear_history(3);
    let mut walked = repo.walk(3).into_iter();
    let c2 = walked.next().unwrap();
    let _c1 = walked.next().unwrap();
    let c0 = walked.next().unwrap();
    let kept = collect_present(vec![Some(c2), None, Some(c0)]);
    assert_eq!(kept.len(), 2);
    assert_eq!(kept[0].id, 2);
    assert_eq!(kept[1].id, 0);
}

#[test]
fn boundary_is_amount_steps_behind_tip() {
    let repo = linear_history(10);
    assert_eq!(repo.find_boundary(5), Ok(5));
    assert_eq!(repo.history[5].message, "Commit 4");
    assert_eq!(repo.find_boundary(0), Ok(0));
    assert_eq!(repo.find_boundary(9), Ok(9));
    assert_eq!(repo.find_boundary(10), Err(SquashError::InsufficientHistory));
}

#[test]
fn squash_five_of_ten() {
    let mut repo = linear_history(10);
    let old_tip_tree = repo.history[0].tree;
    let message = String::from("New commit");
    let r = repo.squash(5, &message, 100, 9999);
    assert_eq!(r, Ok(100));
    assert_eq!(repo.history.len(), 6);
    assert_eq!(repo.history[0].message, "New commit");
    assert_eq!(repo.history[1].message, "Commit 4");
    assert_eq!(repo.history[2].message, "Commit 3");
    assert_eq!(repo.history[3].message, "Commit 2");
    assert_eq!(repo.history[4].message, "Commit 1");
    assert_eq!(repo.history[5].message, "Commit 0");
    // No content is lost: the new tip holds the tree the old tip held.
    assert_eq!(repo.history[0].tree, old_tip_tree);
    // The new tip's sole parent is the boundary commit, which is unchanged.
    assert_eq!(repo.history[0].parents, vec![repo.history[1].id]);
    assert_eq!(repo.history[1].id, 4);
}

#[test]
fn squash_shrinks_history_by_amount_minus_one() {
    let mut repo = linear_history(4);
    let message = String::from("merged");
    assert!(repo.squash(2, &message, 50, 0).is_ok());
    assert_eq!(repo.history.len(), 3);
    assert_eq!(repo.history[0].message, "merged");
}

#[test]
fn squash_more_than_history_fails_unchanged() {
    let mut repo = linear_history(3);
    let before_len = repo.history.len();
    let before_ids: Vec<u64> = repo.history.iter().map(|c| c.id).collect();
    let before_index = repo.index_tree;
    let message = String::from("too much");
    assert_eq!(repo.squash(3, &message, 50, 0), Err(SquashError::InsufficientHistory));
    assert_eq!(repo.squash(5, &message, 50, 0), Err(SquashError::InsufficientHistory));
    assert_eq!(repo.history.len(), before_len);
    let after_ids: Vec<u64> = repo.history.iter().map(|c| c.id).collect();
    assert_eq!(after_ids, before_ids);
    assert_eq!(repo.index_tree, before_index);
    assert_eq!(repo.history[0].message, "Commit 2");
}

#[test]
fn squash_zero_recommits_on_top() {
    let mut repo = linear_history(1);
    let old_tip_id = repo.history[0].id;
    let old_tip_tree = repo.history[0].tree;
    let message = String::from("noop");
    let r = repo.squash(0, &message, 77, 0);
    assert_eq!(r, Ok(77));
    // Recommitting the current state on top of the tip: nothing is absorbed,
    // so the chain grows by the one new commit and nothing shrinks.
    assert_eq!(repo.history.len(), 2);
    assert_eq!(repo.history[0].message, "noop");
    assert_eq!(repo.history[0].tree, old_tip_tree);
    assert_eq!(repo.history[0].parents, vec![old_tip_id]);
    assert_eq!(repo.history[1].id, old_tip_id);
}

#[test]
fn squash_summary_is_first_line_of_message() {
    let mut repo = linear_history(2);
    let message = String::from("headline\nfull body");
    assert!(repo.squash(1, &message, 9, 0).is_ok());
    assert_eq!(repo.history[0].summary, "headline");
    assert_eq!(repo.history[0].message, "headline\nfull body");
}

#[test]
fn selection_zero_is_custom() {
    let repo = linear_history(3);
    let walked = repo.walk(3);
    match resolve_selection(&walked, 0) {
        Ok(MessageSource::Custom) => {}
        other => panic!("expected the custom branch, got {:?}", other.is_ok()),
    }
}

#[test]
fn selection_round_trip() {
    let repo = linear_history(5);
    let walked = repo.walk(4);
    for k in 1..=walked.len() {
        let resolved = resolve_selection(&walked, k);
        let independent = repo.walk(4);
        match resolved {
            Ok(MessageSource::Existing(m)) => assert_eq!(m, independent[k - 1].message),
            _ => panic!("expected a reused message"),
        }
    }
}

#[test]
fn selection_out_of_range_is_invalid() {
    let repo = linear_history(2);
    let walked = repo.walk(2);
    match resolve_selection(&walked, 3) {
        Err(e) => assert_eq!(e, SquashError::InvalidSelection),
        Ok(_) => panic!("expected a failure"),
    }
}

#[test]
fn selection_of_too_long_message_is_rejected() {
    let mut repo = linear_history(1);
    repo.history[0].message = "m".repeat(81);
    let walked = repo.walk(1);
    match resolve_selection(&walked, 1) {
        Err(e) => assert_eq!(e, SquashError::MessageTooLong),
        Ok(_) => panic!("expected a failure"),
    }
}

#[test]
fn custom_message_validation() {
    assert_eq!(accept_custom_message(&String::new()), Err(SquashError::EmptyMessage));
    let over = "x".repeat(81);
    assert_eq!(accept_custom_message(&over), Err(SquashError::MessageTooLong));
    let fine = String::from("a fine message");
    assert_eq!(accept_custom_message(&fine), Ok(fine.clone()));
    let at_limit = "x".repeat(80);
    assert_eq!(accept_custom_message(&at_limit), Ok(at_limit.clone()));
}

#[test]
fn candidate_lines_match_individual_rendering() {
    let repo = linear_history(3);
    let walked = repo.walk(3);
    let now = 2000;
    let lines = candidate_lines(&walked, now);
    assert_eq!(lines.len(), 3);
    for (line, commit) in lines.iter().zip(walked.iter()) {
        assert_eq!(line, &commit.format(now));
    }
}

#[test]
fn error_descriptions_name_the_failure() {
    assert_eq!(
        SquashError::InsufficientHistory.describe(),
        "not enough commits to squash"
    );
    assert_eq!(SquashError::MessageTooLong.describe(), "message is too long, max is 80");
}

#[test]
fn commit_on_empty_history_is_a_root() {
    let mut repo = RepoState { history: Vec::new(), index_tree: 3 };
    let message = String::from("first");
    let id = repo.commit_with_msg(&message, 11, 500);
    assert_eq!(id, 11);
    assert_eq!(repo.history.len(), 1);
    assert!(repo.history[0].parents.is_empty());
    assert_eq!(repo.history[0].tree, 3);
    assert_eq!(repo.history[0].timestamp, 500);
}
