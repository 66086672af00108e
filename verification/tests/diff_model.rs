use codex_tui::diff_model::{
    content_after_change, content_before_change, content_before_changes, count_lines,
    ContentAfterChange, FileChange, SessionFileChange,
};
use similar::TextDiff;
use std::path::PathBuf;

fn unified(before: &str, after: &str, radius: usize) -> String {
    TextDiff::from_lines(before, after)
        .unified_diff()
        .context_radius(radius)
        .to_string()
}

fn update(before: &str, after: &str) -> FileChange {
    FileChange::Update {
        unified_diff: unified(before, after, 3),
        move_path: None,
    }
}

#[test]
fn session_change_keeps_the_original_across_multiple_updates() {
    let original = "one\ntwo\nthree\nfour\n";
    let first = "one\nTWO\nthree\nfour\n";
    let second = "one\nTWO\nthree\nFOUR\n";
    let first_update = FileChange::Update {
        unified_diff: TextDiff::from_lines(original, first)
            .unified_diff()
            .context_radius(3)
            .to_string(),
        move_path: None,
    };
    let second_update = FileChange::Update {
        unified_diff: TextDiff::from_lines(first, second)
            .unified_diff()
            .context_radius(3)
            .to_string(),
        move_path: None,
    };
    let change = SessionFileChange::new(Some(original.to_string()), first_update.clone())
        .complete(Some(first.to_string()), first_update)
        .complete(Some(second.to_string()), second_update);

    let FileChange::Update { unified_diff, .. } = change.display_change(4) else {
        panic!("expected an update");
    };
    assert!(unified_diff.contains("-two"));
    assert!(unified_diff.contains("+TWO"));
    assert!(unified_diff.contains("-four"));
    assert!(unified_diff.contains("+FOUR"));
}

#[test]
fn adaptive_context_does_not_render_candidates_larger_than_the_viewport() {
    let original = (1..=6_000)
        .map(|line| format!("line {line}\n"))
        .collect::<String>();
    let current = original.replace("line 3000\n", "changed 3000\n");
    let fallback = FileChange::Update {
        unified_diff: TextDiff::from_lines(&original, &current)
            .unified_diff()
            .context_radius(3)
            .to_string(),
        move_path: None,
    };
    let change =
        SessionFileChange::new(Some(original), fallback.clone()).complete(Some(current), fallback);
    let mut largest_candidate = 0;

    change.adaptive_display_change(20, |candidate| {
        let FileChange::Update { unified_diff, .. } = candidate else {
            return false;
        };
        largest_candidate = largest_candidate.max(unified_diff.lines().count());
        unified_diff.lines().count() <= 15
    });

    assert!(largest_candidate <= 43);
}

#[test]
fn pending_session_change_is_not_visible() {
    let change = SessionFileChange::new(
        None,
        FileChange::Add {
            content: "pending\n".to_string(),
        },
    );

    assert!(!change.is_changed());
}

#[test]
fn added_then_deleted_file_is_not_visible() {
    let add = FileChange::Add {
        content: "temporary\n".to_string(),
    };
    let delete = FileChange::Delete {
        content: "temporary\n".to_string(),
    };
    let change = SessionFileChange::new(None, add)
        .complete(Some("temporary\n".to_string()), delete.clone())
        .complete(None, delete);

    assert!(!change.is_changed());
}

#[test]
fn pure_move_is_visible() {
    let move_change = FileChange::Update {
        unified_diff: String::new(),
        move_path: Some(PathBuf::from("new.txt")),
    };
    let change = SessionFileChange::new(Some("same\n".to_string()), move_change.clone())
        .complete(Some("same\n".to_string()), move_change);

    assert!(change.is_changed());
}

#[test]
fn missing_update_result_remains_visible_as_unavailable() {
    let update = FileChange::Update {
        unified_diff: TextDiff::from_lines("old\n", "new\n")
            .unified_diff()
            .context_radius(3)
            .to_string(),
        move_path: None,
    };
    let change = SessionFileChange::new(None, update.clone()).complete(None, update);

    assert!(change.reconstruction_unavailable());
    assert!(change.is_changed());
}

#[test]
fn replayed_missing_update_remains_visible_as_unavailable() {
    let update = FileChange::Update {
        unified_diff: TextDiff::from_lines("old\n", "new\n")
            .unified_diff()
            .context_radius(3)
            .to_string(),
        move_path: None,
    };
    let change = SessionFileChange::from_completed(None, update);

    assert!(change.reconstruction_unavailable());
    assert!(change.is_changed());
}

#[test]
fn replayed_add_then_update_reconstructs_an_absent_baseline() {
    let add = FileChange::Add {
        content: "initial\n".to_string(),
    };
    let update = FileChange::Update {
        unified_diff: TextDiff::from_lines("initial\n", "updated\n")
            .unified_diff()
            .context_radius(3)
            .to_string(),
        move_path: None,
    };
    let change = SessionFileChange::from_completed(Some("initial\n".to_string()), add)
        .complete(Some("updated\n".to_string()), update)
        .resolve_inferred_baseline();

    assert!(!change.reconstruction_unavailable());
    assert!(matches!(
        change.display_change(/*context*/ 3),
        FileChange::Add { .. }
    ));
}

#[test]
fn replayed_add_then_delete_collapses_to_no_change() {
    let add = FileChange::Add {
        content: "temporary\n".to_string(),
    };
    let delete = FileChange::Delete {
        content: "temporary\n".to_string(),
    };
    let change = SessionFileChange::from_completed(None, add)
        .complete(None, delete)
        .resolve_inferred_baseline();

    assert!(!change.reconstruction_unavailable());
    assert!(!change.is_changed());
}

#[test]
fn replayed_pure_move_reconstructs_without_a_patch_body() {
    let move_change = FileChange::Update {
        unified_diff: String::new(),
        move_path: Some(PathBuf::from("destination.txt")),
    };
    let change = SessionFileChange::from_completed(Some("same\n".to_string()), move_change)
        .resolve_inferred_baseline();

    assert!(!change.reconstruction_unavailable());
    assert!(change.moved_to(&PathBuf::from("destination.txt")));
}

#[test]
fn later_update_retains_the_move_destination() {
    let original = "one\ntwo\n";
    let moved = FileChange::Update {
        unified_diff: String::new(),
        move_path: Some(PathBuf::from("destination.txt")),
    };
    let updated = FileChange::Update {
        unified_diff: TextDiff::from_lines(original, "one\nTWO\n")
            .unified_diff()
            .context_radius(3)
            .to_string(),
        move_path: None,
    };
    let change = SessionFileChange::new(Some(original.to_string()), moved.clone())
        .complete(Some(original.to_string()), moved)
        .complete(Some("one\nTWO\n".to_string()), updated);

    assert!(change.moved_to(&PathBuf::from("destination.txt")));
}

#[test]
fn replayed_session_change_reverses_all_updates_from_the_current_file() {
    let original = (1..=20)
        .map(|line| format!("line {line}\n"))
        .collect::<String>();
    let first = original.replace("line 4\n", "first change\n");
    let current = first.replace("line 17\n", "second change\n");

    let second_update = update(&first, &current);
    let change =
        SessionFileChange::from_completed(Some(current.clone()), update(&original, &first))
            .complete(Some(current), second_update)
            .resolve_inferred_baseline();

    let FileChange::Update { unified_diff, .. } = change.display_change(3) else {
        panic!("expected an update");
    };
    assert!(unified_diff.contains("-line 4"));
    assert!(unified_diff.contains("+first change"));
    assert!(unified_diff.contains("-line 17"));
    assert!(unified_diff.contains("+second change"));
}

#[test]
fn replayed_session_change_reverses_overlapping_updates_in_reverse_order() {
    let original = "one\ntwo\nthree\n";
    let first = "one\nTWO\nthree\n";
    let current = "one\nSECOND\nthree\n";
    let second_update = update(first, current);

    let change =
        SessionFileChange::from_completed(Some(current.to_string()), update(original, first))
            .complete(Some(current.to_string()), second_update)
            .resolve_inferred_baseline();

    let FileChange::Update { unified_diff, .. } = change.display_change(3) else {
        panic!("expected an update");
    };
    assert!(unified_diff.contains("-two"));
    assert!(unified_diff.contains("+SECOND"));
}

#[test]
fn a_patch_is_applied_and_taken_back() {
    let change = update("one\ntwo\n", "one\nTWO\n");
    match content_after_change(Some("one\ntwo\n"), &change) {
        ContentAfterChange::Applied(content) => assert_eq!(content.as_deref(), Some("one\nTWO\n")),
        ContentAfterChange::Unavailable => panic!("expected the patch to apply"),
    }
    assert_eq!(
        content_before_change(Some("one\nTWO\n"), &change),
        Ok(Some("one\ntwo\n".to_string()))
    );
}

#[test]
fn a_patch_that_finds_no_place_is_unavailable() {
    let change = update("one\ntwo\n", "one\nTWO\n");
    assert!(matches!(
        content_after_change(Some("something else\n"), &change),
        ContentAfterChange::Unavailable
    ));
    assert_eq!(
        content_before_change(Some("something else\n"), &change),
        Err(())
    );
}

#[test]
fn a_patch_that_cannot_be_read_is_unavailable() {
    let change = FileChange::Update {
        unified_diff: "@@ not a hunk @@\n".to_string(),
        move_path: None,
    };
    assert!(change.is_patchable());
    assert!(matches!(
        content_after_change(Some("one\n"), &change),
        ContentAfterChange::Unavailable
    ));
    assert_eq!(content_before_change(Some("one\n"), &change), Err(()));
}

#[test]
fn an_update_of_a_missing_file_is_unavailable() {
    let change = update("one\n", "two\n");
    assert!(matches!(
        content_after_change(None, &change),
        ContentAfterChange::Unavailable
    ));
    assert_eq!(content_before_change(None, &change), Err(()));
}

#[test]
fn additions_and_deletions_name_their_own_contents() {
    let add = FileChange::Add {
        content: "new\n".to_string(),
    };
    let delete = FileChange::Delete {
        content: "old\n".to_string(),
    };
    assert!(matches!(
        content_after_change(Some("ignored\n"), &add),
        ContentAfterChange::Applied(Some(content)) if content == "new\n"
    ));
    assert!(matches!(
        content_after_change(Some("ignored\n"), &delete),
        ContentAfterChange::Applied(None)
    ));
    assert_eq!(content_before_change(Some("new\n"), &add), Ok(None));
    assert_eq!(
        content_before_change(None, &delete),
        Ok(Some("old\n".to_string()))
    );
}

#[test]
fn changes_are_taken_back_last_first() {
    let changes = vec![update("a\n", "b\n"), update("b\n", "c\n")];
    assert_eq!(
        content_before_changes(Some("c\n"), &changes),
        Ok(Some("a\n".to_string()))
    );
    let reversed = vec![update("b\n", "c\n"), update("a\n", "b\n")];
    assert_eq!(content_before_changes(Some("c\n"), &reversed), Err(()));
    assert_eq!(
        content_before_changes(Some("c\n"), &Vec::new()),
        Ok(Some("c\n".to_string()))
    );
}

fn with_header(header: &str) -> FileChange {
    FileChange::Update {
        unified_diff: format!("{header}\n-a\n+b\n"),
        move_path: None,
    }
}

fn with_two_headers(first: &str, second: &str) -> FileChange {
    FileChange::Update {
        unified_diff: format!("{first}\n-a\n+b\n{second}\n-c\n+d\n"),
        move_path: None,
    }
}

#[test]
fn line_numbers_near_the_limit_are_not_patchable_before_another_hunk() {
    let limit = usize::MAX;
    let second = "@@ -9 +9 @@";
    assert!(!with_two_headers(&format!("@@ -{limit} +1 @@"), second).is_patchable());
    assert!(!with_two_headers(&format!("@@ -1 +{limit},1 @@"), second).is_patchable());
    assert!(with_two_headers(&format!("@@ -{} +1 @@", limit - 1), second).is_patchable());
    assert!(!with_two_headers(&format!("@@ -{},2 +1 @@", limit - 1), second).is_patchable());
    assert!(with_two_headers(&format!("@@ -{},1 +1 @@", limit - 1), second).is_patchable());
    assert!(with_two_headers(&format!("@@ -{limit},0 +1 @@"), second).is_patchable());
    assert!(with_two_headers(&format!("@@ -1,{limit} +1 @@"), second).is_patchable());
    assert!(with_two_headers(&format!("@@ -1 +1 @@ {limit} "), second).is_patchable());
    assert!(with_two_headers("@@ -1 +1 @@", &format!("@@ -{limit} +9 @@")).is_patchable());
    assert!(FileChange::Update {
        unified_diff: format!("@@ -1 +1 @@\n-{limit} \n+b\n@@ -9 +9 @@\n"),
        move_path: None,
    }
    .is_patchable());
}

#[test]
fn two_hunks_are_applied_and_taken_back() {
    let change = with_two_headers("@@ -1 +1 @@", "@@ -3 +3 @@");
    assert!(matches!(
        content_after_change(Some("a\nkept\nc\n"), &change),
        ContentAfterChange::Applied(Some(content)) if content == "b\nkept\nd\n"
    ));
    assert_eq!(
        content_before_change(Some("b\nkept\nd\n"), &change),
        Ok(Some("a\nkept\nc\n".to_string()))
    );
}

#[test]
fn line_numbers_far_from_the_text_still_find_their_place() {
    for number in [usize::MAX / 2, usize::MAX] {
        let change = with_header(&format!("@@ -{number} +{number} @@"));
        assert!(change.is_patchable());
        assert!(matches!(
            content_after_change(Some("a\n"), &change),
            ContentAfterChange::Applied(Some(content)) if content == "b\n"
        ));
    }
}

#[test]
fn numbers_that_are_no_line_numbers_make_a_patch_unreadable() {
    for header in [
        "@@ -99999999999999999999999 +1 @@",
        "@@ -1 +1,99999999999999999999999 @@",
    ] {
        let change = with_header(header);
        assert!(change.is_patchable());
        assert!(matches!(
            content_after_change(Some("a\n"), &change),
            ContentAfterChange::Unavailable
        ));
    }
}

#[test]
fn the_display_follows_what_the_file_was_and_is() {
    let created = SessionFileChange::new(
        None,
        FileChange::Add {
            content: "a\n".to_string(),
        },
    )
    .complete(
        Some("a\n".to_string()),
        FileChange::Add {
            content: "a\n".to_string(),
        },
    );
    assert!(matches!(
        created.display_change(3),
        FileChange::Add { content } if content == "a\n"
    ));
    assert!(created.is_diffable());

    let deleted = SessionFileChange::new(
        Some("a\n".to_string()),
        FileChange::Delete {
            content: "a\n".to_string(),
        },
    )
    .complete(
        None,
        FileChange::Delete {
            content: "a\n".to_string(),
        },
    );
    assert!(matches!(
        deleted.display_change(3),
        FileChange::Delete { content } if content == "a\n"
    ));

    let edited = SessionFileChange::new(Some("a\n".to_string()), update("a\n", "b\n"))
        .complete(Some("b\n".to_string()), update("a\n", "b\n"));
    assert!(edited.is_diffable());
    assert!(edited.display_change(0)
        == FileChange::Update {
            unified_diff: unified("a\n", "b\n", 0),
            move_path: None,
        });
}

#[test]
fn equal_contents_show_an_empty_diff() {
    let moved = FileChange::Update {
        unified_diff: String::new(),
        move_path: Some(PathBuf::from("new.txt")),
    };
    let change = SessionFileChange::new(Some("same\n".to_string()), moved.clone())
        .complete(Some("same\n".to_string()), moved.clone());
    assert!(change.display_change(3) == moved);
}

#[test]
fn what_cannot_be_reconstructed_shows_the_report() {
    let report = update("old\n", "new\n");
    let change = SessionFileChange::new(None, report.clone()).complete(None, report.clone());
    assert!(change.display_change(3) == report);
    assert!(change.adaptive_display_change(3, |_| true) == report);
}

#[test]
fn the_adaptive_context_is_the_widest_that_fits() {
    let original = (1..=40)
        .map(|line| format!("line {line}\n"))
        .collect::<String>();
    let current = original.replace("line 20\n", "changed\n");
    let change = SessionFileChange::new(Some(original.clone()), update(&original, &current))
        .complete(Some(current.clone()), update(&original, &current));

    let shown = change.adaptive_display_change(20, |candidate| match candidate {
        FileChange::Update { unified_diff, .. } => unified_diff.lines().count() <= 13,
        _ => false,
    });
    assert!(shown
        == FileChange::Update {
            unified_diff: unified(&original, &current, 5),
            move_path: None,
        });

    let widest = change.adaptive_display_change(7, |_| true);
    assert!(widest
        == FileChange::Update {
            unified_diff: unified(&original, &current, 7),
            move_path: None,
        });

    let narrowest = change.adaptive_display_change(7, |_| false);
    assert!(narrowest
        == FileChange::Update {
            unified_diff: unified(&original, &current, 0),
            move_path: None,
        });
}

#[test]
fn the_context_goes_no_further_than_the_longer_text() {
    let change = SessionFileChange::new(Some("a\nb\n".to_string()), update("a\nb\n", "a\nc\nd\n"))
        .complete(Some("a\nc\nd\n".to_string()), update("a\nb\n", "a\nc\nd\n"));
    let mut asked = 0;
    let _ = change.adaptive_display_change(1000, |_| {
        asked += 1;
        true
    });
    assert_eq!(asked, 3);
}

#[test]
fn lines_are_counted_with_and_without_a_final_break() {
    assert_eq!(count_lines(""), 0);
    assert_eq!(count_lines("a"), 1);
    assert_eq!(count_lines("a\n"), 1);
    assert_eq!(count_lines("a\nb"), 2);
    assert_eq!(count_lines("\n\n"), 2);
    assert_eq!(count_lines("a\r\nb\r\n"), 2);
}

#[test]
fn a_late_session_reports_an_inferred_baseline_until_it_is_resolved() {
    let change = SessionFileChange::from_completed(Some("b\n".to_string()), update("a\n", "b\n"));
    assert!(change.baseline_is_inferred());
    assert!(change.is_completed());
    let resolved = change.resolve_inferred_baseline();
    assert!(!resolved.baseline_is_inferred());
    assert!(resolved.display_change(3)
        == FileChange::Update {
            unified_diff: unified("a\n", "b\n", 3),
            move_path: None,
        });
    let again = resolved.resolve_inferred_baseline();
    assert!(again.display_change(3) == resolved.display_change(3));
}

#[test]
fn a_baseline_that_cannot_be_worked_out_is_unavailable() {
    let change =
        SessionFileChange::from_completed(Some("unrelated\n".to_string()), update("a\n", "b\n"))
            .resolve_inferred_baseline();
    assert!(change.reconstruction_unavailable());
    assert!(change.is_changed());
}

#[test]
fn undoing_an_edit_makes_the_file_unchanged() {
    let change = SessionFileChange::new(Some("a\n".to_string()), update("a\n", "b\n"))
        .complete(Some("b\n".to_string()), update("a\n", "b\n"))
        .complete(Some("a\n".to_string()), update("b\n", "a\n"));
    assert!(!change.is_changed());
}

#[test]
fn no_candidate_is_shown_where_no_context_is_allowed() {
    let change = SessionFileChange::new(Some("a\n".to_string()), update("a\n", "b\n"))
        .complete(Some("b\n".to_string()), update("a\n", "b\n"));
    let shown = change.adaptive_display_change(0, |_| panic!("no candidate is to be shown"));
    assert!(shown
        == FileChange::Update {
            unified_diff: unified("a\n", "b\n", 0),
            move_path: None,
        });
}

#[test]
fn undoing_a_run_of_changes_undoes_applying_it() {
    let contents = [
        None,
        Some("one\ntwo\n"),
        Some("one\nTWO\n"),
        Some("one\nTWO\n"),
        None,
    ];
    let changes = vec![
        FileChange::Add {
            content: "one\ntwo\n".to_string(),
        },
        update("one\ntwo\n", "one\nTWO\n"),
        FileChange::Update {
            unified_diff: String::new(),
            move_path: Some(PathBuf::from("moved.txt")),
        },
        FileChange::Delete {
            content: "one\nTWO\n".to_string(),
        },
    ];
    for (i, change) in changes.iter().enumerate() {
        match content_after_change(contents[i], change) {
            ContentAfterChange::Applied(content) => {
                assert_eq!(content.as_deref(), contents[i + 1])
            }
            ContentAfterChange::Unavailable => panic!("expected the change to apply"),
        }
    }
    assert_eq!(content_before_changes(None, &changes), Ok(None));
    let later = changes[1..3].iter().cloned().collect::<Vec<_>>();
    assert_eq!(
        content_before_changes(contents[3], &later),
        Ok(Some("one\ntwo\n".to_string()))
    );
}

#[test]
fn a_diff_that_was_applied_elsewhere_may_be_taken_back_elsewhere() {
    let change = with_header("@@ -1 +1 @@");
    assert!(matches!(
        content_after_change(Some("b\na\n"), &change),
        ContentAfterChange::Applied(Some(content)) if content == "b\nb\n"
    ));
    assert_eq!(
        content_before_change(Some("b\nb\n"), &change),
        Ok(Some("a\nb\n".to_string()))
    );
}

#[test]
fn the_search_goes_by_halves_whatever_the_answers() {
    let original = (1..=40)
        .map(|line| format!("line {line}\n"))
        .collect::<String>();
    let current = original.replace("line 20\n", "changed\n");
    let change = SessionFileChange::new(Some(original.clone()), update(&original, &current))
        .complete(Some(current.clone()), update(&original, &current));
    let radius = |candidate: &FileChange| match candidate {
        FileChange::Update { unified_diff, .. } => (unified_diff.lines().count() - 3) / 2,
        _ => panic!("expected an update"),
    };
    let mut asked = Vec::new();
    let shown = change.adaptive_display_change(10, |candidate| {
        asked.push(radius(candidate));
        radius(candidate) % 2 == 0
    });
    assert_eq!(asked, vec![0, 5, 2, 3]);
    assert_eq!(radius(&shown), 2);
}
