use fuzzy_matcher::skim::SkimMatcherV2;
use fuzzy_matcher::FuzzyMatcher;
use tspace_menu::commands::all_commands;
use tspace_menu::screens::command_palette::{delete_last_word, filter, score_command, CommandPaletteState, PaletteAction};
use tspace_menu::screens::ranking::PaletteMatch;

#[test]
fn empty_query_returns_all_commands_sorted_by_category() {
    let cmds = all_commands();
    let results = filter(&cmds, "");
    assert_eq!(results.len(), cmds.len());
    for i in 1..results.len() {
        let prev_pri = cmds[results[i - 1].cmd_index].category.priority();
        let curr_pri = cmds[results[i].cmd_index].category.priority();
        assert!(
            prev_pri <= curr_pri,
            "category priority must be non-decreasing: {} > {}",
            prev_pri,
            curr_pri
        );
    }
}

#[test]
fn exact_substring_match_ranks_first() {
    let cmds = all_commands();
    let results = filter(&cmds, "new tab");
    assert!(!results.is_empty());
    assert_eq!(cmds[results[0].cmd_index].brief, "New Tab", "exact substring should rank first");
}

#[test]
fn fuzzy_match_finds_relevant_commands_with_correct_indices() {
    let cmds = all_commands();
    let results = filter(&cmds, "nt");
    let nt = results
        .iter()
        .find(|m| cmds[m.cmd_index].brief == "New Tab")
        .expect("fuzzy 'nt' should match 'New Tab'");
    assert!(nt.matched_indices.contains(&0), "N at char index 0");
    assert!(nt.matched_indices.contains(&4), "T at char index 4");
}

#[test]
fn keyword_match_includes_command_without_brief_highlight() {
    let cmds = all_commands();
    let results = filter(&cmds, "create");
    assert!(
        results.iter().any(|m| cmds[m.cmd_index].brief.contains("New")),
        "keyword 'create' should match New Tab / New Pane"
    );
    for m in &results {
        if cmds[m.cmd_index].brief.contains("New") {
            let _ = &m.matched_indices;
        }
    }
}

#[test]
fn nonsense_query_returns_empty() {
    let cmds = all_commands();
    let results = filter(&cmds, "zzzzqq");
    assert!(results.is_empty(), "nonsense query should match nothing");
}

#[test]
fn delete_last_word_trims_to_boundary() {
    let mut s = String::from("hello world");
    delete_last_word(&mut s);
    assert_eq!(s, "hello");

    let mut s = String::from("hello world ");
    delete_last_word(&mut s);
    assert_eq!(s, "hello");

    let mut s = String::from("single");
    delete_last_word(&mut s);
    assert_eq!(s, "");

    let mut s = String::from("");
    delete_last_word(&mut s);
    assert_eq!(s, "");
}

#[test]
fn new_state_has_all_commands_and_selection_at_zero() {
    let state = CommandPaletteState::new();
    assert!(state.query.is_empty());
    assert_eq!(state.selected, 0);
    assert_eq!(state.scroll_offset, 0);
    assert_eq!(state.matches.len(), all_commands().len());
}

#[test]
fn palette_action_variants_are_exhaustive() {
    fn assert_matches(a: PaletteAction) -> &'static str {
        match a {
            PaletteAction::Continue => "continue",
            PaletteAction::Execute(_) => "execute",
            PaletteAction::Close => "close",
            PaletteAction::Noop => "noop",
        }
    }
    assert_eq!(assert_matches(PaletteAction::Continue), "continue");
    assert_eq!(assert_matches(PaletteAction::Execute(0)), "execute");
    assert_eq!(assert_matches(PaletteAction::Close), "close");
    assert_eq!(assert_matches(PaletteAction::Noop), "noop");
}

#[test]
fn empty_query_listing_order_is_priority_then_brief() {
    let cmds = all_commands();
    let results = filter(&cmds, "");
    let briefs: Vec<&str> = results.iter().take(4).map(|m| cmds[m.cmd_index].brief).collect();
    assert_eq!(briefs, vec!["Close Tab", "Go to Tab", "Go to Tab 1", "Go to Tab 2"]);
    for m in &results {
        assert_eq!(m.score, 0);
        assert!(m.matched_indices.is_empty());
    }
    let last = &cmds[results[results.len() - 1].cmd_index];
    assert_eq!(last.brief, "Reload Config");
}

#[test]
fn query_results_are_sorted_by_score_and_unique() {
    let cmds = all_commands();
    for q in ["t", "pane", "mode", "x", "go"] {
        let results = filter(&cmds, q);
        for w in results.windows(2) {
            assert!(w[0].score >= w[1].score);
            if w[0].score == w[1].score {
                assert!(w[0].cmd_index < w[1].cmd_index);
            }
        }
        let mut idx: Vec<usize> = results.iter().map(|m| m.cmd_index).collect();
        idx.sort();
        idx.dedup();
        assert_eq!(idx.len(), results.len());
    }
}

#[test]
fn delete_last_word_keeps_inner_whitespace() {
    let mut s = String::from("a  b");
    delete_last_word(&mut s);
    assert_eq!(s, "a ");
    let mut s = String::from("   ");
    delete_last_word(&mut s);
    assert_eq!(s, "");
    let mut s = String::from("x\ty\u{3000}");
    delete_last_word(&mut s);
    assert_eq!(s, "x");
}

#[test]
fn score_command_combines_brief_and_keywords() {
    assert_eq!(score_command(Some((40, vec![0, 4])), true, &[]), Some((140, vec![0, 4])));
    assert_eq!(score_command(Some((40, vec![1])), false, &[Some(99)]), Some((40, vec![1])));
    assert_eq!(score_command(None, true, &[Some(3), None, Some(17), Some(5)]), Some((17, vec![])));
    assert_eq!(score_command(None, false, &[None, None]), None);
    assert_eq!(score_command(None, false, &[]), None);
}

#[test]
fn filter_of_a_custom_list_keeps_indices() {
    let cmds = all_commands();
    let some = vec![cmds[31].clone(), cmds[0].clone(), cmds[11].clone()];
    let results = filter(&some, "");
    let order: Vec<usize> = results.iter().map(|m: &PaletteMatch| m.cmd_index).collect();
    assert_eq!(order, vec![1, 2, 0]);
}

#[test]
fn substring_bonus_ignores_case() {
    let cmds = all_commands();
    let matcher = SkimMatcherV2::default();
    let new_tab = cmds.iter().position(|c| c.brief == "New Tab").unwrap();

    // "new tab" is a substring of the lowercase brief: the bonus applies.
    let results = filter(&cmds, "new tab");
    let m = results.iter().find(|m| m.cmd_index == new_tab).expect("New Tab matches");
    let (raw, idx) = matcher.fuzzy_indices("New Tab", "new tab").unwrap();
    assert_eq!(m.score, raw + 100);
    assert_eq!(m.matched_indices, idx);

    // "nt" matches fuzzily but is no substring: the raw score counts.
    let results = filter(&cmds, "nt");
    let m = results.iter().find(|m| m.cmd_index == new_tab).expect("New Tab matches");
    let (raw, idx) = matcher.fuzzy_indices("New Tab", "nt").unwrap();
    assert_eq!(m.score, raw);
    assert_eq!(m.matched_indices, idx);
}
