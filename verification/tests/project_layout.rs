use session_naming::project_layout::{
    cycle_next, cycle_prev, layout_from, ProjectId, ProjectKey, ProjectLayout,
};

/// A local git project, named after its repository directory.
fn git_key(path: &str, name: &str) -> ProjectId {
    ProjectId::Key(ProjectKey {
        path: path.to_owned(),
        display_name: name.to_owned(),
    })
}

fn warp() -> ProjectId {
    git_key("/Users/sam/dev/warp/.git", "warp")
}

fn orbit() -> ProjectId {
    git_key("/Users/sam/dev/orbit/.git", "orbit")
}

fn names(layout: &ProjectLayout) -> Vec<String> {
    layout
        .projects()
        .iter()
        .map(|entry| entry.display_name.clone())
        .collect()
}

#[test]
fn visible_tab_indices_selects_only_that_project() {
    let layout = layout_from(vec![warp(), orbit(), warp(), ProjectId::Other]);
    assert_eq!(layout.visible_tab_indices(&warp()), vec![0, 2]);
    assert_eq!(layout.visible_tab_indices(&orbit()), vec![1]);
    assert_eq!(layout.visible_tab_indices(&ProjectId::Other), vec![3]);
}

#[test]
fn projects_are_distinct_in_first_seen_order() {
    let layout = layout_from(vec![orbit(), warp(), orbit()]);
    assert_eq!(names(&layout), vec!["orbit", "warp"]);
    assert!(layout.has_multiple_projects());
}

#[test]
fn other_bucket_is_named_other() {
    assert_eq!(ProjectId::Other.display_name(), "Other");
    let layout = layout_from(vec![ProjectId::Other]);
    assert!(!layout.has_multiple_projects());
}

#[test]
fn cycle_next_and_prev_wrap_within_subset() {
    let visible = [0usize, 2, 5];
    assert_eq!(cycle_next(&visible, 0), 2);
    assert_eq!(cycle_next(&visible, 5), 0); // wraps to start
    assert_eq!(cycle_prev(&visible, 0), 5); // wraps to end
    assert_eq!(cycle_prev(&visible, 2), 0);
    // A current index outside the subset falls back to the first visible tab.
    assert_eq!(cycle_next(&visible, 3), 0);
    assert_eq!(cycle_prev(&visible, 3), 0);
    // Empty subset returns current unchanged.
    assert_eq!(cycle_next(&[], 4), 4);
}

#[test]
fn cycling_forward_then_back_returns_to_the_start() {
    let visible = [1usize, 4, 7, 9];
    for &tab in &visible {
        assert_eq!(cycle_prev(&visible, cycle_next(&visible, tab)), tab);
        assert_eq!(cycle_next(&visible, cycle_prev(&visible, tab)), tab);
    }
    assert_eq!(cycle_prev(&[], 4), 4);
    assert_eq!(cycle_next(&[6], 6), 6);
}

#[test]
fn every_tab_is_visible_in_its_own_project() {
    let tabs = vec![warp(), ProjectId::Other, orbit(), warp(), ProjectId::Other];
    let layout = layout_from(tabs);
    assert_eq!(layout.projects().len(), 3);
    assert_eq!(names(&layout), vec!["warp", "Other", "orbit"]);
    let mut all: Vec<usize> = Vec::new();
    for entry in layout.projects() {
        all.extend(layout.visible_tab_indices(&entry.id));
    }
    all.sort();
    assert_eq!(all, vec![0, 1, 2, 3, 4]);
    assert!(layout_from(Vec::new()).projects().is_empty());
}
