use std::collections::HashMap;

use notion_todo_reset::config::Config;
use notion_todo_reset::node::{decode_block, decode_children, Node, RawBlock, WalkError};
use notion_todo_reset::request::{api_version, bearer, block_url, children_url, patch_body};
use notion_todo_reset::walker::{Action, Event, Walker};

fn container(id: &str) -> RawBlock {
    RawBlock {
        id: Some(id.to_string()),
        has_children: Some(true),
        kind: Some("toggle".to_string()),
        checked: None,
    }
}

fn todo(id: &str, checked: bool) -> RawBlock {
    RawBlock {
        id: Some(id.to_string()),
        has_children: Some(false),
        kind: Some("to_do".to_string()),
        checked: Some(checked),
    }
}

fn paragraph(id: &str) -> RawBlock {
    RawBlock {
        id: Some(id.to_string()),
        has_children: Some(false),
        kind: Some("paragraph".to_string()),
        checked: Some(true),
    }
}

#[derive(Debug, Clone, PartialEq, Eq)]
enum Call {
    Fetch(String),
    Update(String, bool),
}

/// Runs a whole traversal against an in-memory tree. Fetches of ids in
/// `failing` fail; an id absent from `tree` answers without a child list.
fn run(
    tree: &mut HashMap<String, Vec<RawBlock>>,
    root: &str,
    failing: &[&str],
) -> (Vec<Call>, Action) {
    let mut calls = Vec::new();
    let mut walker = Walker::new(root.to_string());
    let mut action = walker.advance();
    loop {
        match action {
            Action::Fetch(id) => {
                calls.push(Call::Fetch(id.clone()));
                let event = if failing.contains(&id.as_str()) {
                    Event::Fetched(Err(WalkError::Transport))
                } else {
                    Event::Fetched(Ok(tree.get(&id).cloned()))
                };
                action = walker.step(event);
            }
            Action::Update { id, checked } => {
                calls.push(Call::Update(id.clone(), checked));
                for list in tree.values_mut() {
                    for b in list.iter_mut() {
                        if b.id.as_deref() == Some(id.as_str()) {
                            b.checked = Some(checked);
                        }
                    }
                }
                action = walker.step(Event::Updated(Ok(())));
            }
            other => return (calls, other),
        }
    }
}

fn scenario_tree() -> HashMap<String, Vec<RawBlock>> {
    let mut tree = HashMap::new();
    tree.insert(
        "root".to_string(),
        vec![container("A"), todo("B", true), todo("C", false)],
    );
    tree.insert("A".to_string(), vec![]);
    tree
}

#[test]
fn scenario_fetch_root_fetch_a_update_b() {
    let mut tree = scenario_tree();
    let (calls, end) = run(&mut tree, "root", &[]);
    assert_eq!(
        calls,
        vec![
            Call::Fetch("root".to_string()),
            Call::Fetch("A".to_string()),
            Call::Update("B".to_string(), false),
        ]
    );
    assert_eq!(end, Action::Finished);
}

#[test]
fn second_run_issues_no_update() {
    let mut tree = HashMap::new();
    tree.insert(
        "root".to_string(),
        vec![container("A"), todo("B", true), paragraph("P")],
    );
    tree.insert("A".to_string(), vec![todo("A1", true), container("A2")]);
    tree.insert("A2".to_string(), vec![todo("A21", true), todo("A22", false)]);
    let (first, end1) = run(&mut tree, "root", &[]);
    assert_eq!(end1, Action::Finished);
    let updates1: Vec<&Call> = first.iter().filter(|c| matches!(c, Call::Update(..))).collect();
    assert_eq!(updates1.len(), 3);
    let (second, end2) = run(&mut tree, "root", &[]);
    assert_eq!(end2, Action::Finished);
    assert!(second.iter().all(|c| matches!(c, Call::Fetch(_))));
    assert_eq!(second.len(), 3);
}

#[test]
fn failed_fetch_stops_later_siblings() {
    let mut tree = HashMap::new();
    tree.insert(
        "root".to_string(),
        vec![todo("B", true), container("A"), todo("C", true), container("D")],
    );
    tree.insert("A".to_string(), vec![todo("A1", true)]);
    tree.insert("D".to_string(), vec![todo("D1", true)]);
    let (calls, end) = run(&mut tree, "root", &["A"]);
    assert_eq!(
        calls,
        vec![
            Call::Fetch("root".to_string()),
            Call::Update("B".to_string(), false),
            Call::Fetch("A".to_string()),
        ]
    );
    assert_eq!(end, Action::Abort(WalkError::Transport));
}

#[test]
fn halted_walker_asks_for_nothing() {
    let mut walker = Walker::new("root".to_string());
    assert_eq!(walker.advance(), Action::Fetch("root".to_string()));
    assert_eq!(
        walker.step(Event::Fetched(Err(WalkError::Auth))),
        Action::Abort(WalkError::Auth)
    );
    assert!(walker.halted);
    assert_eq!(walker.step(Event::Updated(Ok(()))), Action::Finished);
    assert_eq!(walker.advance(), Action::Finished);
}

#[test]
fn failed_update_aborts() {
    let mut walker = Walker::new("root".to_string());
    walker.advance();
    let a = walker.step(Event::Fetched(Ok(Some(vec![todo("B", true), todo("C", true)]))));
    assert_eq!(a, Action::Update { id: "B".to_string(), checked: false });
    assert_eq!(
        walker.step(Event::Updated(Err(WalkError::Transport))),
        Action::Abort(WalkError::Transport)
    );
    assert_eq!(walker.step(Event::Updated(Ok(()))), Action::Finished);
}

#[test]
fn missing_child_list_is_protocol_error() {
    let mut tree = HashMap::new();
    tree.insert("root".to_string(), vec![container("A")]);
    let (calls, end) = run(&mut tree, "root", &[]);
    assert_eq!(calls.len(), 2);
    assert_eq!(end, Action::Abort(WalkError::Protocol));
    assert_eq!(decode_children(None), Err(WalkError::Protocol));
}

#[test]
fn children_visited_depth_first_in_order() {
    let mut tree = HashMap::new();
    tree.insert("root".to_string(), vec![container("A"), todo("B", true)]);
    tree.insert("A".to_string(), vec![todo("A1", true), todo("A2", true)]);
    let (calls, _) = run(&mut tree, "root", &[]);
    assert_eq!(
        calls,
        vec![
            Call::Fetch("root".to_string()),
            Call::Fetch("A".to_string()),
            Call::Update("A1".to_string(), false),
            Call::Update("A2".to_string(), false),
            Call::Update("B".to_string(), false),
        ]
    );
}

#[test]
fn empty_root_finishes_after_one_fetch() {
    let mut tree = HashMap::new();
    tree.insert("root".to_string(), vec![]);
    let (calls, end) = run(&mut tree, "root", &[]);
    assert_eq!(calls, vec![Call::Fetch("root".to_string())]);
    assert_eq!(end, Action::Finished);
}

#[test]
fn container_with_checked_flag_is_only_descended() {
    let raw = RawBlock {
        id: Some("X".to_string()),
        has_children: Some(true),
        kind: Some("to_do".to_string()),
        checked: Some(true),
    };
    assert_eq!(decode_block(&raw), Ok(Node::Container { id: "X".to_string() }));
}

#[test]
fn checklist_items_decode_with_their_flag() {
    assert_eq!(
        decode_block(&todo("T", true)),
        Ok(Node::ChecklistItem { id: "T".to_string(), checked: true })
    );
    assert_eq!(
        decode_block(&todo("T", false)),
        Ok(Node::ChecklistItem { id: "T".to_string(), checked: false })
    );
    let no_flag = RawBlock { checked: None, ..todo("T", true) };
    assert_eq!(
        decode_block(&no_flag),
        Ok(Node::ChecklistItem { id: "T".to_string(), checked: false })
    );
}

#[test]
fn other_leaf_ignores_checked_like_field() {
    assert_eq!(decode_block(&paragraph("P")), Ok(Node::Other));
    let untagged = RawBlock { id: None, has_children: None, kind: None, checked: Some(true) };
    assert_eq!(decode_block(&untagged), Ok(Node::Other));
}

#[test]
fn missing_id_is_protocol_error() {
    let raw = RawBlock { id: None, ..container("A") };
    assert_eq!(decode_block(&raw), Err(WalkError::Protocol));
    let raw = RawBlock { id: None, ..todo("T", false) };
    assert_eq!(decode_block(&raw), Err(WalkError::Protocol));
    assert_eq!(decode_children(Some(vec![todo("B", true), raw])), Err(WalkError::Protocol));
}

#[test]
fn request_texts() {
    assert_eq!(children_url("abc"), "https://api.notion.com/v1/blocks/abc/children");
    assert_eq!(block_url("abc"), "https://api.notion.com/v1/blocks/abc");
    assert_eq!(bearer("tok123"), "Bearer tok123");
    assert_eq!(api_version(), "2022-06-28");
    assert_eq!(patch_body(false), "{\"to_do\":{\"checked\":false}}");
    assert_eq!(patch_body(true), "{\"to_do\":{\"checked\":true}}");
}

#[test]
fn config_requires_both_settings() {
    assert_eq!(
        Config::from_settings(Some("t".to_string()), Some("p".to_string())),
        Ok(Config { token: "t".to_string(), root_id: "p".to_string() })
    );
    assert_eq!(Config::from_settings(None, Some("p".to_string())), Err(WalkError::Config));
    assert_eq!(Config::from_settings(Some("t".to_string()), None), Err(WalkError::Config));
}
