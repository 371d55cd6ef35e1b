use ignite_composite_renderer::RenderCommands;
use oxygengine_composite_renderer::composite_renderer::Command;

fn alpha(value: f32) -> Command<'static> {
    Command::Alpha(value)
}

fn show(commands: &Vec<Command<'static>>) -> Vec<String> {
    commands.iter().map(|command| format!("{:?}", command)).collect()
}

fn tags(table: &RenderCommands) -> Vec<String> {
    (0..table.len()).map(|i| table.tag_at(i).clone()).collect()
}

#[test]
fn new_table_has_no_buckets() {
    let table = RenderCommands::new();
    assert_eq!(table.len(), 0);
    assert!(table.get("a").is_none());
    assert!(table.flattened().is_empty());
}

#[test]
fn set_stores_a_bucket_under_its_tag() {
    let mut table = RenderCommands::new();
    table.set("a".to_string(), vec![alpha(0.1), alpha(0.2)]);
    assert_eq!(table.len(), 1);
    assert_eq!(show(table.get("a").unwrap()), vec!["Alpha(0.1)", "Alpha(0.2)"]);
    assert_eq!(show(table.commands_at(0)), vec!["Alpha(0.1)", "Alpha(0.2)"]);
    assert!(table.get("b").is_none());
}

#[test]
fn set_replaces_a_bucket_as_a_whole() {
    let mut table = RenderCommands::new();
    table.set("a".to_string(), vec![alpha(0.1), alpha(0.2)]);
    table.set("b".to_string(), vec![alpha(0.3)]);
    table.set("a".to_string(), vec![alpha(0.4)]);
    assert_eq!(tags(&table), vec!["a", "b"]);
    assert_eq!(show(table.get("a").unwrap()), vec!["Alpha(0.4)"]);
    assert_eq!(show(table.get("b").unwrap()), vec!["Alpha(0.3)"]);
}

#[test]
fn set_without_commands_removes_the_tag() {
    let mut table = RenderCommands::new();
    table.set("a".to_string(), vec![alpha(0.1)]);
    table.set("b".to_string(), vec![alpha(0.2)]);
    table.set("a".to_string(), vec![]);
    assert!(table.get("a").is_none());
    assert_eq!(tags(&table), vec!["b"]);
    table.set("c".to_string(), vec![]);
    assert_eq!(tags(&table), vec!["b"]);
}

#[test]
fn flattened_is_every_bucket_in_the_order_of_the_table() {
    let mut table = RenderCommands::new();
    table.set("z".to_string(), vec![alpha(0.1), alpha(0.2)]);
    table.set("a".to_string(), vec![alpha(0.3)]);
    table.set("m".to_string(), vec![alpha(0.4), alpha(0.5)]);
    assert_eq!(
        show(&table.flattened()),
        vec!["Alpha(0.1)", "Alpha(0.2)", "Alpha(0.3)", "Alpha(0.4)", "Alpha(0.5)"]
    );
    table.set("z".to_string(), vec![]);
    assert_eq!(show(&table.flattened()), vec!["Alpha(0.3)", "Alpha(0.4)", "Alpha(0.5)"]);
}

#[test]
fn apply_makes_the_updates_in_turn() {
    let mut table = RenderCommands::new();
    table.set("a".to_string(), vec![alpha(0.1)]);
    table.apply(vec![
        ("b".to_string(), vec![alpha(0.2)]),
        ("a".to_string(), vec![]),
        ("c".to_string(), vec![alpha(0.3)]),
        ("b".to_string(), vec![alpha(0.4), alpha(0.5)]),
        ("c".to_string(), vec![]),
        ("c".to_string(), vec![alpha(0.6)]),
    ]);
    assert_eq!(tags(&table), vec!["b", "c"]);
    assert_eq!(show(table.get("b").unwrap()), vec!["Alpha(0.4)", "Alpha(0.5)"]);
    assert_eq!(show(table.get("c").unwrap()), vec!["Alpha(0.6)"]);
}

#[test]
fn apply_without_updates_changes_nothing() {
    let mut table = RenderCommands::new();
    table.set("a".to_string(), vec![alpha(0.1)]);
    table.apply(vec![]);
    assert_eq!(tags(&table), vec!["a"]);
}
