use i3_revive::config::{Config, SwallowRule, TerminalRevive};
use i3_revive::i3_tree::{
    convert_to_layout, find_workspaces, get_all_windows, is_leaf_node, is_normal_workspace,
    is_zero_rect, swallow_criteria, Attribute, NodeKind, Rect, TreeNode, WindowProperties,
};

fn zero() -> Rect {
    Rect { x: 0, y: 0, width: 0, height: 0 }
}

fn node(kind: NodeKind, name: &str) -> TreeNode {
    TreeNode {
        kind,
        name: Some(name.to_string()),
        layout: Some("splith".to_string()),
        fullscreen_mode: 0,
        current_border_width: -1,
        geometry: zero(),
        rect: zero(),
        window: None,
        window_properties: None,
        swallows: vec![],
        nodes: vec![],
        floating_nodes: vec![],
        extra: vec![],
    }
}

fn window_node(id: u64, class: &str, instance: &str, title: &str) -> TreeNode {
    let mut n = node(NodeKind::Container, title);
    n.window = Some(id);
    n.window_properties = Some(WindowProperties {
        class: Some(class.to_string()),
        instance: Some(instance.to_string()),
        title: Some(title.to_string()),
    });
    n
}

#[test]
fn zero_rect_is_recognised() {
    assert!(is_zero_rect(&zero()));
    assert!(!is_zero_rect(&Rect { x: 0, y: 0, width: 1, height: 0 }));
    assert!(!is_zero_rect(&Rect { x: -1, y: 0, width: 0, height: 0 }));
}

#[test]
fn leaf_is_a_container_without_children() {
    let leaf = node(NodeKind::Container, "a");
    assert!(is_leaf_node(&leaf));

    let mut parent = node(NodeKind::Container, "p");
    parent.nodes.push(node(NodeKind::Container, "c"));
    assert!(!is_leaf_node(&parent));

    let mut floating_parent = node(NodeKind::Container, "p");
    floating_parent.floating_nodes.push(node(NodeKind::FloatingContainer, "f"));
    assert!(!is_leaf_node(&floating_parent));

    assert!(!is_leaf_node(&node(NodeKind::Workspace, "1")));
    assert!(!is_leaf_node(&node(NodeKind::FloatingContainer, "f")));
}

#[test]
fn scratchpad_is_no_normal_workspace() {
    assert!(is_normal_workspace(&node(NodeKind::Workspace, "1")));
    assert!(!is_normal_workspace(&node(NodeKind::Workspace, "__i3_scratch")));
    assert!(!is_normal_workspace(&node(NodeKind::Container, "1")));
}

#[test]
fn workspaces_are_found_in_tree_order() {
    let mut root = node(NodeKind::Root, "root");
    let mut hidden = node(NodeKind::Output, "__i3");
    let mut hidden_content = node(NodeKind::Container, "content");
    hidden_content.nodes.push(node(NodeKind::Workspace, "__i3_scratch"));
    hidden.nodes.push(hidden_content);
    let mut output = node(NodeKind::Output, "eDP-1");
    let mut content = node(NodeKind::Container, "content");
    let mut one = node(NodeKind::Workspace, "1");
    one.nodes.push(window_node(7, "Foo", "foo", "Foo window"));
    content.nodes.push(one);
    content.nodes.push(node(NodeKind::Workspace, "2"));
    output.nodes.push(node(NodeKind::DockArea, "topdock"));
    output.nodes.push(content);
    root.nodes.push(hidden);
    root.nodes.push(output);

    let found = find_workspaces(root);
    let names: Vec<&str> = found.iter().map(|w| w.name.as_deref().unwrap()).collect();
    assert_eq!(names, vec!["1", "2"]);
    assert_eq!(found[0].nodes.len(), 1);
}

#[test]
fn a_workspace_is_returned_whole() {
    let mut ws = node(NodeKind::Workspace, "1");
    ws.nodes.push(node(NodeKind::Workspace, "nested"));
    let found = find_workspaces(ws);
    assert_eq!(found.len(), 1);
    assert_eq!(found[0].name.as_deref(), Some("1"));
}

#[test]
fn windows_are_listed_regular_before_floating() {
    let mut ws = node(NodeKind::Workspace, "1");
    let mut split = node(NodeKind::Container, "split");
    split.nodes.push(window_node(1, "A", "a", "first"));
    split.nodes.push(window_node(2, "B", "b", "second"));
    ws.nodes.push(split);
    let mut floating = node(NodeKind::FloatingContainer, "float");
    let mut placeholder = window_node(0x1_0000_0003, "C", "c", "third");
    placeholder.swallows.push(i3_revive::i3_tree::SwallowCriteria {
        class: Some("^C$".to_string()),
        instance: None,
        title: None,
    });
    floating.nodes.push(placeholder);
    ws.floating_nodes.push(floating);
    ws.nodes.push(window_node(4, "D", "d", "fourth"));

    let windows = get_all_windows(&vec![ws]);
    let ids: Vec<u32> = windows.iter().map(|w| w.id).collect();
    assert_eq!(ids, vec![1, 2, 4, 3]);
    assert_eq!(windows[0].name, "first");
    assert_eq!(windows[0].class.as_deref(), Some("A"));
    assert!(!windows[0].is_placeholder);
    assert!(windows[3].is_placeholder);
}

#[test]
fn a_node_without_properties_is_no_window() {
    let mut n = node(NodeKind::Container, "x");
    n.window = Some(5);
    assert!(get_all_windows(&vec![n]).is_empty());
}

#[test]
fn default_attributes_are_absent_from_the_layout() {
    let ws = node(NodeKind::Workspace, "1");
    let layout = convert_to_layout(&ws, &Config::empty());
    assert_eq!(layout.kind, NodeKind::Workspace);
    assert!(layout.fullscreen_mode.is_none());
    assert!(layout.current_border_width.is_none());
    assert!(layout.geometry.is_none());
    assert!(layout.rect.is_none());
    assert!(layout.nodes.is_empty());
    assert!(layout.floating_nodes.is_empty());
    assert!(layout.name.is_none());
    assert_eq!(layout.layout.as_deref(), Some("splith"));
    assert!(layout.swallows.is_none());
}

#[test]
fn set_attributes_are_kept() {
    let mut n = node(NodeKind::Container, "x");
    n.nodes.push(node(NodeKind::Container, "child"));
    n.fullscreen_mode = 1;
    n.current_border_width = 2;
    n.geometry = Rect { x: 0, y: 0, width: 640, height: 480 };
    let layout = convert_to_layout(&n, &Config::empty());
    assert_eq!(layout.fullscreen_mode, Some(1));
    assert_eq!(layout.current_border_width, Some(2));
    assert_eq!(layout.geometry, Some(Rect { x: 0, y: 0, width: 640, height: 480 }));
    assert_eq!(layout.nodes.len(), 1);
    assert_eq!(layout.nodes[0].name.as_deref(), Some("child"));
    assert!(layout.nodes[0].layout.is_none());
}

#[test]
fn rect_is_kept_for_floating_containers_only() {
    let mut floating = node(NodeKind::FloatingContainer, "f");
    floating.rect = Rect { x: 10, y: 20, width: 300, height: 200 };
    floating.nodes.push(window_node(9, "Foo", "foo", "t"));
    let layout = convert_to_layout(&floating, &Config::empty());
    assert_eq!(layout.rect, Some(Rect { x: 10, y: 20, width: 300, height: 200 }));
    assert!(layout.nodes[0].rect.is_none());

    let mut leaf = window_node(9, "Foo", "foo", "t");
    leaf.rect = Rect { x: 10, y: 20, width: 300, height: 200 };
    assert!(convert_to_layout(&leaf, &Config::empty()).rect.is_none());

    let mut zero_floating = node(NodeKind::FloatingContainer, "f");
    zero_floating.rect = zero();
    assert_eq!(convert_to_layout(&zero_floating, &Config::empty()).rect, Some(zero()));
}

#[test]
fn only_allowed_attributes_are_kept() {
    let mut n = node(NodeKind::Container, "x");
    for (k, v) in [("id", "94"), ("border", "\"pixel\""), ("focused", "true"), ("percent", "0.5"),
        ("marks", "[]"), ("urgent", "false"), ("floating", "\"auto_off\"")]
    {
        n.extra.push(Attribute { key: k.to_string(), value: v.to_string() });
    }
    let layout = convert_to_layout(&n, &Config::empty());
    let kept: Vec<(&str, &str)> =
        layout.extra.iter().map(|a| (a.key.as_str(), a.value.as_str())).collect();
    assert_eq!(
        kept,
        vec![("border", "\"pixel\""), ("percent", "0.5"), ("marks", "[]"), ("floating", "\"auto_off\"")]
    );
}

#[test]
fn criteria_default_to_class_and_instance() {
    let props = WindowProperties {
        class: Some("Foo".to_string()),
        instance: Some("bar".to_string()),
        title: Some("Baz".to_string()),
    };
    let c = swallow_criteria(&props, Some(1), &Config::empty());
    assert_eq!(c.class.as_deref(), Some("^Foo$"));
    assert_eq!(c.instance.as_deref(), Some("^bar$"));
    assert_eq!(c.title, None);
}

#[test]
fn criteria_follow_the_rule_of_the_class() {
    let props = WindowProperties {
        class: Some("Foo".to_string()),
        instance: Some("bar".to_string()),
        title: Some("Baz".to_string()),
    };
    let mut config = Config::empty();
    config.window_swallow_criteria.push(SwallowRule {
        class: "Foo".to_string(),
        fields: vec!["title".to_string()],
    });
    let c = swallow_criteria(&props, Some(1), &config);
    assert_eq!(c.class, None);
    assert_eq!(c.instance, None);
    assert_eq!(c.title.as_deref(), Some("^Baz$"));

    config.window_swallow_criteria[0].fields.push("class".to_string());
    let c = swallow_criteria(&props, Some(1), &config);
    assert_eq!(c.class.as_deref(), Some("^Foo$"));
    assert_eq!(c.instance, None);
    assert_eq!(c.title.as_deref(), Some("^Baz$"));
}

#[test]
fn criteria_escape_meta_characters() {
    let props = WindowProperties {
        class: Some("a.b+c".to_string()),
        instance: Some("x[1]".to_string()),
        title: None,
    };
    let c = swallow_criteria(&props, None, &Config::empty());
    assert_eq!(c.class.as_deref(), Some("^a\\.b\\+c$"));
    assert_eq!(c.instance.as_deref(), Some("^x\\[1\\]$"));
    assert_eq!(c.title, None);
}

#[test]
fn terminal_windows_are_matched_by_marker() {
    let props = WindowProperties {
        class: Some("Alacritty".to_string()),
        instance: Some("Alacritty".to_string()),
        title: Some("~/src".to_string()),
    };
    let mut config = Config::empty();
    config.terminal_revive_commands.push(TerminalRevive {
        class: "Alacritty".to_string(),
        command: "alacritty -e {cmd}".to_string(),
    });
    let c = swallow_criteria(&props, Some(20971530), &config);
    assert_eq!(c.class.as_deref(), Some("^Alacritty$"));
    assert_eq!(c.title.as_deref(), Some("Terminal-Window-20971530"));
    let c = swallow_criteria(&props, None, &config);
    assert_eq!(c.title, None);
}

#[test]
fn leaves_get_criteria_and_keep_their_name() {
    let mut ws = node(NodeKind::Workspace, "1");
    ws.nodes.push(window_node(7, "Foo", "bar", "Baz"));
    let layout = convert_to_layout(&ws, &Config::empty());
    assert!(layout.swallows.is_none());
    let leaf = &layout.nodes[0];
    assert_eq!(leaf.name.as_deref(), Some("Baz"));
    assert!(leaf.layout.is_none());
    let criteria = leaf.swallows.as_ref().unwrap();
    assert_eq!(criteria.class.as_deref(), Some("^Foo$"));
    assert_eq!(criteria.instance.as_deref(), Some("^bar$"));
    assert_eq!(criteria.title, None);
}
