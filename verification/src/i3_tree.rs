//! The window tree as the window manager reports it, and the layout that is
//! kept of it.

use vstd::prelude::*;
use vstd::string::*;
use crate::config::{Config, contains_name, has_name};
use crate::pattern::{anchored_literal, escape};
use crate::restore::{layout_file_name, layout_file_name_of};
use crate::text::{clone_optional, decimal, decimal_digits, str_eq, text_of};

verus! {

/// The kind of a node of the tree.
#[derive(Clone, Copy, Debug, PartialEq, Eq, Structural)]
pub enum NodeKind {
    Root,
    Output,
    Container,
    FloatingContainer,
    Workspace,
    DockArea,
}

/// The name that the window manager gives to a kind of node.
pub open spec fn kind_tag(kind: NodeKind) -> Seq<char> {
    match kind {
        NodeKind::Root => "root"@,
        NodeKind::Output => "output"@,
        NodeKind::Container => "con"@,
        NodeKind::FloatingContainer => "floating_con"@,
        NodeKind::Workspace => "workspace"@,
        NodeKind::DockArea => "dockarea"@,
    }
}

/// The kind of node that a name stands for, if it stands for one.
pub open spec fn kind_of_tag(tag: Seq<char>) -> Option<NodeKind> {
    if tag == "root"@ {
        Some(NodeKind::Root)
    } else if tag == "output"@ {
        Some(NodeKind::Output)
    } else if tag == "con"@ {
        Some(NodeKind::Container)
    } else if tag == "floating_con"@ {
        Some(NodeKind::FloatingContainer)
    } else if tag == "workspace"@ {
        Some(NodeKind::Workspace)
    } else if tag == "dockarea"@ {
        Some(NodeKind::DockArea)
    } else {
        None
    }
}

impl NodeKind {
    /// Writes the kind as the window manager names it.
    pub fn tag(&self) -> (r: String)
        ensures
            r@ == kind_tag(*self),
    {
        match self {
            NodeKind::Root => String::from_str("root"),
            NodeKind::Output => String::from_str("output"),
            NodeKind::Container => String::from_str("con"),
            NodeKind::FloatingContainer => String::from_str("floating_con"),
            NodeKind::Workspace => String::from_str("workspace"),
            NodeKind::DockArea => String::from_str("dockarea"),
        }
    }

    /// Reads a kind from the name that the window manager gives it.
    pub fn from_tag(tag: &str) -> (r: Option<NodeKind>)
        ensures
            r == kind_of_tag(tag@),
    {
        if str_eq(tag, "root") {
            Some(NodeKind::Root)
        } else if str_eq(tag, "output") {
            Some(NodeKind::Output)
        } else if str_eq(tag, "con") {
            Some(NodeKind::Container)
        } else if str_eq(tag, "floating_con") {
            Some(NodeKind::FloatingContainer)
        } else if str_eq(tag, "workspace") {
            Some(NodeKind::Workspace)
        } else if str_eq(tag, "dockarea") {
            Some(NodeKind::DockArea)
        } else {
            None
        }
    }
}

/// A kind is read back from the name it is written as.
pub proof fn lemma_kind_tag_round_trip(kind: NodeKind)
    ensures
        kind_of_tag(kind_tag(kind)) == Some(kind),
{
    reveal_strlit("root");
    reveal_strlit("output");
    reveal_strlit("con");
    reveal_strlit("floating_con");
    reveal_strlit("workspace");
    reveal_strlit("dockarea");
    assert("root"@.len() == 4);
    assert("output"@.len() == 6);
    assert("con"@.len() == 3);
    assert("floating_con"@.len() == 12);
    assert("workspace"@.len() == 9);
    assert("dockarea"@.len() == 8);
}

/// A rectangle on the screen.
#[derive(Clone, Copy, Debug, PartialEq, Eq, Structural)]
pub struct Rect {
    pub x: i64,
    pub y: i64,
    pub width: i64,
    pub height: i64,
}

/// What a window says of itself.
#[derive(Debug)]
pub struct WindowProperties {
    pub class: Option<String>,
    pub instance: Option<String>,
    pub title: Option<String>,
}

/// The patterns by which the window manager recognises the window that
/// belongs in a placeholder.
#[derive(Debug)]
pub struct SwallowCriteria {
    pub class: Option<String>,
    pub instance: Option<String>,
    pub title: Option<String>,
}

/// An attribute that is carried along unread: its key and its value as text.
#[derive(Debug)]
pub struct Attribute {
    pub key: String,
    pub value: String,
}

/// A node of the live window tree.
#[derive(Debug)]
pub struct TreeNode {
    pub kind: NodeKind,
    pub name: Option<String>,
    pub layout: Option<String>,
    pub fullscreen_mode: u64,
    pub current_border_width: i64,
    pub geometry: Rect,
    pub rect: Rect,
    pub window: Option<u64>,
    pub window_properties: Option<WindowProperties>,
    pub swallows: Vec<SwallowCriteria>,
    pub nodes: Vec<TreeNode>,
    pub floating_nodes: Vec<TreeNode>,
    pub extra: Vec<Attribute>,
}

/// A node of a saved layout: a tree node reduced to what is needed to
/// build it again.
#[derive(Debug)]
pub struct LayoutFragment {
    pub kind: NodeKind,
    pub name: Option<String>,
    pub layout: Option<String>,
    pub fullscreen_mode: Option<u64>,
    pub current_border_width: Option<i64>,
    pub geometry: Option<Rect>,
    pub rect: Option<Rect>,
    pub swallows: Option<SwallowCriteria>,
    pub nodes: Vec<LayoutFragment>,
    pub floating_nodes: Vec<LayoutFragment>,
    pub extra: Vec<Attribute>,
}

/// A window found in the tree.
#[derive(Debug)]
pub struct Window {
    pub id: u32,
    pub name: String,
    pub class: Option<String>,
    pub is_placeholder: bool,
}

/// The border width that stands for "the window manager's default".
pub const DEFAULT_BORDER_WIDTH: i64 = -1;

/// Swallow criteria as plain text.
pub struct CriteriaModel {
    pub class: Option<Seq<char>>,
    pub instance: Option<Seq<char>>,
    pub title: Option<Seq<char>>,
}

/// A layout node as plain values.
pub struct LayoutModel {
    pub kind: NodeKind,
    pub name: Option<Seq<char>>,
    pub layout: Option<Seq<char>>,
    pub fullscreen_mode: Option<u64>,
    pub current_border_width: Option<i64>,
    pub geometry: Option<Rect>,
    pub rect: Option<Rect>,
    pub swallows: Option<CriteriaModel>,
    pub nodes: Seq<LayoutModel>,
    pub floating_nodes: Seq<LayoutModel>,
    pub extra: Seq<(Seq<char>, Seq<char>)>,
}

/// Attributes as pairs of texts.
pub open spec fn attributes_model(attributes: Seq<Attribute>) -> Seq<(Seq<char>, Seq<char>)> {
    attributes.map_values(|a: Attribute| (a.key@, a.value@))
}

impl View for SwallowCriteria {
    type V = CriteriaModel;

    open spec fn view(&self) -> CriteriaModel {
        CriteriaModel {
            class: text_of(self.class),
            instance: text_of(self.instance),
            title: text_of(self.title),
        }
    }
}

/// A layout node as plain values: its own attributes, and its children
/// in their order.
pub open spec fn fragment_model(fragment: LayoutFragment) -> LayoutModel
    decreases fragment,
{
    LayoutModel {
        kind: fragment.kind,
        name: text_of(fragment.name),
        layout: text_of(fragment.layout),
        fullscreen_mode: fragment.fullscreen_mode,
        current_border_width: fragment.current_border_width,
        geometry: fragment.geometry,
        rect: fragment.rect,
        swallows: match fragment.swallows {
            Some(c) => Some(c@),
            None => None,
        },
        nodes: Seq::new(
            fragment.nodes@.len(),
            |i: int|
                if 0 <= i < fragment.nodes@.len() {
                    fragment_model(fragment.nodes@[i])
                } else {
                    arbitrary()
                },
        ),
        floating_nodes: Seq::new(
            fragment.floating_nodes@.len(),
            |i: int|
                if 0 <= i < fragment.floating_nodes@.len() {
                    fragment_model(fragment.floating_nodes@[i])
                } else {
                    arbitrary()
                },
        ),
        extra: attributes_model(fragment.extra@),
    }
}

impl View for LayoutFragment {
    type V = LayoutModel;

    open spec fn view(&self) -> LayoutModel {
        fragment_model(*self)
    }
}

/// Whether all four numbers of a rectangle are zero.
pub open spec fn zero_rect(r: Rect) -> bool {
    r.x == 0 && r.y == 0 && r.width == 0 && r.height == 0
}

/// Tells whether a rectangle is the all-zero rectangle.
pub fn is_zero_rect(r: &Rect) -> (b: bool)
    ensures
        b == zero_rect(*r),
{
    r.x == 0 && r.y == 0 && r.width == 0 && r.height == 0
}

/// Whether a node stands for a single window: a container without children.
pub open spec fn leaf_node(node: TreeNode) -> bool {
    node.kind == NodeKind::Container && node.nodes@.len() == 0 && node.floating_nodes@.len() == 0
}

/// Tells whether a node is a leaf: a container with no regular and no
/// floating children.
pub fn is_leaf_node(node: &TreeNode) -> (b: bool)
    ensures
        b == leaf_node(*node),
{
    node.kind == NodeKind::Container && node.nodes.len() == 0 && node.floating_nodes.len() == 0
}

/// A leaf is a container; a node with a child of either sort is no leaf.
pub proof fn lemma_leaf_classification(node: TreeNode)
    ensures
        node.kind == NodeKind::Container && node.nodes@.len() == 0 && node.floating_nodes@.len()
            == 0 ==> leaf_node(node),
        node.nodes@.len() > 0 || node.floating_nodes@.len() > 0 ==> !leaf_node(node),
        node.kind != NodeKind::Container ==> !leaf_node(node),
{
}

/// The name of the workspace that holds the scratchpad.
pub open spec fn scratchpad_name() -> Seq<char> {
    "__i3_scratch"@
}

/// Whether a node is a workspace other than the scratchpad.
pub open spec fn normal_workspace(node: TreeNode) -> bool {
    node.kind == NodeKind::Workspace && text_of(node.name) != Some(scratchpad_name())
}

/// Tells whether a node is a workspace whose name is not the reserved
/// scratchpad name.
pub fn is_normal_workspace(node: &TreeNode) -> (b: bool)
    ensures
        b == normal_workspace(*node),
{
    if node.kind == NodeKind::Workspace {
        match &node.name {
            Some(name) => !str_eq(name.as_str(), "__i3_scratch"),
            None => true,
        }
    } else {
        false
    }
}

/// The normal workspaces at or below a node, in tree order. The search
/// stops at a workspace: what lies below one is not looked at.
pub open spec fn workspaces_of(node: TreeNode) -> Seq<TreeNode>
    decreases node, 1int,
{
    if normal_workspace(node) {
        seq![node]
    } else {
        workspaces_in(node.nodes@) + workspaces_in(node.floating_nodes@)
    }
}

/// The normal workspaces at or below the nodes of a list, in order.
pub open spec fn workspaces_in(nodes: Seq<TreeNode>) -> Seq<TreeNode>
    decreases nodes, 0int,
{
    if nodes.len() == 0 {
        Seq::empty()
    } else {
        workspaces_of(nodes[0]) + workspaces_in(nodes.drop_first())
    }
}

/// Whatever the search for workspaces finds is a normal workspace.
pub proof fn lemma_workspaces_are_normal(node: TreeNode)
    ensures
        forall|i: int|
            0 <= i < workspaces_of(node).len() ==> normal_workspace(
                #[trigger] workspaces_of(node)[i],
            ),
    decreases node, 1int,
{
    if !normal_workspace(node) {
        lemma_workspaces_in_are_normal(node.nodes@);
        lemma_workspaces_in_are_normal(node.floating_nodes@);
        let first = workspaces_in(node.nodes@);
        let second = workspaces_in(node.floating_nodes@);
        assert forall|i: int| 0 <= i < workspaces_of(node).len() implies normal_workspace(
            #[trigger] workspaces_of(node)[i],
        ) by {
            if i < first.len() {
                assert(workspaces_of(node)[i] == first[i]);
            } else {
                assert(workspaces_of(node)[i] == second[i - first.len()]);
            }
        }
    } else {
        assert(workspaces_of(node)[0] == node);
    }
}

/// Whatever the search finds below the nodes of a list is a normal
/// workspace.
pub proof fn lemma_workspaces_in_are_normal(nodes: Seq<TreeNode>)
    ensures
        forall|i: int|
            0 <= i < workspaces_in(nodes).len() ==> normal_workspace(
                #[trigger] workspaces_in(nodes)[i],
            ),
    decreases nodes, 0int,
{
    if nodes.len() > 0 {
        lemma_workspaces_are_normal(nodes[0]);
        lemma_workspaces_in_are_normal(nodes.drop_first());
        let first = workspaces_of(nodes[0]);
        let second = workspaces_in(nodes.drop_first());
        assert forall|i: int| 0 <= i < workspaces_in(nodes).len() implies normal_workspace(
            #[trigger] workspaces_in(nodes)[i],
        ) by {
            if i < first.len() {
                assert(workspaces_in(nodes)[i] == first[i]);
            } else {
                assert(workspaces_in(nodes)[i] == second[i - first.len()]);
            }
        }
    }
}

/// Collects the normal workspaces of a tree, in tree order: the node
/// itself if it is one, else those of its regular children followed by
/// those of its floating children.
pub fn find_workspaces(tree: TreeNode) -> (r: Vec<TreeNode>)
    ensures
        r@ == workspaces_of(tree),
    decreases tree, 1int,
{
    if is_normal_workspace(&tree) {
        let mut r = Vec::new();
        r.push(tree);
        assert(r@ =~= seq![tree]);
        r
    } else {
        let TreeNode { nodes, floating_nodes, .. } = tree;
        let mut r = find_workspaces_in(nodes);
        let mut floating = find_workspaces_in(floating_nodes);
        r.append(&mut floating);
        r
    }
}

fn find_workspaces_in(nodes: Vec<TreeNode>) -> (r: Vec<TreeNode>)
    ensures
        r@ == workspaces_in(nodes@),
    decreases nodes, 0int,
{
    let mut rest = nodes;
    let mut r: Vec<TreeNode> = Vec::new();
    let ghost all = rest@;
    let ghost mut done: int = 0;
    assert(all.skip(0) =~= all);
    while rest.len() > 0
        invariant
            0 <= done <= all.len(),
            rest@ == all.skip(done),
            all == nodes@,
            workspaces_in(all) == r@ + workspaces_in(rest@),
        decreases rest.len(),
    {
        let child = rest.remove(0);
        proof {
            assert(child == all[done]);
            assert(rest@ =~= all.skip(done + 1));
            assert(all.skip(done).drop_first() =~= all.skip(done + 1));
            done = done + 1;
        }
        let mut found = find_workspaces(child);
        r.append(&mut found);
    }
    assert(r@ + Seq::<TreeNode>::empty() =~= r@);
    r
}

/// The window that a node carries, if it has an identifier, a name and
/// window properties. The identifier is cut to 32 bits. A node that
/// already holds swallow criteria is a placeholder.
pub open spec fn window_at(node: TreeNode) -> Option<Window> {
    if node.window is Some && node.name is Some && node.window_properties is Some {
        Some(
            Window {
                id: (node.window->0 % 0x1_0000_0000) as u32,
                name: node.name->0,
                class: node.window_properties->0.class,
                is_placeholder: node.swallows@.len() > 0,
            },
        )
    } else {
        None
    }
}

/// The windows at or below a node, in tree order: its own, those below its
/// regular children, those below its floating children.
pub open spec fn windows_of(node: TreeNode) -> Seq<Window>
    decreases node, 1int,
{
    let own = match window_at(node) {
        Some(w) => seq![w],
        None => Seq::empty(),
    };
    own + windows_in(node.nodes@) + windows_in(node.floating_nodes@)
}

/// The windows at or below the nodes of a list, in order.
pub open spec fn windows_in(nodes: Seq<TreeNode>) -> Seq<Window>
    decreases nodes, 0int,
{
    if nodes.len() == 0 {
        Seq::empty()
    } else {
        windows_in(nodes.drop_last()) + windows_of(nodes.last())
    }
}

/// Lists the windows of some trees in tree order, regular children before
/// floating ones.
pub fn get_all_windows(trees: &Vec<TreeNode>) -> (r: Vec<Window>)
    ensures
        r@ == windows_in(trees@),
    decreases trees, 0int,
{
    let mut r: Vec<Window> = Vec::new();
    let mut i: usize = 0;
    assert(trees@.take(0) =~= Seq::<TreeNode>::empty());
    while i < trees.len()
        invariant
            i <= trees.len(),
            r@ == windows_in(trees@.take(i as int)),
        decreases trees.len() - i,
    {
        let tree = &trees[i];
        let ghost before = r@;
        if let (Some(id), Some(name), Some(props)) = (
            &tree.window,
            &tree.name,
            &tree.window_properties,
        ) {
            let class = match &props.class {
                Some(c) => Some(c.clone()),
                None => None,
            };
            let low: u64 = *id % 0x1_0000_0000;
            r.push(
                Window {
                    id: low as u32,
                    name: name.clone(),
                    class,
                    is_placeholder: tree.swallows.len() > 0,
                },
            );
        }
        let mut below = get_all_windows(&tree.nodes);
        r.append(&mut below);
        let mut floating = get_all_windows(&tree.floating_nodes);
        r.append(&mut floating);
        proof {
            assert(trees@.take(i + 1).drop_last() =~= trees@.take(i as int));
            assert(trees@.take(i + 1).last() == *tree);
            assert(r@ =~= before + windows_of(*tree));
        }
        i += 1;
    }
    assert(trees@.take(trees.len() as int) =~= trees@);
    r
}

/// The pattern by which a revived terminal is recognised: a fixed marker
/// followed by the identifier of the window it replaces.
pub open spec fn terminal_title_pattern(window: u64) -> Seq<char> {
    "Terminal-Window-"@ + decimal_digits(window as nat)
}

/// The swallow criteria for a window with the given properties.
///
/// Class and instance become exact patterns unless the rule configured for
/// the class leaves them out. The title becomes an exact pattern only where
/// the rule for the class asks for it; otherwise, for a window of a
/// terminal class that has an identifier, it becomes the terminal marker
/// pattern.
pub open spec fn criteria_of(props: WindowProperties, window: Option<u64>, config: Config)
    -> CriteriaModel {
    let fields = match props.class {
        Some(c) => config.spec_swallow_fields(c@),
        None => None,
    };
    let is_terminal = match props.class {
        Some(c) => config.spec_is_terminal(c@),
        None => false,
    };
    CriteriaModel {
        class: match props.class {
            Some(c) => if fields is None || has_name(fields->0, "class"@) {
                Some(anchored_literal(c@))
            } else {
                None
            },
            None => None,
        },
        instance: match props.instance {
            Some(i) => if fields is None || has_name(fields->0, "instance"@) {
                Some(anchored_literal(i@))
            } else {
                None
            },
            None => None,
        },
        title: match props.title {
            Some(t) => if fields is Some && has_name(fields->0, "title"@) {
                Some(anchored_literal(t@))
            } else if is_terminal && window is Some {
                Some(terminal_title_pattern(window->0))
            } else {
                None
            },
            None => None,
        },
    }
}

fn exact_pattern(text: &str) -> (r: String)
    ensures
        r@ == anchored_literal(text@),
{
    let escaped = escape(text);
    let r = String::from_str("^").concat(escaped.as_str()).concat("$");
    proof {
        reveal_strlit("^");
        reveal_strlit("$");
        assert("^"@ =~= seq!['^']);
        assert("$"@ =~= seq!['$']);
    }
    r
}

/// Builds the swallow criteria for a window from its properties.
pub fn swallow_criteria(props: &WindowProperties, window: Option<u64>, config: &Config) -> (r:
    SwallowCriteria)
    ensures
        r@ == criteria_of(*props, window, *config),
{
    let mut fields: Option<&Vec<String>> = None;
    let mut is_terminal = false;
    let mut class: Option<String> = None;
    if let Some(c) = &props.class {
        fields = config.swallow_fields(c.as_str());
        let wanted = match fields {
            Some(f) => contains_name(f, "class"),
            None => true,
        };
        if wanted {
            class = Some(exact_pattern(c.as_str()));
        }
        is_terminal = config.terminal_command(c.as_str()).is_some();
    }
    let mut instance: Option<String> = None;
    if let Some(i) = &props.instance {
        let wanted = match fields {
            Some(f) => contains_name(f, "instance"),
            None => true,
        };
        if wanted {
            instance = Some(exact_pattern(i.as_str()));
        }
    }
    let mut title: Option<String> = None;
    if let Some(t) = &props.title {
        let wanted = match fields {
            Some(f) => contains_name(f, "title"),
            None => false,
        };
        if wanted {
            title = Some(exact_pattern(t.as_str()));
        } else if is_terminal {
            if let Some(id) = window {
                let number = decimal(id);
                title = Some(String::from_str("Terminal-Window-").concat(number.as_str()));
            }
        }
    }
    SwallowCriteria { class, instance, title }
}

/// Whether an attribute with this key is kept in a saved layout.
pub open spec fn allowed_key(key: Seq<char>) -> bool {
    key == "type"@ || key == "fullscreen_mode"@ || key == "layout"@ || key == "border"@ || key
        == "current_border_width"@ || key == "floating"@ || key == "percent"@ || key == "nodes"@
        || key == "floating_nodes"@ || key == "name"@ || key == "geometry"@ || key
        == "window_properties"@ || key == "marks"@ || key == "rect"@
}

/// Tells whether an attribute key is on the list of those a saved layout
/// keeps.
pub fn is_allowed_key(key: &str) -> (b: bool)
    ensures
        b == allowed_key(key@),
{
    str_eq(key, "type") || str_eq(key, "fullscreen_mode") || str_eq(key, "layout") || str_eq(
        key,
        "border",
    ) || str_eq(key, "current_border_width") || str_eq(key, "floating") || str_eq(key, "percent")
        || str_eq(key, "nodes") || str_eq(key, "floating_nodes") || str_eq(key, "name") || str_eq(
        key,
        "geometry",
    ) || str_eq(key, "window_properties") || str_eq(key, "marks") || str_eq(key, "rect")
}

/// The attributes that are kept, as pairs of texts and in their order:
/// those whose key is allowed.
pub open spec fn kept_attributes(attributes: Seq<Attribute>) -> Seq<(Seq<char>, Seq<char>)>
    decreases attributes.len(),
{
    if attributes.len() == 0 {
        Seq::empty()
    } else if allowed_key(attributes.last().key@) {
        kept_attributes(attributes.drop_last()).push(
            (attributes.last().key@, attributes.last().value@),
        )
    } else {
        kept_attributes(attributes.drop_last())
    }
}

fn keep_attributes(attributes: &Vec<Attribute>) -> (r: Vec<Attribute>)
    ensures
        attributes_model(r@) == kept_attributes(attributes@),
{
    let mut r: Vec<Attribute> = Vec::new();
    let mut i: usize = 0;
    assert(attributes@.take(0) =~= Seq::<Attribute>::empty());
    assert(attributes_model(r@) =~= Seq::empty());
    while i < attributes.len()
        invariant
            i <= attributes.len(),
            attributes_model(r@) == kept_attributes(attributes@.take(i as int)),
        decreases attributes.len() - i,
    {
        let a = &attributes[i];
        let ghost before = r@;
        assert(attributes@.take(i + 1).drop_last() =~= attributes@.take(i as int));
        assert(attributes@.take(i + 1).last() == *a);
        if is_allowed_key(a.key.as_str()) {
            r.push(Attribute { key: a.key.clone(), value: a.value.clone() });
            assert(attributes_model(r@) =~= attributes_model(before).push((a.key@, a.value@)));
        }
        i += 1;
    }
    assert(attributes@.take(attributes.len() as int) =~= attributes@);
    r
}

/// The saved layout of a node.
///
/// Of a leaf the layout style is dropped and the name kept; of any other
/// node the name is dropped. A fullscreen mode of zero, the default border
/// width, an all-zero geometry and attributes whose key is not allowed are
/// dropped. The rectangle is kept for floating containers only. A leaf
/// with window properties gets swallow criteria. Children are converted
/// in their order.
pub open spec fn layout_of(node: TreeNode, config: Config) -> LayoutModel
    decreases node,
{
    LayoutModel {
        kind: node.kind,
        name: if leaf_node(node) {
            text_of(node.name)
        } else {
            None
        },
        layout: if leaf_node(node) {
            None
        } else {
            text_of(node.layout)
        },
        fullscreen_mode: if node.fullscreen_mode == 0 {
            None
        } else {
            Some(node.fullscreen_mode)
        },
        current_border_width: if node.current_border_width == DEFAULT_BORDER_WIDTH {
            None
        } else {
            Some(node.current_border_width)
        },
        geometry: if zero_rect(node.geometry) {
            None
        } else {
            Some(node.geometry)
        },
        rect: if node.kind == NodeKind::FloatingContainer {
            Some(node.rect)
        } else {
            None
        },
        swallows: if leaf_node(node) && node.window_properties is Some {
            Some(criteria_of(node.window_properties->0, node.window, config))
        } else {
            None
        },
        nodes: Seq::new(
            node.nodes@.len(),
            |i: int|
                if 0 <= i < node.nodes@.len() {
                    layout_of(node.nodes@[i], config)
                } else {
                    arbitrary()
                },
        ),
        floating_nodes: Seq::new(
            node.floating_nodes@.len(),
            |i: int|
                if 0 <= i < node.floating_nodes@.len() {
                    layout_of(node.floating_nodes@[i], config)
                } else {
                    arbitrary()
                },
        ),
        extra: kept_attributes(node.extra@),
    }
}

/// Reduces a tree to the layout that is saved of it.
pub fn convert_to_layout(tree: &TreeNode, config: &Config) -> (r: LayoutFragment)
    ensures
        r@ == layout_of(*tree, *config),
    decreases tree, 1int,
{
    let leaf = is_leaf_node(tree);
    let swallows = if leaf {
        match &tree.window_properties {
            Some(props) => Some(swallow_criteria(props, tree.window, config)),
            None => None,
        }
    } else {
        None
    };
    let nodes = convert_children(&tree.nodes, config);
    let floating_nodes = convert_children(&tree.floating_nodes, config);
    let r = LayoutFragment {
        kind: tree.kind,
        name: if leaf {
            clone_optional(&tree.name)
        } else {
            None
        },
        layout: if leaf {
            None
        } else {
            clone_optional(&tree.layout)
        },
        fullscreen_mode: if tree.fullscreen_mode == 0 {
            None
        } else {
            Some(tree.fullscreen_mode)
        },
        current_border_width: if tree.current_border_width == DEFAULT_BORDER_WIDTH {
            None
        } else {
            Some(tree.current_border_width)
        },
        geometry: if is_zero_rect(&tree.geometry) {
            None
        } else {
            Some(tree.geometry)
        },
        rect: if tree.kind == NodeKind::FloatingContainer {
            Some(tree.rect)
        } else {
            None
        },
        swallows,
        nodes,
        floating_nodes,
        extra: keep_attributes(&tree.extra),
    };
    proof {
        assert(r@.nodes =~= layout_of(*tree, *config).nodes);
        assert(r@.floating_nodes =~= layout_of(*tree, *config).floating_nodes);
    }
    r
}

fn convert_children(children: &Vec<TreeNode>, config: &Config) -> (r: Vec<LayoutFragment>)
    ensures
        r@.len() == children@.len(),
        forall|i: int| 0 <= i < children@.len() ==> (#[trigger] r@[i])@ == layout_of(
            children@[i],
            *config,
        ),
    decreases children, 0int,
{
    let mut r: Vec<LayoutFragment> = Vec::new();
    let mut i: usize = 0;
    while i < children.len()
        invariant
            i <= children.len(),
            r@.len() == i,
            forall|j: int| 0 <= j < i ==> (#[trigger] r@[j])@ == layout_of(children@[j], *config),
        decreases children.len() - i,
    {
        let child = convert_to_layout(&children[i], config);
        r.push(child);
        i += 1;
    }
    r
}

/// Whether a layout is one that can have been saved: only a leaf holds
/// swallow criteria or a name, a leaf holds no layout style, no attribute
/// holds its default value, only a floating container holds a rectangle,
/// and the same is true of all that lies below.
pub open spec fn saved_layout(layout: LayoutModel) -> bool
    decreases layout,
{
    let leaf = layout.kind == NodeKind::Container && layout.nodes.len() == 0
        && layout.floating_nodes.len() == 0;
    &&& layout.swallows is Some ==> leaf
    &&& layout.name is Some ==> leaf
    &&& leaf ==> layout.layout is None
    &&& layout.fullscreen_mode != Some(0u64)
    &&& layout.current_border_width != Some(DEFAULT_BORDER_WIDTH)
    &&& layout.geometry is Some ==> !zero_rect(layout.geometry->0)
    &&& layout.rect is Some <==> layout.kind == NodeKind::FloatingContainer
    &&& forall|i: int| 0 <= i < layout.nodes.len() ==> saved_layout(#[trigger] layout.nodes[i])
    &&& forall|i: int|
        0 <= i < layout.floating_nodes.len() ==> saved_layout(#[trigger] layout.floating_nodes[i])
}

/// The layout that is saved of a tree is a saved layout, whatever the
/// tree.
pub proof fn lemma_layout_is_saved_layout(node: TreeNode, config: Config)
    ensures
        saved_layout(layout_of(node, config)),
    decreases node,
{
    let layout = layout_of(node, config);
    assert forall|i: int| 0 <= i < layout.nodes.len() implies saved_layout(
        #[trigger] layout.nodes[i],
    ) by {
        lemma_layout_is_saved_layout(node.nodes@[i], config);
    }
    assert forall|i: int| 0 <= i < layout.floating_nodes.len() implies saved_layout(
        #[trigger] layout.floating_nodes[i],
    ) by {
        lemma_layout_is_saved_layout(node.floating_nodes@[i], config);
    }
}

/// Attributes that hold their default value are absent from the saved
/// layout: a fullscreen mode of zero, the default border width, an all-zero
/// geometry, an empty list of children. The rectangle is kept for a
/// floating container, whatever it holds, and for no other node: never for
/// a leaf.
pub proof fn lemma_defaults_are_dropped(node: TreeNode, config: Config)
    ensures
        node.fullscreen_mode == 0 ==> layout_of(node, config).fullscreen_mode is None,
        node.current_border_width == DEFAULT_BORDER_WIDTH ==> layout_of(
            node,
            config,
        ).current_border_width is None,
        zero_rect(node.geometry) ==> layout_of(node, config).geometry is None,
        node.nodes@.len() == 0 ==> layout_of(node, config).nodes.len() == 0,
        node.floating_nodes@.len() == 0 ==> layout_of(node, config).floating_nodes.len() == 0,
        node.kind == NodeKind::FloatingContainer ==> layout_of(node, config).rect == Some(
            node.rect,
        ),
        node.kind != NodeKind::FloatingContainer ==> layout_of(node, config).rect is None,
        leaf_node(node) ==> layout_of(node, config).rect is None,
{
}

/// What differs from its default is kept as it is.
pub proof fn lemma_set_attributes_are_kept(node: TreeNode, config: Config)
    ensures
        node.fullscreen_mode != 0 ==> layout_of(node, config).fullscreen_mode == Some(
            node.fullscreen_mode,
        ),
        node.current_border_width != DEFAULT_BORDER_WIDTH ==> layout_of(
            node,
            config,
        ).current_border_width == Some(node.current_border_width),
        !zero_rect(node.geometry) ==> layout_of(node, config).geometry == Some(node.geometry),
        layout_of(node, config).nodes.len() == node.nodes@.len(),
        layout_of(node, config).floating_nodes.len() == node.floating_nodes@.len(),
        layout_of(node, config).kind == node.kind,
{
}

/// Only a leaf keeps its name and gets swallow criteria, and no leaf
/// keeps a layout style.
pub proof fn lemma_leaf_attributes(node: TreeNode, config: Config)
    ensures
        leaf_node(node) ==> layout_of(node, config).layout is None,
        leaf_node(node) ==> layout_of(node, config).name == text_of(node.name),
        !leaf_node(node) ==> layout_of(node, config).name is None,
        !leaf_node(node) ==> layout_of(node, config).swallows is None,
        layout_of(node, config).swallows is Some <==> leaf_node(node) && node.window_properties
            is Some,
{
}

/// Without a rule for the window's class, the criteria hold exact
/// patterns for class and instance, and none for the title unless the
/// class is a terminal class.
pub proof fn lemma_criteria_without_rule(
    props: WindowProperties,
    window: Option<u64>,
    config: Config,
)
    requires
        props.class is Some ==> config.spec_swallow_fields(props.class->0@) is None,
    ensures
        criteria_of(props, window, config).class == match props.class {
            Some(c) => Some(anchored_literal(c@)),
            None => None,
        },
        criteria_of(props, window, config).instance == match props.instance {
            Some(i) => Some(anchored_literal(i@)),
            None => None,
        },
        (props.class is Some ==> !config.spec_is_terminal(props.class->0@)) ==> criteria_of(
            props,
            window,
            config,
        ).title is None,
{
}

/// With a rule for the window's class, the criteria hold an exact pattern
/// for just those of class, instance and title that the rule names and
/// the window has.
pub proof fn lemma_criteria_with_rule(
    props: WindowProperties,
    window: Option<u64>,
    config: Config,
    fields: Seq<String>,
)
    requires
        props.class is Some,
        config.spec_swallow_fields(props.class->0@) == Some(fields),
    ensures
        has_name(fields, "class"@) ==> criteria_of(props, window, config).class == Some(
            anchored_literal(props.class->0@),
        ),
        !has_name(fields, "class"@) ==> criteria_of(props, window, config).class is None,
        has_name(fields, "instance"@) && props.instance is Some ==> criteria_of(
            props,
            window,
            config,
        ).instance == Some(anchored_literal(props.instance->0@)),
        !has_name(fields, "instance"@) ==> criteria_of(props, window, config).instance is None,
        has_name(fields, "title"@) && props.title is Some ==> criteria_of(
            props,
            window,
            config,
        ).title == Some(anchored_literal(props.title->0@)),
{
}

/// What is saved of a workspace: the name of its file and the layouts
/// that the file holds.
#[derive(Debug)]
pub struct SavedWorkspace {
    pub file_name: String,
    pub fragments: Vec<LayoutFragment>,
}

/// Layouts as plain values.
pub open spec fn layouts_model(fragments: Seq<LayoutFragment>) -> Seq<LayoutModel> {
    fragments.map_values(|f: LayoutFragment| f@)
}

/// Prepares a workspace for saving: its file is named after it, and
/// holds the layouts of its regular children followed by those of its
/// floating children, not that of the workspace itself. A workspace
/// without a name is not saved.
pub fn workspace_layout(workspace: &TreeNode, config: &Config) -> (r: Option<SavedWorkspace>)
    ensures
        workspace.name is None ==> r is None,
        workspace.name is Some ==> r is Some && r->0.file_name@ == layout_file_name_of(
            workspace.name->0@,
        ) && layouts_model(r->0.fragments@) == layout_of(*workspace, *config).nodes + layout_of(
            *workspace,
            *config,
        ).floating_nodes,
{
    let name = match &workspace.name {
        Some(name) => name,
        None => {
            return None;
        },
    };
    let file_name = layout_file_name(name.as_str());
    let layout = convert_to_layout(workspace, config);
    let ghost model = layout@;
    assert(model.nodes =~= layouts_model(layout.nodes@));
    assert(model.floating_nodes =~= layouts_model(layout.floating_nodes@));
    let LayoutFragment { nodes, floating_nodes, .. } = layout;
    let mut fragments = nodes;
    let mut floating = floating_nodes;
    let ghost first = layouts_model(fragments@);
    let ghost second = layouts_model(floating@);
    fragments.append(&mut floating);
    assert(layouts_model(fragments@) =~= first + second);
    Some(SavedWorkspace { file_name, fragments })
}

} // verus!
