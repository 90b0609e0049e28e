use vstd::prelude::*;
use crate::css::{Css, CssPath, CssProperty};
use crate::dom::{Arena, Dom, DomId, Node, NodeData, NodeId, same_node_data};
use crate::ids::IdCounter;
use crate::style::{
    MatchContext, MatchState, cascade_node, hover_group_exec, path_matches, path_matches_exec,
    selected_hover_entries, styled_declarations,
};
use crate::ui_state::{
    HoverGroup, UiState, duplicate_overrides, entry_if, hover_pass, lemma_table_push, node_at,
    table_view,
    ui_state_create_tags_for_hover_nodes,
};

verus! {

/// A request to move the keyboard focus, made during a frame.
#[derive(Debug, Clone, PartialEq, Eq, Hash)]
pub enum FocusTarget {
    /// Focus this node of this tree
    Id(DomId, NodeId),
    /// Focus the first node of this tree that the path selects
    Path(DomId, CssPath),
    /// Remove the focus
    NoFocus,
}

/// The declarations that style one node after the cascade.
#[derive(Debug, Clone, PartialEq, Eq, Hash)]
pub struct StyledNode {
    /// One declaration per property kind
    pub css_constraints: Vec<CssProperty>,
}

/// A styled tree, ready for layout.
#[derive(Debug, Clone)]
pub struct UiDescription<C> {
    /// Identifier of the tree (several trees can be displayed in one window)
    pub dom_id: DomId,
    /// A copy of the nodes of the tree
    pub ui_descr_arena: Arena<C>,
    /// The root node of the tree
    pub ui_descr_root: NodeId,
    /// The style of each node, by node index
    pub styled_nodes: Vec<StyledNode>,
    /// The style overrides of each node that has some, as the tree gave them
    pub dynamic_css_overrides: Vec<(NodeId, Vec<(String, CssProperty)>)>,
    /// The nodes that a `:hover` or `:active` selector may pick, with their
    /// hover group, in node order; they need a tag to be hit-tested
    pub selected_hover_nodes: Vec<(NodeId, HoverGroup)>,
    /// Whether a pending focus request named a node that does not exist
    pub focus_target_not_found: bool,
}

/// The focused node, if it lies in the tree `dom_id`.
pub open spec fn focus_in_tree(focused: Option<(DomId, NodeId)>, dom_id: DomId) -> Option<NodeId> {
    match focused {
        Some((d, n)) => if d.id == dom_id.id {
            Some(n)
        } else {
            None
        },
        None => None,
    }
}

/// The first of the first `n` nodes that the selectors select.
pub open spec fn first_selected<C>(
    nodes: Seq<NodeData<C>>,
    layout: Seq<Node>,
    sels: Seq<crate::css::CssPathSelector>,
    ctx: MatchState,
    n: int,
) -> Option<int>
    decreases n,
{
    if n <= 0 {
        None
    } else {
        match first_selected(nodes, layout, sels, ctx, n - 1) {
            Some(k) => Some(k),
            None => if path_matches(
                nodes,
                layout,
                sels,
                sels.len() as int,
                n - 1,
                ctx.hovered,
                ctx.mouse_down,
                ctx.focused,
                false,
            ) {
                Some(n - 1)
            } else {
                None
            },
        }
    }
}

/// The focus after resolving the pending request against the tree `dom_id`,
/// and whether the request named a missing node (the focus then stays).
pub open spec fn resolved_focus<C>(
    nodes: Seq<NodeData<C>>,
    layout: Seq<Node>,
    dom_id: DomId,
    focused: Option<(DomId, NodeId)>,
    pending: Option<FocusTarget>,
    ctx: MatchState,
) -> (Option<(DomId, NodeId)>, bool) {
    match pending {
        None => (focused, false),
        Some(FocusTarget::NoFocus) => (None, false),
        Some(FocusTarget::Id(d, n)) => if d.id == dom_id.id && n.index < nodes.len() {
            (Some((dom_id, n)), false)
        } else {
            (focused, true)
        },
        Some(FocusTarget::Path(d, p)) => {
            let k = first_selected(nodes, layout, p.selectors@, ctx, nodes.len() as int);
            if d.id == dom_id.id && k is Some {
                (Some((dom_id, node_at(k->0))), false)
            } else {
                (focused, true)
            }
        },
    }
}

fn first_selected_exec<C>(
    dom: &crate::dom::Dom<C>,
    sels: &Vec<crate::css::CssPathSelector>,
    ctx: &MatchContext,
) -> (r: Option<usize>)
    requires
        dom.wf(),
    ensures
        r matches Some(k) ==> first_selected(
            dom.arena.node_data@,
            dom.arena.node_layout@,
            sels@,
            ctx@,
            dom.arena.node_data@.len() as int,
        ) == Some(k as int),
        r is None ==> first_selected(
            dom.arena.node_data@,
            dom.arena.node_layout@,
            sels@,
            ctx@,
            dom.arena.node_data@.len() as int,
        ) is None,
{
    let ghost nodes = dom.arena.node_data@;
    let ghost layout = dom.arena.node_layout@;
    let len = dom.arena.node_data.len();
    let mut i: usize = 0;
    while i < len
        invariant
            dom.wf(),
            nodes == dom.arena.node_data@,
            layout == dom.arena.node_layout@,
            len == nodes.len(),
            i <= len,
            first_selected(nodes, layout, sels@, ctx@, i as int) is None,
        decreases len - i,
    {
        if path_matches_exec(dom, sels, sels.len(), i, ctx, false) {
            proof {
                lemma_first_selected_stays(nodes, layout, sels@, ctx@, i as int + 1, len as int);
            }
            return Some(i);
        }
        i = i + 1;
    }
    None
}

proof fn lemma_first_selected_stays<C>(
    nodes: Seq<NodeData<C>>,
    layout: Seq<Node>,
    sels: Seq<crate::css::CssPathSelector>,
    ctx: MatchState,
    m: int,
    n: int,
)
    requires
        m <= n,
        first_selected(nodes, layout, sels, ctx, m) is Some,
    ensures
        first_selected(nodes, layout, sels, ctx, n) == first_selected(nodes, layout, sels, ctx, m),
    decreases n - m,
{
    if m < n {
        lemma_first_selected_stays(nodes, layout, sels, ctx, m, n - 1);
    }
}

fn copy_nodes(v: &Vec<NodeId>) -> (r: Vec<NodeId>)
    ensures
        r@ == v@,
{
    let mut r: Vec<NodeId> = Vec::new();
    let mut i: usize = 0;
    while i < v.len()
        invariant
            i <= v@.len(),
            r@ == v@.subrange(0, i as int),
        decreases v@.len() - i,
    {
        r.push(v[i]);
        i = i + 1;
        assert(r@ =~= v@.subrange(0, i as int));
    }
    assert(v@.subrange(0, v@.len() as int) =~= v@);
    r
}

fn focus_in_tree_exec(focused: Option<(DomId, NodeId)>, dom_id: DomId) -> (r: Option<NodeId>)
    ensures
        r == focus_in_tree(focused, dom_id),
{
    match focused {
        Some((d, n)) => if d.id == dom_id.id {
            Some(n)
        } else {
            None
        },
        None => None,
    }
}

impl<C: Copy> UiDescription<C> {
    /// Styles the tree of `ui_state` for this frame.
    ///
    /// First the pending focus request is resolved (and cleared): the focus
    /// moves to the node it names, or is removed; when the node does not
    /// exist the focus stays and `focus_target_not_found` is set. Then every
    /// node is matched against the rules, with `:hover` holding of the
    /// hovered nodes, `:active` of those while the mouse is down, and
    /// `:focus` of the focused node. Last, the nodes that `:hover` or
    /// `:active` rules may pick get their tags in `ui_state`.
    pub fn match_css_to_dom(
        ui_state: &mut UiState<C>,
        style: &Css,
        focused_node: &mut Option<(DomId, NodeId)>,
        pending_focus_target: &mut Option<FocusTarget>,
        hovered_nodes: &Vec<NodeId>,
        is_mouse_down: bool,
    ) -> (r: UiDescription<C>)
        requires
            old(ui_state).dom.wf(),
            old(ui_state).next_tag_id + old(ui_state).dom.arena.node_data@.len() <= usize::MAX,
        ensures
            ({
                let nodes = old(ui_state).dom.arena.node_data@;
                let layout = old(ui_state).dom.arena.node_layout@;
                let dom_id = old(ui_state).dom_id;
                let before = MatchState {
                    hovered: hovered_nodes@,
                    mouse_down: is_mouse_down,
                    focused: focus_in_tree(*old(focused_node), dom_id),
                };
                let resolved = resolved_focus(
                    nodes,
                    layout,
                    dom_id,
                    *old(focused_node),
                    *old(pending_focus_target),
                    before,
                );
                let after = MatchState {
                    hovered: hovered_nodes@,
                    mouse_down: is_mouse_down,
                    focused: focus_in_tree(resolved.0, dom_id),
                };
                &&& *final(focused_node) == resolved.0
                &&& r.focus_target_not_found == resolved.1
                &&& *final(pending_focus_target) is None
                &&& r.dom_id == dom_id
                &&& r.ui_descr_root == old(ui_state).dom.root
                &&& r.ui_descr_arena.node_layout@ == layout
                &&& r.ui_descr_arena.node_data@.len() == nodes.len()
                &&& forall|i: int|
                    0 <= i < nodes.len() ==> same_node_data(
                        #[trigger] r.ui_descr_arena.node_data@[i],
                        nodes[i],
                    )
                &&& r.styled_nodes@.len() == nodes.len()
                &&& forall|i: int|
                    0 <= i < nodes.len() ==> (#[trigger] r.styled_nodes@[i]).css_constraints@
                        == styled_declarations(nodes, layout, style.rules@, i, after)
                &&& r.selected_hover_nodes@ == selected_hover_entries(
                    nodes,
                    layout,
                    style.rules@,
                    nodes.len() as int,
                    after,
                )
                &&& table_view(r.dynamic_css_overrides@) == table_view(
                    old(ui_state).dynamic_css_overrides@,
                )
                &&& old(ui_state).same_but_tags(final(ui_state))
                &&& final(ui_state).tag_tables() == hover_pass(
                    old(ui_state).tag_tables(),
                    r.selected_hover_nodes@,
                    r.selected_hover_nodes@.len() as int,
                )
            }),
    {
        let ghost nodes = ui_state.dom.arena.node_data@;
        let ghost layout = ui_state.dom.arena.node_layout@;
        let dom_id = ui_state.dom_id;
        let len = ui_state.dom.arena.node_data.len();

        // resolve the pending focus request before matching `:focus`
        let mut pending: Option<FocusTarget> = None;
        std::mem::swap(&mut pending, pending_focus_target);
        let before = MatchContext {
            hovered: copy_nodes(hovered_nodes),
            mouse_down: is_mouse_down,
            focused: focus_in_tree_exec(*focused_node, dom_id),
        };
        let mut focus_target_not_found = false;
        match pending {
            None => {},
            Some(FocusTarget::NoFocus) => {
                *focused_node = None;
            },
            Some(FocusTarget::Id(d, n)) => {
                if d.id == dom_id.id && n.index < len {
                    *focused_node = Some((dom_id, n));
                } else {
                    focus_target_not_found = true;
                }
            },
            Some(FocusTarget::Path(d, p)) => {
                if d.id == dom_id.id {
                    match first_selected_exec(&ui_state.dom, &p.selectors, &before) {
                        Some(k) => {
                            *focused_node = Some((dom_id, NodeId { index: k }));
                        },
                        None => {
                            focus_target_not_found = true;
                        },
                    }
                } else {
                    focus_target_not_found = true;
                }
            },
        }
        let ctx = MatchContext {
            hovered: before.hovered,
            mouse_down: is_mouse_down,
            focused: focus_in_tree_exec(*focused_node, dom_id),
        };

        let mut styled_nodes: Vec<StyledNode> = Vec::new();
        let mut selected_hover_nodes: Vec<(NodeId, HoverGroup)> = Vec::new();
        let mut i: usize = 0;
        while i < len
            invariant
                ui_state.dom.wf(),
                nodes == ui_state.dom.arena.node_data@,
                layout == ui_state.dom.arena.node_layout@,
                len == nodes.len(),
                i <= len,
                styled_nodes@.len() == i,
                forall|k: int|
                    0 <= k < i ==> (#[trigger] styled_nodes@[k]).css_constraints@
                        == styled_declarations(nodes, layout, style.rules@, k, ctx@),
                selected_hover_nodes@ == selected_hover_entries(
                    nodes,
                    layout,
                    style.rules@,
                    i as int,
                    ctx@,
                ),
                selected_hover_nodes@.len() <= i,
            decreases len - i,
        {
            let css_constraints = cascade_node(&ui_state.dom, &style.rules, i, &ctx);
            styled_nodes.push(StyledNode { css_constraints });
            let ghost prev = selected_hover_nodes@;
            match hover_group_exec(&ui_state.dom, &style.rules, i, &ctx) {
                Some(g) => {
                    selected_hover_nodes.push((NodeId { index: i }, g));
                },
                None => {},
            }
            proof {
                let g = crate::style::hover_group_of(
                    nodes,
                    layout,
                    style.rules@,
                    style.rules@.len() as int,
                    i as int,
                    ctx@,
                );
                assert(selected_hover_nodes@ =~= prev + entry_if(g is Some, (node_at(i as int), g->0)));
            }
            i = i + 1;
        }

        let mut dynamic_css_overrides: Vec<(NodeId, Vec<(String, CssProperty)>)> = Vec::new();
        let mut k: usize = 0;
        while k < ui_state.dynamic_css_overrides.len()
            invariant
                k <= ui_state.dynamic_css_overrides@.len(),
                table_view(dynamic_css_overrides@) == table_view(
                    ui_state.dynamic_css_overrides@.subrange(0, k as int),
                ),
            decreases ui_state.dynamic_css_overrides@.len() - k,
        {
            let node = ui_state.dynamic_css_overrides[k].0;
            let entries = duplicate_overrides(&ui_state.dynamic_css_overrides[k].1);
            let ghost prev = dynamic_css_overrides@;
            let ghost src = ui_state.dynamic_css_overrides@;
            proof {
                lemma_table_push(prev, (node, entries));
                assert(src.subrange(0, k + 1) =~= src.subrange(0, k as int).push(src[k as int]));
                lemma_table_push(src.subrange(0, k as int), src[k as int]);
            }
            dynamic_css_overrides.push((node, entries));
            k = k + 1;
        }
        assert(ui_state.dynamic_css_overrides@.subrange(
            0,
            ui_state.dynamic_css_overrides@.len() as int,
        ) =~= ui_state.dynamic_css_overrides@);

        let ui_descr_arena = ui_state.dom.arena.duplicate();
        let ui_descr_root = ui_state.dom.root;
        ui_state_create_tags_for_hover_nodes(ui_state, &selected_hover_nodes);
        UiDescription {
            dom_id,
            ui_descr_arena,
            ui_descr_root,
            styled_nodes,
            dynamic_css_overrides,
            selected_hover_nodes,
            focus_target_not_found,
        }
    }
}

impl<C: Copy> Default for UiDescription<C> {
    /// The description of a lone `div` styled by an empty stylesheet.
    fn default() -> (r: UiDescription<C>)
        ensures
            r.dom_id.id == 0,
            r.dom_id.parent is None,
            r.styled_nodes@.len() == 1,
            r.styled_nodes@[0].css_constraints@.len() == 0,
            r.selected_hover_nodes@.len() == 0,
            r.dynamic_css_overrides@.len() == 0,
            !r.focus_target_not_found,
    {
        let mut dom_ids = IdCounter::new();
        let dom: Dom<C> = Dom::div();
        let mut ui_state = crate::ui_state::ui_state_from_dom(dom, None, &mut dom_ids);
        let css = Css::empty();
        let mut focused_node: Option<(DomId, NodeId)> = None;
        let mut focus_target: Option<FocusTarget> = None;
        let hovered_nodes: Vec<NodeId> = Vec::new();
        let r = Self::match_css_to_dom(
            &mut ui_state,
            &css,
            &mut focused_node,
            &mut focus_target,
            &hovered_nodes,
            false,
        );
        proof {
            let nodes = ui_state.dom.arena.node_data@;
            let layout = ui_state.dom.arena.node_layout@;
            let no_rules = Seq::<crate::css::CssRuleBlock>::empty();
            assert(css.rules@ =~= no_rules);
            assert forall|ctx: MatchState| selected_hover_entries(nodes, layout, no_rules, 1, ctx).len() == 0 by {
                assert(crate::style::hover_group_of(nodes, layout, no_rules, 0, 0, ctx) is None);
                assert(selected_hover_entries(nodes, layout, no_rules, 0, ctx) =~= Seq::empty());
            }
            assert(nodes[0].dynamic_css_overrides@.len() == 0);
            assert(crate::ui_state::override_table(nodes, 0) =~= Seq::empty());
            assert(crate::ui_state::override_table(nodes, 1).len() == 0);
            assert(r.dynamic_css_overrides@.len() == table_view(r.dynamic_css_overrides@).len());
            assert(crate::style::cascade_rules(
                nodes,
                ui_state.dom.arena.node_layout@,
                Seq::<crate::css::CssRuleBlock>::empty(),
                0,
                0,
                MatchState { hovered: Seq::empty(), mouse_down: false, focused: None },
            ) =~= Seq::empty());
        }
        r
    }
}

} // verus!
