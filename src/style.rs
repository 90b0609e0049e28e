use vstd::prelude::*;
use crate::css::{
    CssPathPseudoSelector, CssPathSelector, CssProperty, CssPropertyType, CssRuleBlock,
    triggers_relayout,
};
use crate::dom::{Dom, Node, NodeData, NodeId, type_path};
use crate::ui_state::{ActiveHover, HoverGroup, entry_if, node_at};

verus! {

/// The interaction state that pseudo-classes test: the hovered nodes, whether
/// the mouse button is down, and the focused node of this tree.
pub struct MatchContext {
    pub hovered: Vec<NodeId>,
    pub mouse_down: bool,
    pub focused: Option<NodeId>,
}

/// The interaction state as plain values.
pub struct MatchState {
    pub hovered: Seq<NodeId>,
    pub mouse_down: bool,
    pub focused: Option<NodeId>,
}

impl MatchContext {
    pub open spec fn view(&self) -> MatchState {
        MatchState { hovered: self.hovered@, mouse_down: self.mouse_down, focused: self.focused }
    }
}

/// Whether a selector is a combinator, which ends a compound.
pub open spec fn is_combinator(s: CssPathSelector) -> bool {
    s is DirectChildren || s is Children
}

/// Where the compound that ends before `end` starts: just after the last
/// combinator before `end`, or at 0.
pub open spec fn compound_start(sels: Seq<CssPathSelector>, end: int) -> int
    decreases end,
{
    if end <= 0 {
        0
    } else if is_combinator(sels[end - 1]) {
        end
    } else {
        compound_start(sels, end - 1)
    }
}

/// Whether one simple selector holds of node `node` with payload `d`. With
/// `relax`, `:hover` and `:active` count as holding.
pub open spec fn simple_matches<C>(
    s: CssPathSelector,
    d: NodeData<C>,
    node: NodeId,
    hovered: Seq<NodeId>,
    mouse_down: bool,
    focused: Option<NodeId>,
    relax: bool,
) -> bool {
    match s {
        CssPathSelector::Global => true,
        CssPathSelector::Type(t) => type_path(d.node_type) == t,
        CssPathSelector::Class(c) => exists|i: int| 0 <= i < d.classes@.len() && d.classes@[i]@ == c@,
        CssPathSelector::Id(c) => exists|i: int| 0 <= i < d.ids@.len() && d.ids@[i]@ == c@,
        CssPathSelector::PseudoSelector(p) => match p {
            CssPathPseudoSelector::Hover => relax || hovered.contains(node),
            CssPathPseudoSelector::Active => relax || (hovered.contains(node) && mouse_down),
            CssPathPseudoSelector::Focus => focused == Some(node),
        },
        _ => true,
    }
}

/// Whether the selectors `start..end` all hold of the node.
pub open spec fn compound_matches<C>(
    sels: Seq<CssPathSelector>,
    start: int,
    end: int,
    d: NodeData<C>,
    node: NodeId,
    hovered: Seq<NodeId>,
    mouse_down: bool,
    focused: Option<NodeId>,
    relax: bool,
) -> bool {
    forall|i: int|
        start <= i < end ==> simple_matches(
            #[trigger] sels[i],
            d,
            node,
            hovered,
            mouse_down,
            focused,
            relax,
        )
}

/// Whether the selectors `0..end` select node `i`: the last compound holds
/// of the node, and the rest of the path selects its parent (after `>`) or
/// one of its ancestors (after a space). `relax` applies to the last compound only.
pub open spec fn path_matches<C>(
    nodes: Seq<NodeData<C>>,
    layout: Seq<Node>,
    sels: Seq<CssPathSelector>,
    end: int,
    i: int,
    hovered: Seq<NodeId>,
    mouse_down: bool,
    focused: Option<NodeId>,
    relax: bool,
) -> bool
    decreases end, i, 1int,
{
    let start = compound_start(sels, end);
    if !(0 <= i < nodes.len() && i < layout.len() && 0 <= start <= end <= sels.len()) {
        false
    } else if !compound_matches(
        sels,
        start,
        end,
        nodes[i],
        NodeId { index: i as usize },
        hovered,
        mouse_down,
        focused,
        relax,
    ) {
        false
    } else if start == 0 {
        true
    } else if layout[i].parent is None {
        false
    } else {
        let p = layout[i].parent->0.index as int;
        if !(0 <= p < i) {
            false
        } else if sels[start - 1] is DirectChildren {
            path_matches(nodes, layout, sels, start - 1, p, hovered, mouse_down, focused, false)
        } else {
            ancestor_matches(nodes, layout, sels, start - 1, p, hovered, mouse_down, focused)
        }
    }
}

/// Whether the selectors `0..end` select node `i` or one of its ancestors.
pub open spec fn ancestor_matches<C>(
    nodes: Seq<NodeData<C>>,
    layout: Seq<Node>,
    sels: Seq<CssPathSelector>,
    end: int,
    i: int,
    hovered: Seq<NodeId>,
    mouse_down: bool,
    focused: Option<NodeId>,
) -> bool
    decreases end, i, 2int,
{
    if !(0 <= i < nodes.len() && i < layout.len()) {
        false
    } else if path_matches(nodes, layout, sels, end, i, hovered, mouse_down, focused, false) {
        true
    } else if layout[i].parent is None {
        false
    } else {
        let p = layout[i].parent->0.index as int;
        if 0 <= p < i {
            ancestor_matches(nodes, layout, sels, end, p, hovered, mouse_down, focused)
        } else {
            false
        }
    }
}


fn compound_start_exec(sels: &Vec<CssPathSelector>, end: usize) -> (r: usize)
    requires
        end <= sels@.len(),
    ensures
        r == compound_start(sels@, end as int),
        r <= end,
{
    let mut k: usize = end;
    while k > 0
        invariant
            k <= end <= sels@.len(),
            compound_start(sels@, end as int) == compound_start(sels@, k as int),
        decreases k,
    {
        match sels[k - 1] {
            CssPathSelector::DirectChildren | CssPathSelector::Children => {
                return k;
            },
            _ => {},
        }
        k = k - 1;
    }
    0
}

fn contains_node(v: &Vec<NodeId>, node: NodeId) -> (r: bool)
    ensures
        r == v@.contains(node),
{
    let mut i: usize = 0;
    while i < v.len()
        invariant
            i <= v@.len(),
            forall|j: int| 0 <= j < i ==> v@[j] != node,
        decreases v@.len() - i,
    {
        if v[i] == node {
            return true;
        }
        i = i + 1;
    }
    false
}

fn contains_string(v: &Vec<String>, s: &String) -> (r: bool)
    ensures
        r == exists|i: int| 0 <= i < v@.len() && v@[i]@ == s@,
{
    let mut i: usize = 0;
    while i < v.len()
        invariant
            i <= v@.len(),
            forall|j: int| 0 <= j < i ==> v@[j]@ != s@,
        decreases v@.len() - i,
    {
        if v[i] == *s {
            return true;
        }
        i = i + 1;
    }
    false
}

fn simple_matches_exec<C>(
    s: &CssPathSelector,
    d: &NodeData<C>,
    node: NodeId,
    ctx: &MatchContext,
    relax: bool,
) -> (r: bool)
    ensures
        r == simple_matches(*s, *d, node, ctx.hovered@, ctx.mouse_down, ctx.focused, relax),
{
    match s {
        CssPathSelector::Global => true,
        CssPathSelector::Type(t) => d.node_type.get_path() == *t,
        CssPathSelector::Class(c) => contains_string(&d.classes, c),
        CssPathSelector::Id(c) => contains_string(&d.ids, c),
        CssPathSelector::PseudoSelector(p) => match p {
            CssPathPseudoSelector::Hover => relax || contains_node(&ctx.hovered, node),
            CssPathPseudoSelector::Active => relax || (contains_node(&ctx.hovered, node)
                && ctx.mouse_down),
            CssPathPseudoSelector::Focus => match ctx.focused {
                Some(f) => f == node,
                None => false,
            },
        },
        _ => true,
    }
}

fn compound_matches_exec<C>(
    sels: &Vec<CssPathSelector>,
    start: usize,
    end: usize,
    d: &NodeData<C>,
    node: NodeId,
    ctx: &MatchContext,
    relax: bool,
) -> (r: bool)
    requires
        start <= end <= sels@.len(),
    ensures
        r == compound_matches(
            sels@,
            start as int,
            end as int,
            *d,
            node,
            ctx.hovered@,
            ctx.mouse_down,
            ctx.focused,
            relax,
        ),
{
    let mut k: usize = start;
    while k < end
        invariant
            start <= k <= end <= sels@.len(),
            forall|j: int|
                start <= j < k ==> simple_matches(
                    #[trigger] sels@[j],
                    *d,
                    node,
                    ctx.hovered@,
                    ctx.mouse_down,
                    ctx.focused,
                    relax,
                ),
        decreases end - k,
    {
        if !simple_matches_exec(&sels[k], d, node, ctx, relax) {
            return false;
        }
        k = k + 1;
    }
    true
}

/// Whether the selectors `0..end` select node `i` (see `path_matches`).
pub fn path_matches_exec<C>(
    dom: &Dom<C>,
    sels: &Vec<CssPathSelector>,
    end: usize,
    i: usize,
    ctx: &MatchContext,
    relax: bool,
) -> (r: bool)
    requires
        dom.wf(),
        end <= sels@.len(),
    ensures
        r == path_matches(
            dom.arena.node_data@,
            dom.arena.node_layout@,
            sels@,
            end as int,
            i as int,
            ctx.hovered@,
            ctx.mouse_down,
            ctx.focused,
            relax,
        ),
    decreases end, i, 1int,
{
    if i >= dom.arena.node_data.len() {
        return false;
    }
    let start = compound_start_exec(sels, end);
    if !compound_matches_exec(
        sels,
        start,
        end,
        &dom.arena.node_data[i],
        NodeId { index: i },
        ctx,
        relax,
    ) {
        return false;
    }
    if start == 0 {
        return true;
    }
    match dom.arena.node_layout[i].parent {
        None => false,
        Some(p) => {
            if p.index >= i {
                false
            } else {
                match sels[start - 1] {
                    CssPathSelector::DirectChildren => path_matches_exec(
                        dom,
                        sels,
                        start - 1,
                        p.index,
                        ctx,
                        false,
                    ),
                    _ => ancestor_matches_exec(dom, sels, start - 1, p.index, ctx),
                }
            }
        },
    }
}

fn ancestor_matches_exec<C>(
    dom: &Dom<C>,
    sels: &Vec<CssPathSelector>,
    end: usize,
    i: usize,
    ctx: &MatchContext,
) -> (r: bool)
    requires
        dom.wf(),
        end <= sels@.len(),
    ensures
        r == ancestor_matches(
            dom.arena.node_data@,
            dom.arena.node_layout@,
            sels@,
            end as int,
            i as int,
            ctx.hovered@,
            ctx.mouse_down,
            ctx.focused,
        ),
    decreases end, i, 2int,
{
    if i >= dom.arena.node_data.len() {
        return false;
    }
    if path_matches_exec(dom, sels, end, i, ctx, false) {
        return true;
    }
    match dom.arena.node_layout[i].parent {
        None => false,
        Some(p) => {
            if p.index < i {
                ancestor_matches_exec(dom, sels, end, p.index, ctx)
            } else {
                false
            }
        },
    }
}

/// Whether rule `r` selects node `i`.
pub open spec fn rule_selects<C>(
    nodes: Seq<NodeData<C>>,
    layout: Seq<Node>,
    r: CssRuleBlock,
    i: int,
    ctx: MatchState,
    relax: bool,
) -> bool {
    path_matches(
        nodes,
        layout,
        r.path.selectors@,
        r.path.selectors@.len() as int,
        i,
        ctx.hovered,
        ctx.mouse_down,
        ctx.focused,
        relax,
    )
}

/// The position of the last declaration of kind `t`.
pub open spec fn type_index(decls: Seq<(CssProperty, usize)>, t: CssPropertyType) -> Option<int>
    decreases decls.len(),
{
    if decls.len() == 0 {
        None
    } else if decls.last().0.property_type == t {
        Some(decls.len() - 1)
    } else {
        type_index(decls.drop_last(), t)
    }
}

/// The cascade after declaration `d` of specificity `sp`: it replaces the
/// declaration of its kind unless that one is more specific, and is
/// appended when its kind is new.
pub open spec fn cascade_decl(decls: Seq<(CssProperty, usize)>, d: CssProperty, sp: usize) -> Seq<
    (CssProperty, usize),
> {
    match type_index(decls, d.property_type) {
        Some(k) => if decls[k].1 <= sp {
            decls.update(k, (d, sp))
        } else {
            decls
        },
        None => decls.push((d, sp)),
    }
}

/// The cascade after the first `m` declarations of one rule.
pub open spec fn cascade_rule(
    decls: Seq<(CssProperty, usize)>,
    ds: Seq<CssProperty>,
    sp: usize,
    m: int,
) -> Seq<(CssProperty, usize)>
    decreases m,
{
    if m <= 0 {
        decls
    } else {
        cascade_decl(cascade_rule(decls, ds, sp, m - 1), ds[m - 1], sp)
    }
}

/// The cascade of node `i` over the first `n` rules, in source order: each
/// declaration of a rule that selects the node wins over an earlier one of
/// the same kind unless that one is more specific.
pub open spec fn cascade_rules<C>(
    nodes: Seq<NodeData<C>>,
    layout: Seq<Node>,
    rules: Seq<CssRuleBlock>,
    n: int,
    i: int,
    ctx: MatchState,
) -> Seq<(CssProperty, usize)>
    decreases n,
{
    if n <= 0 {
        Seq::empty()
    } else {
        let prev = cascade_rules(nodes, layout, rules, n - 1, i, ctx);
        if rule_selects(nodes, layout, rules[n - 1], i, ctx, false) {
            cascade_rule(
                prev,
                rules[n - 1].declarations@,
                rules[n - 1].specificity,
                rules[n - 1].declarations@.len() as int,
            )
        } else {
            prev
        }
    }
}

/// The declarations that style node `i`, one per kind, in the order the kinds first appeared.
pub open spec fn styled_declarations<C>(
    nodes: Seq<NodeData<C>>,
    layout: Seq<Node>,
    rules: Seq<CssRuleBlock>,
    i: int,
    ctx: MatchState,
) -> Seq<CssProperty> {
    cascade_rules(nodes, layout, rules, rules.len() as int, i, ctx).map_values(
        |e: (CssProperty, usize)| e.0,
    )
}

/// Whether one of the selectors `start..end` is the pseudo-class `p`.
pub open spec fn has_pseudo(sels: Seq<CssPathSelector>, start: int, end: int, p: CssPathPseudoSelector) -> bool {
    exists|k: int| start <= k < end && sels[k] == CssPathSelector::PseudoSelector(p)
}

/// Whether a path ends in a compound with `:active` or, failing that, `:hover`.
pub open spec fn hover_kind(sels: Seq<CssPathSelector>) -> Option<ActiveHover> {
    let st = compound_start(sels, sels.len() as int);
    if has_pseudo(sels, st, sels.len() as int, CssPathPseudoSelector::Active) {
        Some(ActiveHover::Active)
    } else if has_pseudo(sels, st, sels.len() as int, CssPathPseudoSelector::Hover) {
        Some(ActiveHover::Hover)
    } else {
        None
    }
}

/// Whether a rule declares a property that affects layout.
pub open spec fn declares_layout(ds: Seq<CssProperty>) -> bool {
    exists|k: int| 0 <= k < ds.len() && triggers_relayout(ds[k].property_type)
}

/// The hover group of node `i` from the first `n` rules: that of the last
/// rule ending in `:hover` or `:active` that would select the node if it were
/// hovered (and, for `:active`, pressed).
pub open spec fn hover_group_of<C>(
    nodes: Seq<NodeData<C>>,
    layout: Seq<Node>,
    rules: Seq<CssRuleBlock>,
    n: int,
    i: int,
    ctx: MatchState,
) -> Option<HoverGroup>
    decreases n,
{
    if n <= 0 {
        None
    } else {
        let r = rules[n - 1];
        if hover_kind(r.path.selectors@) is Some && rule_selects(nodes, layout, r, i, ctx, true) {
            Some(
                HoverGroup {
                    affects_layout: declares_layout(r.declarations@),
                    active_or_hover: hover_kind(r.path.selectors@)->0,
                },
            )
        } else {
            hover_group_of(nodes, layout, rules, n - 1, i, ctx)
        }
    }
}

/// `(node, group)` for each of the first `n` nodes that has a hover group.
pub open spec fn selected_hover_entries<C>(
    nodes: Seq<NodeData<C>>,
    layout: Seq<Node>,
    rules: Seq<CssRuleBlock>,
    n: int,
    ctx: MatchState,
) -> Seq<(NodeId, HoverGroup)>
    decreases n,
{
    if n <= 0 {
        Seq::empty()
    } else {
        let g = hover_group_of(nodes, layout, rules, rules.len() as int, n - 1, ctx);
        selected_hover_entries(nodes, layout, rules, n - 1, ctx) + entry_if(
            g is Some,
            (node_at(n - 1), g->0),
        )
    }
}

fn find_type(decls: &Vec<(CssProperty, usize)>, t: CssPropertyType) -> (r: Option<usize>)
    ensures
        r matches Some(k) ==> type_index(decls@, t) == Some(k as int) && k < decls@.len(),
        r is None ==> type_index(decls@, t) is None,
{
    let mut i: usize = decls.len();
    assert(decls@.subrange(0, i as int) =~= decls@);
    while i > 0
        invariant
            i <= decls@.len(),
            type_index(decls@, t) == type_index(decls@.subrange(0, i as int), t),
        decreases i,
    {
        assert(decls@.subrange(0, i as int).drop_last() =~= decls@.subrange(0, i - 1));
        if decls[i - 1].0.property_type == t {
            return Some(i - 1);
        }
        i = i - 1;
    }
    None
}

fn apply_rule(decls: &mut Vec<(CssProperty, usize)>, rule: &CssRuleBlock)
    ensures
        final(decls)@ == cascade_rule(
            old(decls)@,
            rule.declarations@,
            rule.specificity,
            rule.declarations@.len() as int,
        ),
{
    let mut m: usize = 0;
    while m < rule.declarations.len()
        invariant
            m <= rule.declarations@.len(),
            decls@ == cascade_rule(old(decls)@, rule.declarations@, rule.specificity, m as int),
        decreases rule.declarations@.len() - m,
    {
        let d = rule.declarations[m].duplicate();
        match find_type(decls, d.property_type) {
            Some(k) => {
                if decls[k].1 <= rule.specificity {
                    decls.set(k, (d, rule.specificity));
                }
            },
            None => {
                decls.push((d, rule.specificity));
            },
        }
        m = m + 1;
    }
}

/// The declarations that style node `i` (see `styled_declarations`).
pub fn cascade_node<C>(dom: &Dom<C>, rules: &Vec<CssRuleBlock>, i: usize, ctx: &MatchContext) -> (r:
    Vec<CssProperty>)
    requires
        dom.wf(),
    ensures
        r@ == styled_declarations(dom.arena.node_data@, dom.arena.node_layout@, rules@, i as int, ctx@),
{
    let ghost nodes = dom.arena.node_data@;
    let ghost layout = dom.arena.node_layout@;
    let mut decls: Vec<(CssProperty, usize)> = Vec::new();
    let mut n: usize = 0;
    while n < rules.len()
        invariant
            dom.wf(),
            nodes == dom.arena.node_data@,
            layout == dom.arena.node_layout@,
            n <= rules@.len(),
            decls@ == cascade_rules(nodes, layout, rules@, n as int, i as int, ctx@),
        decreases rules@.len() - n,
    {
        let sels = &rules[n].path.selectors;
        if path_matches_exec(dom, sels, sels.len(), i, ctx, false) {
            apply_rule(&mut decls, &rules[n]);
        }
        n = n + 1;
    }
    let mut out: Vec<CssProperty> = Vec::new();
    let mut k: usize = 0;
    while k < decls.len()
        invariant
            k <= decls@.len(),
            out@ == decls@.subrange(0, k as int).map_values(|e: (CssProperty, usize)| e.0),
        decreases decls@.len() - k,
    {
        out.push(decls[k].0.duplicate());
        k = k + 1;
        assert(out@ =~= decls@.subrange(0, k as int).map_values(|e: (CssProperty, usize)| e.0));
    }
    assert(decls@.subrange(0, decls@.len() as int) =~= decls@);
    out
}

fn has_pseudo_exec(sels: &Vec<CssPathSelector>, start: usize, end: usize, p: CssPathPseudoSelector) -> (r: bool)
    requires
        start <= end <= sels@.len(),
    ensures
        r == has_pseudo(sels@, start as int, end as int, p),
{
    let mut k: usize = start;
    while k < end
        invariant
            start <= k <= end <= sels@.len(),
            forall|j: int| start <= j < k ==> sels@[j] != CssPathSelector::PseudoSelector(p),
        decreases end - k,
    {
        match &sels[k] {
            CssPathSelector::PseudoSelector(q) => {
                if *q == p {
                    return true;
                }
            },
            _ => {},
        }
        k = k + 1;
    }
    false
}

fn hover_kind_exec(sels: &Vec<CssPathSelector>) -> (r: Option<ActiveHover>)
    ensures
        r == hover_kind(sels@),
{
    let st = compound_start_exec(sels, sels.len());
    if has_pseudo_exec(sels, st, sels.len(), CssPathPseudoSelector::Active) {
        Some(ActiveHover::Active)
    } else if has_pseudo_exec(sels, st, sels.len(), CssPathPseudoSelector::Hover) {
        Some(ActiveHover::Hover)
    } else {
        None
    }
}

fn declares_layout_exec(ds: &Vec<CssProperty>) -> (r: bool)
    ensures
        r == declares_layout(ds@),
{
    let mut k: usize = 0;
    while k < ds.len()
        invariant
            k <= ds@.len(),
            forall|j: int| 0 <= j < k ==> !triggers_relayout(ds@[j].property_type),
        decreases ds@.len() - k,
    {
        if ds[k].property_type.can_trigger_relayout() {
            return true;
        }
        k = k + 1;
    }
    false
}

/// The hover group of node `i` (see `hover_group_of`).
pub fn hover_group_exec<C>(dom: &Dom<C>, rules: &Vec<CssRuleBlock>, i: usize, ctx: &MatchContext) -> (r:
    Option<HoverGroup>)
    requires
        dom.wf(),
    ensures
        r == hover_group_of(
            dom.arena.node_data@,
            dom.arena.node_layout@,
            rules@,
            rules@.len() as int,
            i as int,
            ctx@,
        ),
{
    let mut n: usize = rules.len();
    while n > 0
        invariant
            dom.wf(),
            n <= rules@.len(),
            hover_group_of(dom.arena.node_data@, dom.arena.node_layout@, rules@, rules@.len() as int, i as int, ctx@)
                == hover_group_of(dom.arena.node_data@, dom.arena.node_layout@, rules@, n as int, i as int, ctx@),
        decreases n,
    {
        let r = &rules[n - 1];
        match hover_kind_exec(&r.path.selectors) {
            Some(kind) => {
                if path_matches_exec(dom, &r.path.selectors, r.path.selectors.len(), i, ctx, true) {
                    return Some(
                        HoverGroup {
                            affects_layout: declares_layout_exec(&r.declarations),
                            active_or_hover: kind,
                        },
                    );
                }
            },
            None => {},
        }
        n = n - 1;
    }
    None
}

} // verus!
