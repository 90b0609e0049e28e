use vstd::prelude::*;
use crate::css::CssProperty;
use crate::dom::{
    DefaultCallbackId, Dom, DomId, EventFilter, FocusEventFilter, HoverEventFilter, NodeData,
    NodeId, NotEventFilter, ParentDom, TabIndex, TagId, WindowEventFilter,
};
use crate::ids::IdCounter;

verus! {

/// In order to support `:hover`, an element must have a tag, otherwise it
/// is disregarded in the hit-testing.
#[derive(Debug, Clone, Copy, PartialEq, Eq, Structural, PartialOrd, Ord)]
pub struct HoverGroup {
    /// Whether any property in the hover group will trigger a re-layout.
    pub affects_layout: bool,
    /// Whether this path ends with `:active` or with `:hover`
    pub active_or_hover: ActiveHover,
}

/// Sets whether an element needs to be selected for `:active` or for `:hover`
#[derive(Debug, Clone, Copy, PartialEq, Eq, Structural, PartialOrd, Ord, Hash)]
pub enum ActiveHover {
    Active,
    Hover,
}

/// The position of key `k` in `s`: its last entry.
pub open spec fn assoc_index<K, X>(s: Seq<(K, X)>, k: K) -> Option<int>
    decreases s.len(),
{
    if s.len() == 0 {
        None
    } else if s.last().0 == k {
        Some(s.len() - 1)
    } else {
        assoc_index(s.drop_last(), k)
    }
}

/// `s` with key `k` set to `x`: its entry is replaced in place, or `(k, x)` is appended.
pub open spec fn assoc_insert<K, X>(s: Seq<(K, X)>, k: K, x: X) -> Seq<(K, X)> {
    match assoc_index(s, k) {
        Some(i) => s.update(i, (k, x)),
        None => s.push((k, x)),
    }
}

/// Whether no key occurs twice.
pub open spec fn unique_keys<K, X>(s: Seq<(K, X)>) -> bool {
    forall|i: int, j: int| 0 <= i < j < s.len() ==> s[i].0 != s[j].0
}

proof fn lemma_assoc_index<K, X>(s: Seq<(K, X)>, k: K)
    ensures
        assoc_index(s, k) matches Some(i) ==> 0 <= i < s.len() && s[i].0 == k,
        assoc_index(s, k) is None ==> forall|i: int| 0 <= i < s.len() ==> s[i].0 != k,
    decreases s.len(),
{
    if s.len() > 0 && s.last().0 != k {
        lemma_assoc_index(s.drop_last(), k);
        if assoc_index(s, k) is None {
            assert forall|i: int| 0 <= i < s.len() implies s[i].0 != k by {
                if i < s.len() - 1 {
                    assert(s[i] == s.drop_last()[i]);
                }
            }
        }
    }
}

/// Setting a key keeps keys unique.
pub proof fn lemma_assoc_insert_unique<K, X>(s: Seq<(K, X)>, k: K, x: X)
    requires
        unique_keys(s),
    ensures
        unique_keys(assoc_insert(s, k, x)),
{
    lemma_assoc_index(s, k);
}

/// The filter lists of a node are maps: no filter occurs twice.
pub proof fn lemma_entries_unique<X>(s: Seq<(EventFilter, X)>)
    ensures
        unique_keys(hover_entries(s)),
        unique_keys(focus_entries(s)),
        unique_keys(not_entries(s)),
        unique_keys(window_entries(s)),
    decreases s.len(),
{
    if s.len() > 0 {
        lemma_entries_unique(s.drop_last());
        let x = s.last().1;
        match s.last().0 {
            EventFilter::Hover(f) => lemma_assoc_insert_unique(hover_entries(s.drop_last()), f, x),
            EventFilter::Focus(f) => lemma_assoc_insert_unique(focus_entries(s.drop_last()), f, x),
            EventFilter::Not(f) => lemma_assoc_insert_unique(not_entries(s.drop_last()), f, x),
            EventFilter::Window(f) => lemma_assoc_insert_unique(window_entries(s.drop_last()), f, x),
        }
    }
}

/// The hover entries of a list of event subscriptions, as a map in order of
/// first appearance: a repeated filter keeps its place and takes the later value.
pub open spec fn hover_entries<X>(s: Seq<(EventFilter, X)>) -> Seq<(HoverEventFilter, X)>
    decreases s.len(),
{
    if s.len() == 0 {
        Seq::empty()
    } else {
        let prev = hover_entries(s.drop_last());
        match s.last().0 {
            EventFilter::Hover(f) => assoc_insert(prev, f, s.last().1),
            _ => prev,
        }
    }
}

/// The focus entries of a list of event subscriptions, as a map (see `hover_entries`).
pub open spec fn focus_entries<X>(s: Seq<(EventFilter, X)>) -> Seq<(FocusEventFilter, X)>
    decreases s.len(),
{
    if s.len() == 0 {
        Seq::empty()
    } else {
        let prev = focus_entries(s.drop_last());
        match s.last().0 {
            EventFilter::Focus(f) => assoc_insert(prev, f, s.last().1),
            _ => prev,
        }
    }
}

/// The not-event entries of a list of event subscriptions, as a map (see `hover_entries`).
pub open spec fn not_entries<X>(s: Seq<(EventFilter, X)>) -> Seq<(NotEventFilter, X)>
    decreases s.len(),
{
    if s.len() == 0 {
        Seq::empty()
    } else {
        let prev = not_entries(s.drop_last());
        match s.last().0 {
            EventFilter::Not(f) => assoc_insert(prev, f, s.last().1),
            _ => prev,
        }
    }
}

/// The window entries of a list of event subscriptions, as a map (see `hover_entries`).
pub open spec fn window_entries<X>(s: Seq<(EventFilter, X)>) -> Seq<(WindowEventFilter, X)>
    decreases s.len(),
{
    if s.len() == 0 {
        Seq::empty()
    } else {
        let prev = window_entries(s.drop_last());
        match s.last().0 {
            EventFilter::Window(f) => assoc_insert(prev, f, s.last().1),
            _ => prev,
        }
    }
}

fn put_hover<X: Copy>(r: &mut Vec<(HoverEventFilter, X)>, f: HoverEventFilter, x: X)
    ensures
        final(r)@ == assoc_insert(old(r)@, f, x),
{
    let mut k: usize = r.len();
    assert(old(r)@.subrange(0, k as int) =~= old(r)@);
    while k > 0
        invariant
            r@ == old(r)@,
            k <= r@.len(),
            assoc_index(r@, f) == assoc_index(r@.subrange(0, k as int), f),
        decreases k,
    {
        assert(r@.subrange(0, k as int).drop_last() =~= r@.subrange(0, k - 1));
        if r[k - 1].0 == f {
            r.set(k - 1, (f, x));
            return;
        }
        k = k - 1;
    }
    r.push((f, x));
}

fn put_focus<X: Copy>(r: &mut Vec<(FocusEventFilter, X)>, f: FocusEventFilter, x: X)
    ensures
        final(r)@ == assoc_insert(old(r)@, f, x),
{
    let mut k: usize = r.len();
    assert(old(r)@.subrange(0, k as int) =~= old(r)@);
    while k > 0
        invariant
            r@ == old(r)@,
            k <= r@.len(),
            assoc_index(r@, f) == assoc_index(r@.subrange(0, k as int), f),
        decreases k,
    {
        assert(r@.subrange(0, k as int).drop_last() =~= r@.subrange(0, k - 1));
        if r[k - 1].0 == f {
            r.set(k - 1, (f, x));
            return;
        }
        k = k - 1;
    }
    r.push((f, x));
}

fn put_not<X: Copy>(r: &mut Vec<(NotEventFilter, X)>, f: NotEventFilter, x: X)
    ensures
        final(r)@ == assoc_insert(old(r)@, f, x),
{
    let mut k: usize = r.len();
    assert(old(r)@.subrange(0, k as int) =~= old(r)@);
    while k > 0
        invariant
            r@ == old(r)@,
            k <= r@.len(),
            assoc_index(r@, f) == assoc_index(r@.subrange(0, k as int), f),
        decreases k,
    {
        assert(r@.subrange(0, k as int).drop_last() =~= r@.subrange(0, k - 1));
        if r[k - 1].0 == f {
            r.set(k - 1, (f, x));
            return;
        }
        k = k - 1;
    }
    r.push((f, x));
}

fn put_window<X: Copy>(r: &mut Vec<(WindowEventFilter, X)>, f: WindowEventFilter, x: X)
    ensures
        final(r)@ == assoc_insert(old(r)@, f, x),
{
    let mut k: usize = r.len();
    assert(old(r)@.subrange(0, k as int) =~= old(r)@);
    while k > 0
        invariant
            r@ == old(r)@,
            k <= r@.len(),
            assoc_index(r@, f) == assoc_index(r@.subrange(0, k as int), f),
        decreases k,
    {
        assert(r@.subrange(0, k as int).drop_last() =~= r@.subrange(0, k - 1));
        if r[k - 1].0 == f {
            r.set(k - 1, (f, x));
            return;
        }
        k = k - 1;
    }
    r.push((f, x));
}

fn filter_hover<X: Copy>(s: &Vec<(EventFilter, X)>) -> (r: Vec<(HoverEventFilter, X)>)
    ensures
        r@ == hover_entries(s@),
{
    let mut r: Vec<(HoverEventFilter, X)> = Vec::new();
    let mut i: usize = 0;
    while i < s.len()
        invariant
            i <= s@.len(),
            r@ == hover_entries(s@.subrange(0, i as int)),
        decreases s@.len() - i,
    {
        assert(s@.subrange(0, i + 1).drop_last() =~= s@.subrange(0, i as int));
        match s[i].0 {
            EventFilter::Hover(f) => put_hover(&mut r, f, s[i].1),
            _ => {},
        }
        i = i + 1;
    }
    assert(s@.subrange(0, s@.len() as int) =~= s@);
    r
}

fn filter_focus<X: Copy>(s: &Vec<(EventFilter, X)>) -> (r: Vec<(FocusEventFilter, X)>)
    ensures
        r@ == focus_entries(s@),
{
    let mut r: Vec<(FocusEventFilter, X)> = Vec::new();
    let mut i: usize = 0;
    while i < s.len()
        invariant
            i <= s@.len(),
            r@ == focus_entries(s@.subrange(0, i as int)),
        decreases s@.len() - i,
    {
        assert(s@.subrange(0, i + 1).drop_last() =~= s@.subrange(0, i as int));
        match s[i].0 {
            EventFilter::Focus(f) => put_focus(&mut r, f, s[i].1),
            _ => {},
        }
        i = i + 1;
    }
    assert(s@.subrange(0, s@.len() as int) =~= s@);
    r
}

fn filter_not<X: Copy>(s: &Vec<(EventFilter, X)>) -> (r: Vec<(NotEventFilter, X)>)
    ensures
        r@ == not_entries(s@),
{
    let mut r: Vec<(NotEventFilter, X)> = Vec::new();
    let mut i: usize = 0;
    while i < s.len()
        invariant
            i <= s@.len(),
            r@ == not_entries(s@.subrange(0, i as int)),
        decreases s@.len() - i,
    {
        assert(s@.subrange(0, i + 1).drop_last() =~= s@.subrange(0, i as int));
        match s[i].0 {
            EventFilter::Not(f) => put_not(&mut r, f, s[i].1),
            _ => {},
        }
        i = i + 1;
    }
    assert(s@.subrange(0, s@.len() as int) =~= s@);
    r
}

fn filter_window<X: Copy>(s: &Vec<(EventFilter, X)>) -> (r: Vec<(WindowEventFilter, X)>)
    ensures
        r@ == window_entries(s@),
{
    let mut r: Vec<(WindowEventFilter, X)> = Vec::new();
    let mut i: usize = 0;
    while i < s.len()
        invariant
            i <= s@.len(),
            r@ == window_entries(s@.subrange(0, i as int)),
        decreases s@.len() - i,
    {
        assert(s@.subrange(0, i + 1).drop_last() =~= s@.subrange(0, i as int));
        match s[i].0 {
            EventFilter::Window(f) => put_window(&mut r, f, s[i].1),
            _ => {},
        }
        i = i + 1;
    }
    assert(s@.subrange(0, s@.len() as int) =~= s@);
    r
}

/// Whether a node has a hover, focus or not-event subscription, among its
/// callbacks or its default callbacks. Window subscriptions do not count.
pub open spec fn has_hit_tested_callbacks<C>(d: NodeData<C>) -> bool {
    ||| hover_entries(d.callbacks@).len() > 0
    ||| focus_entries(d.callbacks@).len() > 0
    ||| not_entries(d.callbacks@).len() > 0
    ||| hover_entries(d.default_callback_ids@).len() > 0
    ||| focus_entries(d.default_callback_ids@).len() > 0
    ||| not_entries(d.default_callback_ids@).len() > 0
}

/// The tab index a node ends up with: its explicit one, else `Auto` when it
/// has a focus subscription, else none.
pub open spec fn effective_tab_index<C>(d: NodeData<C>) -> Option<TabIndex> {
    if d.tab_index is Some {
        d.tab_index
    } else if focus_entries(d.callbacks@).len() > 0 || focus_entries(d.default_callback_ids@).len()
        > 0 {
        Some(TabIndex::Auto)
    } else {
        None
    }
}

/// Whether a node takes part in hit-testing and so gets a tag.
pub open spec fn needs_tag<C>(d: NodeData<C>) -> bool {
    has_hit_tested_callbacks(d) || d.is_draggable || effective_tab_index(d) is Some
}

/// How many of the first `n` nodes get a tag; also the tag of node `n`, if it gets one.
pub open spec fn tags_before<C>(nodes: Seq<NodeData<C>>, n: int) -> nat
    decreases n,
{
    if n <= 0 {
        0
    } else {
        tags_before(nodes, n - 1) + if needs_tag(nodes[n - 1]) {
            1nat
        } else {
            0nat
        }
    }
}

/// The entry `e` if `cond` holds, else nothing.
pub open spec fn entry_if<T>(cond: bool, e: T) -> Seq<T> {
    if cond {
        seq![e]
    } else {
        Seq::empty()
    }
}

pub open spec fn node_at(i: int) -> NodeId {
    NodeId { index: i as usize }
}

/// The tag of node `i`.
pub open spec fn tag_of<C>(nodes: Seq<NodeData<C>>, i: int) -> TagId {
    tags_before(nodes, i) as usize
}

/// `(node, tag)` for every tagged node among the first `n`, in node order.
pub open spec fn node_tag_entries<C>(nodes: Seq<NodeData<C>>, n: int) -> Seq<(NodeId, TagId)>
    decreases n,
{
    if n <= 0 {
        Seq::empty()
    } else {
        node_tag_entries(nodes, n - 1) + entry_if(
            needs_tag(nodes[n - 1]),
            (node_at(n - 1), tag_of(nodes, n - 1)),
        )
    }
}

/// `(tag, node)` for every tagged node among the first `n`, in node order.
pub open spec fn tag_node_entries<C>(nodes: Seq<NodeData<C>>, n: int) -> Seq<(TagId, NodeId)>
    decreases n,
{
    if n <= 0 {
        Seq::empty()
    } else {
        tag_node_entries(nodes, n - 1) + entry_if(
            needs_tag(nodes[n - 1]),
            (tag_of(nodes, n - 1), node_at(n - 1)),
        )
    }
}

/// `(tag, node)` for every draggable node among the first `n`.
pub open spec fn draggable_entries<C>(nodes: Seq<NodeData<C>>, n: int) -> Seq<(TagId, NodeId)>
    decreases n,
{
    if n <= 0 {
        Seq::empty()
    } else {
        draggable_entries(nodes, n - 1) + entry_if(
            nodes[n - 1].is_draggable,
            (tag_of(nodes, n - 1), node_at(n - 1)),
        )
    }
}

/// `(tag, (node, tab index))` for every focusable node among the first `n`.
pub open spec fn tab_index_entries<C>(nodes: Seq<NodeData<C>>, n: int) -> Seq<
    (TagId, (NodeId, TabIndex)),
>
    decreases n,
{
    if n <= 0 {
        Seq::empty()
    } else {
        tab_index_entries(nodes, n - 1) + entry_if(
            effective_tab_index(nodes[n - 1]) is Some,
            (tag_of(nodes, n - 1), (node_at(n - 1), effective_tab_index(nodes[n - 1])->0)),
        )
    }
}

/// `(node, pick(node))` for every node among the first `n` for which `pick` is not empty.
pub open spec fn node_table<C, T>(
    nodes: Seq<NodeData<C>>,
    n: int,
    pick: spec_fn(NodeData<C>) -> Seq<T>,
) -> Seq<(NodeId, Seq<T>)>
    decreases n,
{
    if n <= 0 {
        Seq::empty()
    } else {
        node_table(nodes, n - 1, pick) + entry_if(
            pick(nodes[n - 1]).len() > 0,
            (node_at(n - 1), pick(nodes[n - 1])),
        )
    }
}

/// A table of vectors, seen as a table of sequences.
pub open spec fn table_view<T>(v: Seq<(NodeId, Vec<T>)>) -> Seq<(NodeId, Seq<T>)> {
    v.map_values(|e: (NodeId, Vec<T>)| (e.0, e.1@))
}

pub open spec fn hover_table<C>(nodes: Seq<NodeData<C>>, n: int) -> Seq<
    (NodeId, Seq<(HoverEventFilter, C)>),
> {
    node_table(nodes, n, |d: NodeData<C>| hover_entries(d.callbacks@))
}

pub open spec fn hover_default_table<C>(nodes: Seq<NodeData<C>>, n: int) -> Seq<
    (NodeId, Seq<(HoverEventFilter, DefaultCallbackId)>),
> {
    node_table(nodes, n, |d: NodeData<C>| hover_entries(d.default_callback_ids@))
}

pub open spec fn focus_table<C>(nodes: Seq<NodeData<C>>, n: int) -> Seq<
    (NodeId, Seq<(FocusEventFilter, C)>),
> {
    node_table(nodes, n, |d: NodeData<C>| focus_entries(d.callbacks@))
}

pub open spec fn focus_default_table<C>(nodes: Seq<NodeData<C>>, n: int) -> Seq<
    (NodeId, Seq<(FocusEventFilter, DefaultCallbackId)>),
> {
    node_table(nodes, n, |d: NodeData<C>| focus_entries(d.default_callback_ids@))
}

pub open spec fn not_table<C>(nodes: Seq<NodeData<C>>, n: int) -> Seq<
    (NodeId, Seq<(NotEventFilter, C)>),
> {
    node_table(nodes, n, |d: NodeData<C>| not_entries(d.callbacks@))
}

pub open spec fn not_default_table<C>(nodes: Seq<NodeData<C>>, n: int) -> Seq<
    (NodeId, Seq<(NotEventFilter, DefaultCallbackId)>),
> {
    node_table(nodes, n, |d: NodeData<C>| not_entries(d.default_callback_ids@))
}

pub open spec fn window_table<C>(nodes: Seq<NodeData<C>>, n: int) -> Seq<
    (NodeId, Seq<(WindowEventFilter, C)>),
> {
    node_table(nodes, n, |d: NodeData<C>| window_entries(d.callbacks@))
}

pub open spec fn window_default_table<C>(nodes: Seq<NodeData<C>>, n: int) -> Seq<
    (NodeId, Seq<(WindowEventFilter, DefaultCallbackId)>),
> {
    node_table(nodes, n, |d: NodeData<C>| window_entries(d.default_callback_ids@))
}

pub open spec fn override_table<C>(nodes: Seq<NodeData<C>>, n: int) -> Seq<
    (NodeId, Seq<(String, CssProperty)>),
> {
    node_table(nodes, n, |d: NodeData<C>| d.dynamic_css_overrides@)
}

/// The hit-testing state of one tree for one frame: the tree, its tags, and
/// its event subscriptions sorted by family.
#[derive(Debug)]
pub struct UiState<C> {
    /// Unique identifier for the tree
    pub dom_id: DomId,
    /// The tree, as the layout function returned it
    pub dom: Dom<C>,
    /// The style overrides of each node that has some
    pub dynamic_css_overrides: Vec<(NodeId, Vec<(String, CssProperty)>)>,
    /// Tags of the nodes that a `:hover` or `:active` selector picked
    pub tag_ids_to_hover_active_states: Vec<(TagId, (NodeId, HoverGroup))>,
    /// Tags -> focusable nodes
    pub tab_index_tags: Vec<(TagId, (NodeId, TabIndex))>,
    /// Tags -> draggable nodes
    pub draggable_tags: Vec<(TagId, NodeId)>,
    /// Tags -> nodes
    pub tag_ids_to_node_ids: Vec<(TagId, NodeId)>,
    /// Nodes -> tags, the reverse of `tag_ids_to_node_ids`
    pub node_ids_to_tag_ids: Vec<(NodeId, TagId)>,
    pub hover_callbacks: Vec<(NodeId, Vec<(HoverEventFilter, C)>)>,
    pub hover_default_callbacks: Vec<(NodeId, Vec<(HoverEventFilter, DefaultCallbackId)>)>,
    pub focus_callbacks: Vec<(NodeId, Vec<(FocusEventFilter, C)>)>,
    pub focus_default_callbacks: Vec<(NodeId, Vec<(FocusEventFilter, DefaultCallbackId)>)>,
    pub not_callbacks: Vec<(NodeId, Vec<(NotEventFilter, C)>)>,
    pub not_default_callbacks: Vec<(NodeId, Vec<(NotEventFilter, DefaultCallbackId)>)>,
    pub window_callbacks: Vec<(NodeId, Vec<(WindowEventFilter, C)>)>,
    pub window_default_callbacks: Vec<(NodeId, Vec<(WindowEventFilter, DefaultCallbackId)>)>,
    /// The tag the next tagged node of this frame gets
    pub next_tag_id: TagId,
}

impl<C> UiState<C> {
    /// Whether the state is exactly what tag assignment computes for `nodes`:
    /// every table is a function of the nodes alone.
    pub open spec fn assigned_from(&self, nodes: Seq<NodeData<C>>) -> bool {
        let n = nodes.len() as int;
        &&& self.node_ids_to_tag_ids@ == node_tag_entries(nodes, n)
        &&& self.tag_ids_to_node_ids@ == tag_node_entries(nodes, n)
        &&& self.draggable_tags@ == draggable_entries(nodes, n)
        &&& self.tab_index_tags@ == tab_index_entries(nodes, n)
        &&& self.tag_ids_to_hover_active_states@.len() == 0
        &&& table_view(self.hover_callbacks@) == hover_table(nodes, n)
        &&& table_view(self.hover_default_callbacks@) == hover_default_table(nodes, n)
        &&& table_view(self.focus_callbacks@) == focus_table(nodes, n)
        &&& table_view(self.focus_default_callbacks@) == focus_default_table(nodes, n)
        &&& table_view(self.not_callbacks@) == not_table(nodes, n)
        &&& table_view(self.not_default_callbacks@) == not_default_table(nodes, n)
        &&& table_view(self.window_callbacks@) == window_table(nodes, n)
        &&& table_view(self.window_default_callbacks@) == window_default_table(nodes, n)
        &&& table_view(self.dynamic_css_overrides@) == override_table(nodes, n)
        &&& self.next_tag_id == tags_before(nodes, n)
    }
}

pub(crate) fn duplicate_overrides(v: &Vec<(String, CssProperty)>) -> (r: Vec<(String, CssProperty)>)
    ensures
        r@ == v@,
{
    let mut r: Vec<(String, CssProperty)> = Vec::new();
    let mut i: usize = 0;
    while i < v.len()
        invariant
            i <= v@.len(),
            r@ == v@.subrange(0, i as int),
        decreases v@.len() - i,
    {
        let name = v[i].0.clone();
        let prop = v[i].1.duplicate();
        r.push((name, prop));
        i = i + 1;
        assert(r@ =~= v@.subrange(0, i as int));
    }
    assert(v@.subrange(0, v@.len() as int) =~= v@);
    r
}

pub(crate) proof fn lemma_table_push<T>(v: Seq<(NodeId, Vec<T>)>, e: (NodeId, Vec<T>))
    ensures
        table_view(v.push(e)) == table_view(v) + seq![(e.0, e.1@)],
{
    assert(table_view(v.push(e)) =~= table_view(v) + seq![(e.0, e.1@)]);
}

/// Appends `(node, entries)` to a table when `entries` is not empty.
fn push_if_any<T>(table: &mut Vec<(NodeId, Vec<T>)>, node: NodeId, entries: Vec<T>)
    ensures
        table_view(final(table)@) == table_view(old(table)@) + entry_if(
            entries@.len() > 0,
            (node, entries@),
        ),
{
    proof {
        lemma_table_push(old(table)@, (node, entries));
    }
    if entries.len() > 0 {
        table.push((node, entries));
    } else {
        assert(table_view(table@) =~= table_view(old(table)@) + Seq::<(NodeId, Seq<T>)>::empty());
    }
}

/// Builds the hit-testing state of a tree: assigns a tag, counting from zero,
/// to every node that has a hover, focus or not-event subscription, is
/// draggable or is focusable, in node order; a node gets at most one tag,
/// shared by all tables. Window subscriptions are recorded without a tag.
/// The tree gets a fresh `DomId` from `dom_ids`.
pub fn ui_state_from_dom<C: Copy>(
    dom: Dom<C>,
    parent_dom_node_id: Option<(DomId, NodeId)>,
    dom_ids: &mut IdCounter,
) -> (r: UiState<C>)
    requires
        dom.wf(),
        old(dom_ids).next < usize::MAX,
    ensures
        r.dom == dom,
        r.dom_id.id == old(dom_ids).next,
        r.dom_id.parent == (match parent_dom_node_id {
            Some((d, n)) => Some(ParentDom { dom_id: d.id, node_id: n }),
            None => None,
        }),
        final(dom_ids).next == old(dom_ids).next + 1,
        r.assigned_from(dom.arena.node_data@),
{
    let ghost nodes = dom.arena.node_data@;
    let mut tab_index_tags: Vec<(TagId, (NodeId, TabIndex))> = Vec::new();
    let mut draggable_tags: Vec<(TagId, NodeId)> = Vec::new();
    let mut tag_ids_to_node_ids: Vec<(TagId, NodeId)> = Vec::new();
    let mut node_ids_to_tag_ids: Vec<(NodeId, TagId)> = Vec::new();
    let mut dynamic_css_overrides: Vec<(NodeId, Vec<(String, CssProperty)>)> = Vec::new();
    let mut hover_callbacks: Vec<(NodeId, Vec<(HoverEventFilter, C)>)> = Vec::new();
    let mut hover_default_callbacks: Vec<(NodeId, Vec<(HoverEventFilter, DefaultCallbackId)>)> =
        Vec::new();
    let mut focus_callbacks: Vec<(NodeId, Vec<(FocusEventFilter, C)>)> = Vec::new();
    let mut focus_default_callbacks: Vec<(NodeId, Vec<(FocusEventFilter, DefaultCallbackId)>)> =
        Vec::new();
    let mut not_callbacks: Vec<(NodeId, Vec<(NotEventFilter, C)>)> = Vec::new();
    let mut not_default_callbacks: Vec<(NodeId, Vec<(NotEventFilter, DefaultCallbackId)>)> =
        Vec::new();
    let mut window_callbacks: Vec<(NodeId, Vec<(WindowEventFilter, C)>)> = Vec::new();
    let mut window_default_callbacks: Vec<
        (NodeId, Vec<(WindowEventFilter, DefaultCallbackId)>),
    > = Vec::new();
    // tags count from zero in every frame
    let mut next_tag: TagId = 0;
    let len = dom.arena.node_data.len();
    let mut i: usize = 0;
    while i < len
        invariant
            nodes == dom.arena.node_data@,
            len == nodes.len(),
            i <= len,
            next_tag == tags_before(nodes, i as int),
            next_tag <= i,
            node_ids_to_tag_ids@ == node_tag_entries(nodes, i as int),
            tag_ids_to_node_ids@ == tag_node_entries(nodes, i as int),
            draggable_tags@ == draggable_entries(nodes, i as int),
            tab_index_tags@ == tab_index_entries(nodes, i as int),
            table_view(hover_callbacks@) == hover_table(nodes, i as int),
            table_view(hover_default_callbacks@) == hover_default_table(nodes, i as int),
            table_view(focus_callbacks@) == focus_table(nodes, i as int),
            table_view(focus_default_callbacks@) == focus_default_table(nodes, i as int),
            table_view(not_callbacks@) == not_table(nodes, i as int),
            table_view(not_default_callbacks@) == not_default_table(nodes, i as int),
            table_view(window_callbacks@) == window_table(nodes, i as int),
            table_view(window_default_callbacks@) == window_default_table(nodes, i as int),
            table_view(dynamic_css_overrides@) == override_table(nodes, i as int),
        decreases len - i,
    {
        let node = &dom.arena.node_data[i];
        let node_id = NodeId { index: i };
        let hover = filter_hover(&node.callbacks);
        let focus = filter_focus(&node.callbacks);
        let not = filter_not(&node.callbacks);
        let window = filter_window(&node.callbacks);
        let hover_default = filter_hover(&node.default_callback_ids);
        let focus_default = filter_focus(&node.default_callback_ids);
        let not_default = filter_not(&node.default_callback_ids);
        let window_default = filter_window(&node.default_callback_ids);

        // window events are not hit-tested, so they do not call for a tag
        let hit_tested = hover.len() > 0 || focus.len() > 0 || not.len() > 0
            || hover_default.len() > 0 || focus_default.len() > 0 || not_default.len() > 0;
        // a focus subscription without an explicit tab index makes the node focusable
        let tab_index = match node.tab_index {
            Some(t) => Some(t),
            None => if focus.len() > 0 || focus_default.len() > 0 {
                Some(TabIndex::Auto)
            } else {
                None
            },
        };
        let needs = hit_tested || node.is_draggable || tab_index.is_some();
        assert(needs == needs_tag(nodes[i as int]));
        assert(tab_index == effective_tab_index(nodes[i as int]));

        let ghost prev_n2t = node_ids_to_tag_ids@;
        let ghost prev_t2n = tag_ids_to_node_ids@;
        let ghost prev_drag = draggable_tags@;
        let ghost prev_tab = tab_index_tags@;
        let tag = next_tag;
        if needs {
            node_ids_to_tag_ids.push((node_id, tag));
            tag_ids_to_node_ids.push((tag, node_id));
            next_tag = next_tag + 1;
        }
        if node.is_draggable {
            draggable_tags.push((tag, node_id));
        }
        match tab_index {
            Some(t) => tab_index_tags.push((tag, (node_id, t))),
            None => {},
        }
        proof {
            let e1 = entry_if(needs, (node_id, tag));
            assert(node_ids_to_tag_ids@ =~= prev_n2t + e1);
            assert(tag_ids_to_node_ids@ =~= prev_t2n + entry_if(needs, (tag, node_id)));
            assert(draggable_tags@ =~= prev_drag + entry_if(
                nodes[i as int].is_draggable,
                (tag, node_id),
            ));
            assert(tab_index_tags@ =~= prev_tab + entry_if(
                effective_tab_index(nodes[i as int]) is Some,
                (tag, (node_id, effective_tab_index(nodes[i as int])->0)),
            ));
        }

        push_if_any(&mut hover_callbacks, node_id, hover);
        push_if_any(&mut focus_callbacks, node_id, focus);
        push_if_any(&mut not_callbacks, node_id, not);
        push_if_any(&mut window_callbacks, node_id, window);
        push_if_any(&mut hover_default_callbacks, node_id, hover_default);
        push_if_any(&mut focus_default_callbacks, node_id, focus_default);
        push_if_any(&mut not_default_callbacks, node_id, not_default);
        push_if_any(&mut window_default_callbacks, node_id, window_default);
        let overrides = duplicate_overrides(&node.dynamic_css_overrides);
        push_if_any(&mut dynamic_css_overrides, node_id, overrides);
        i = i + 1;
    }
    let parent = match parent_dom_node_id {
        Some((d, n)) => Some(ParentDom { dom_id: d.id, node_id: n }),
        None => None,
    };
    let dom_id = DomId { id: dom_ids.allocate(), parent };
    UiState {
        dom_id,
        dom,
        dynamic_css_overrides,
        tag_ids_to_hover_active_states: Vec::new(),
        tab_index_tags,
        draggable_tags,
        tag_ids_to_node_ids,
        node_ids_to_tag_ids,
        hover_callbacks,
        hover_default_callbacks,
        focus_callbacks,
        focus_default_callbacks,
        not_callbacks,
        not_default_callbacks,
        window_callbacks,
        window_default_callbacks,
        next_tag_id: next_tag,
    }
}

/// The tag that `n2t` gives `node`: its last entry for the node.
pub open spec fn lookup_tag(n2t: Seq<(NodeId, TagId)>, node: NodeId) -> Option<TagId>
    decreases n2t.len(),
{
    if n2t.len() == 0 {
        None
    } else if n2t.last().0 == node {
        Some(n2t.last().1)
    } else {
        lookup_tag(n2t.drop_last(), node)
    }
}

/// The position of the last entry with key `t`.
pub open spec fn hover_key_index(hs: Seq<(TagId, (NodeId, HoverGroup))>, t: TagId) -> Option<int>
    decreases hs.len(),
{
    if hs.len() == 0 {
        None
    } else if hs.last().0 == t {
        Some(hs.len() - 1)
    } else {
        hover_key_index(hs.drop_last(), t)
    }
}

/// `hs` with `(t, v)` inserted: the entry with key `t` is replaced, or `(t, v)` is appended.
pub open spec fn hover_insert(
    hs: Seq<(TagId, (NodeId, HoverGroup))>,
    t: TagId,
    v: (NodeId, HoverGroup),
) -> Seq<(TagId, (NodeId, HoverGroup))> {
    match hover_key_index(hs, t) {
        Some(k) => hs.update(k, (t, v)),
        None => hs.push((t, v)),
    }
}

/// The tag tables that the hover pass reads and writes.
pub struct TagTables {
    pub n2t: Seq<(NodeId, TagId)>,
    pub t2n: Seq<(TagId, NodeId)>,
    pub hover: Seq<(TagId, (NodeId, HoverGroup))>,
    pub next: nat,
}

/// One step of the hover pass: the node keeps its tag, or gets the next
/// one, and the tag is recorded with its hover group.
pub open spec fn hover_step(st: TagTables, node: NodeId, group: HoverGroup) -> TagTables {
    match lookup_tag(st.n2t, node) {
        Some(t) => TagTables { hover: hover_insert(st.hover, t, (node, group)), ..st },
        None => TagTables {
            n2t: st.n2t.push((node, st.next as usize)),
            t2n: st.t2n.push((st.next as usize, node)),
            hover: hover_insert(st.hover, st.next as usize, (node, group)),
            next: st.next + 1,
        },
    }
}

/// The hover pass over the first `n` hover nodes.
pub open spec fn hover_pass(st: TagTables, hover_nodes: Seq<(NodeId, HoverGroup)>, n: int) -> TagTables
    decreases n,
{
    if n <= 0 {
        st
    } else {
        let prev = hover_pass(st, hover_nodes, n - 1);
        hover_step(prev, hover_nodes[n - 1].0, hover_nodes[n - 1].1)
    }
}

impl<C> UiState<C> {
    pub open spec fn tag_tables(&self) -> TagTables {
        TagTables {
            n2t: self.node_ids_to_tag_ids@,
            t2n: self.tag_ids_to_node_ids@,
            hover: self.tag_ids_to_hover_active_states@,
            next: self.next_tag_id as nat,
        }
    }

    /// Whether `other` equals `self` but for the tag tables and the tag counter.
    pub open spec fn same_but_tags(&self, other: &UiState<C>) -> bool {
        &&& other.dom_id == self.dom_id
        &&& other.dom == self.dom
        &&& other.dynamic_css_overrides == self.dynamic_css_overrides
        &&& other.tab_index_tags == self.tab_index_tags
        &&& other.draggable_tags == self.draggable_tags
        &&& other.hover_callbacks == self.hover_callbacks
        &&& other.hover_default_callbacks == self.hover_default_callbacks
        &&& other.focus_callbacks == self.focus_callbacks
        &&& other.focus_default_callbacks == self.focus_default_callbacks
        &&& other.not_callbacks == self.not_callbacks
        &&& other.not_default_callbacks == self.not_default_callbacks
        &&& other.window_callbacks == self.window_callbacks
        &&& other.window_default_callbacks == self.window_default_callbacks
    }
}

fn find_tag(n2t: &Vec<(NodeId, TagId)>, node: NodeId) -> (r: Option<TagId>)
    ensures
        r == lookup_tag(n2t@, node),
{
    let mut i: usize = n2t.len();
    assert(n2t@.subrange(0, i as int) =~= n2t@);
    while i > 0
        invariant
            i <= n2t@.len(),
            lookup_tag(n2t@, node) == lookup_tag(n2t@.subrange(0, i as int), node),
        decreases i,
    {
        assert(n2t@.subrange(0, i as int).drop_last() =~= n2t@.subrange(0, i - 1));
        if n2t[i - 1].0 == node {
            return Some(n2t[i - 1].1);
        }
        i = i - 1;
    }
    None
}

fn find_hover_key(hs: &Vec<(TagId, (NodeId, HoverGroup))>, t: TagId) -> (r: Option<usize>)
    ensures
        r matches Some(k) ==> hover_key_index(hs@, t) == Some(k as int) && k < hs@.len(),
        r is None ==> hover_key_index(hs@, t) is None,
{
    let mut i: usize = hs.len();
    assert(hs@.subrange(0, i as int) =~= hs@);
    while i > 0
        invariant
            i <= hs@.len(),
            hover_key_index(hs@, t) == hover_key_index(hs@.subrange(0, i as int), t),
        decreases i,
    {
        assert(hs@.subrange(0, i as int).drop_last() =~= hs@.subrange(0, i - 1));
        if hs[i - 1].0 == t {
            return Some(i - 1);
        }
        i = i - 1;
    }
    None
}

/// Gives every node that a `:hover` or `:active` selector picked a tag (its
/// existing one, or the next of this frame) and records the tag with the
/// node's hover group.
pub fn ui_state_create_tags_for_hover_nodes<C>(
    ui_state: &mut UiState<C>,
    hover_nodes: &Vec<(NodeId, HoverGroup)>,
)
    requires
        old(ui_state).next_tag_id + hover_nodes@.len() <= usize::MAX,
    ensures
        old(ui_state).same_but_tags(final(ui_state)),
        final(ui_state).tag_tables() == hover_pass(
            old(ui_state).tag_tables(),
            hover_nodes@,
            hover_nodes@.len() as int,
        ),
{
    let ghost st0 = ui_state.tag_tables();
    let ghost s0 = *ui_state;
    let mut i: usize = 0;
    while i < hover_nodes.len()
        invariant
            i <= hover_nodes@.len(),
            s0.same_but_tags(ui_state),
            ui_state.tag_tables() == hover_pass(st0, hover_nodes@, i as int),
            ui_state.next_tag_id <= s0.next_tag_id + i,
            s0.next_tag_id + hover_nodes@.len() <= usize::MAX,
        decreases hover_nodes@.len() - i,
    {
        let (node, group) = hover_nodes[i];
        let tag = match find_tag(&ui_state.node_ids_to_tag_ids, node) {
            Some(t) => t,
            None => {
                let t = ui_state.next_tag_id;
                ui_state.node_ids_to_tag_ids.push((node, t));
                ui_state.tag_ids_to_node_ids.push((t, node));
                ui_state.next_tag_id = t + 1;
                t
            },
        };
        match find_hover_key(&ui_state.tag_ids_to_hover_active_states, tag) {
            Some(k) => {
                ui_state.tag_ids_to_hover_active_states.set(k, (tag, (node, group)));
            },
            None => {
                ui_state.tag_ids_to_hover_active_states.push((tag, (node, group)));
            },
        }
        i = i + 1;
    }
}

/// Every `(node, tag)` of `n2t` appears as `(tag, node)` in `t2n`, and the other way round.
pub open spec fn tags_consistent(n2t: Seq<(NodeId, TagId)>, t2n: Seq<(TagId, NodeId)>) -> bool {
    &&& forall|k: int| 0 <= k < n2t.len() ==> t2n.contains((#[trigger] n2t[k].1, n2t[k].0))
    &&& forall|k: int| 0 <= k < t2n.len() ==> n2t.contains((#[trigger] t2n[k].1, t2n[k].0))
}

/// Whether a table has an entry for node `n`.
pub open spec fn table_has_node<T>(tv: Seq<(NodeId, Seq<T>)>, n: NodeId) -> bool {
    exists|j: int| 0 <= j < tv.len() && tv[j].0 == n
}

/// Whether the table has the entry `(t, n)`.
pub open spec fn has_tag_node(s: Seq<(TagId, NodeId)>, t: TagId, n: NodeId) -> bool {
    exists|j: int| 0 <= j < s.len() && s[j] == (t, n)
}

/// Whether the focusable table has an entry for tag `t` and node `n`.
pub open spec fn has_focusable(s: Seq<(TagId, (NodeId, TabIndex))>, t: TagId, n: NodeId) -> bool {
    exists|j: int| 0 <= j < s.len() && s[j].0 == t && s[j].1.0 == n
}

/// Whether a sequence of tagged entries has one with tag `t`.
pub open spec fn has_tag_key<V>(s: Seq<(TagId, V)>, t: TagId) -> bool {
    exists|j: int| 0 <= j < s.len() && s[j].0 == t
}

/// Why tag `t` of node `n` exists: the node has a hover, focus or not-event
/// subscription, or `(t, n)` is in the draggable or focusable table, or `t`
/// has an entry among the `:hover`/`:active` states.
pub open spec fn tag_has_reason<C>(s: UiState<C>, t: TagId, n: NodeId) -> bool {
    ||| has_tag_node(s.draggable_tags@, t, n)
    ||| has_focusable(s.tab_index_tags@, t, n)
    ||| has_tag_key(s.tag_ids_to_hover_active_states@, t)
    ||| table_has_node(table_view(s.hover_callbacks@), n)
    ||| table_has_node(table_view(s.hover_default_callbacks@), n)
    ||| table_has_node(table_view(s.focus_callbacks@), n)
    ||| table_has_node(table_view(s.focus_default_callbacks@), n)
    ||| table_has_node(table_view(s.not_callbacks@), n)
    ||| table_has_node(table_view(s.not_default_callbacks@), n)
}

pub open spec fn every_tag_has_reason<C>(s: UiState<C>) -> bool {
    forall|k: int|
        0 <= k < s.tag_ids_to_node_ids@.len() ==> tag_has_reason(
            s,
            #[trigger] s.tag_ids_to_node_ids@[k].0,
            s.tag_ids_to_node_ids@[k].1,
        )
}

/// The reason of a tag, over the tables that tag assignment computes for the first `n` nodes.
pub open spec fn reason_in_tables<C>(nodes: Seq<NodeData<C>>, n: int, t: TagId, nd: NodeId) -> bool {
    ||| has_tag_node(draggable_entries(nodes, n), t, nd)
    ||| has_focusable(tab_index_entries(nodes, n), t, nd)
    ||| table_has_node(hover_table(nodes, n), nd)
    ||| table_has_node(hover_default_table(nodes, n), nd)
    ||| table_has_node(focus_table(nodes, n), nd)
    ||| table_has_node(focus_default_table(nodes, n), nd)
    ||| table_has_node(not_table(nodes, n), nd)
    ||| table_has_node(not_default_table(nodes, n), nd)
}

proof fn lemma_entries_paired<C>(nodes: Seq<NodeData<C>>, n: int)
    ensures
        node_tag_entries(nodes, n).len() == tag_node_entries(nodes, n).len(),
        forall|k: int|
            0 <= k < tag_node_entries(nodes, n).len() ==> #[trigger] tag_node_entries(nodes, n)[k]
                == (node_tag_entries(nodes, n)[k].1, node_tag_entries(nodes, n)[k].0),
    decreases n,
{
    if n > 0 {
        lemma_entries_paired(nodes, n - 1);
        let a = node_tag_entries(nodes, n - 1);
        let b = tag_node_entries(nodes, n - 1);
        assert forall|k: int| 0 <= k < tag_node_entries(nodes, n).len() implies #[trigger] tag_node_entries(
            nodes,
            n,
        )[k] == (node_tag_entries(nodes, n)[k].1, node_tag_entries(nodes, n)[k].0) by {
            if k < b.len() {
                assert(tag_node_entries(nodes, n)[k] == b[k]);
                assert(node_tag_entries(nodes, n)[k] == a[k]);
            }
        }
    }
}

proof fn lemma_nodes_grow<T>(a: Seq<(NodeId, Seq<T>)>, e: Seq<(NodeId, Seq<T>)>, nd: NodeId)
    requires
        table_has_node(a, nd),
    ensures
        table_has_node(a + e, nd),
{
    let j = choose|j: int| 0 <= j < a.len() && a[j].0 == nd;
    assert((a + e)[j].0 == nd);
}

proof fn lemma_last_node<T>(a: Seq<(NodeId, Seq<T>)>, e: (NodeId, Seq<T>))
    ensures
        table_has_node(a + seq![e], e.0),
{
    assert((a + seq![e])[a.len() as int].0 == e.0);
}

proof fn lemma_reason_grows<C>(nodes: Seq<NodeData<C>>, n: int, t: TagId, nd: NodeId)
    requires
        n > 0,
        reason_in_tables(nodes, n - 1, t, nd),
    ensures
        reason_in_tables(nodes, n, t, nd),
{
    let d = nodes[n - 1];
    let at = node_at(n - 1);
    if has_tag_node(draggable_entries(nodes, n - 1), t, nd) {
        let a = draggable_entries(nodes, n - 1);
        let j = choose|j: int| 0 <= j < a.len() && a[j] == (t, nd);
        assert(draggable_entries(nodes, n)[j] == (t, nd));
    } else if has_focusable(tab_index_entries(nodes, n - 1), t, nd) {
        let a = tab_index_entries(nodes, n - 1);
        let j = choose|j: int| 0 <= j < a.len() && a[j].0 == t && a[j].1.0 == nd;
        assert(tab_index_entries(nodes, n)[j] == a[j]);
    } else if table_has_node(hover_table(nodes, n - 1), nd) {
        lemma_nodes_grow(hover_table(nodes, n - 1), entry_if(hover_entries(d.callbacks@).len() > 0, (at, hover_entries(d.callbacks@))), nd);
    } else if table_has_node(hover_default_table(nodes, n - 1), nd) {
        lemma_nodes_grow(hover_default_table(nodes, n - 1), entry_if(hover_entries(d.default_callback_ids@).len() > 0, (at, hover_entries(d.default_callback_ids@))), nd);
    } else if table_has_node(focus_table(nodes, n - 1), nd) {
        lemma_nodes_grow(focus_table(nodes, n - 1), entry_if(focus_entries(d.callbacks@).len() > 0, (at, focus_entries(d.callbacks@))), nd);
    } else if table_has_node(focus_default_table(nodes, n - 1), nd) {
        lemma_nodes_grow(focus_default_table(nodes, n - 1), entry_if(focus_entries(d.default_callback_ids@).len() > 0, (at, focus_entries(d.default_callback_ids@))), nd);
    } else if table_has_node(not_table(nodes, n - 1), nd) {
        lemma_nodes_grow(not_table(nodes, n - 1), entry_if(not_entries(d.callbacks@).len() > 0, (at, not_entries(d.callbacks@))), nd);
    } else {
        lemma_nodes_grow(not_default_table(nodes, n - 1), entry_if(not_entries(d.default_callback_ids@).len() > 0, (at, not_entries(d.default_callback_ids@))), nd);
    }
}

proof fn lemma_tags_have_reasons<C>(nodes: Seq<NodeData<C>>, n: int)
    ensures
        forall|k: int|
            0 <= k < tag_node_entries(nodes, n).len() ==> reason_in_tables(
                nodes,
                n,
                #[trigger] tag_node_entries(nodes, n)[k].0,
                tag_node_entries(nodes, n)[k].1,
            ),
    decreases n,
{
    if n > 0 {
        lemma_tags_have_reasons(nodes, n - 1);
        let prev = tag_node_entries(nodes, n - 1);
        let cur = tag_node_entries(nodes, n);
        let d = nodes[n - 1];
        let at = node_at(n - 1);
        let t = tag_of(nodes, n - 1);
        assert forall|k: int| 0 <= k < cur.len() implies reason_in_tables(nodes, n, #[trigger] cur[k].0, cur[k].1) by {
            if k < prev.len() {
                assert(cur[k] == prev[k]);
                assert(reason_in_tables(nodes, n - 1, prev[k].0, prev[k].1));
                lemma_reason_grows(nodes, n, prev[k].0, prev[k].1);
            } else {
                assert(cur[k] == (t, at));
                if d.is_draggable {
                    let a = draggable_entries(nodes, n - 1);
                    assert(draggable_entries(nodes, n)[a.len() as int] == (t, at));
                } else if effective_tab_index(d) is Some {
                    let a = tab_index_entries(nodes, n - 1);
                    assert(tab_index_entries(nodes, n)[a.len() as int] == (t, (at, effective_tab_index(d)->0)));
                } else if hover_entries(d.callbacks@).len() > 0 {
                    lemma_last_node(hover_table(nodes, n - 1), (at, hover_entries(d.callbacks@)));
                } else if hover_entries(d.default_callback_ids@).len() > 0 {
                    lemma_last_node(hover_default_table(nodes, n - 1), (at, hover_entries(d.default_callback_ids@)));
                } else if focus_entries(d.callbacks@).len() > 0 {
                    lemma_last_node(focus_table(nodes, n - 1), (at, focus_entries(d.callbacks@)));
                } else if focus_entries(d.default_callback_ids@).len() > 0 {
                    lemma_last_node(focus_default_table(nodes, n - 1), (at, focus_entries(d.default_callback_ids@)));
                } else if not_entries(d.callbacks@).len() > 0 {
                    lemma_last_node(not_table(nodes, n - 1), (at, not_entries(d.callbacks@)));
                } else {
                    lemma_last_node(not_default_table(nodes, n - 1), (at, not_entries(d.default_callback_ids@)));
                }
            }
        }
    }
}

proof fn lemma_tagged_nodes<C>(nodes: Seq<NodeData<C>>, n: int)
    requires
        n <= nodes.len() <= usize::MAX,
    ensures
        forall|k: int|
            0 <= k < node_tag_entries(nodes, n).len() ==> (#[trigger] node_tag_entries(nodes, n)[k]).0.index
                < n && needs_tag(nodes[node_tag_entries(nodes, n)[k].0.index as int]),
    decreases n,
{
    if n > 0 {
        lemma_tagged_nodes(nodes, n - 1);
        let prev = node_tag_entries(nodes, n - 1);
        let cur = node_tag_entries(nodes, n);
        assert forall|k: int| 0 <= k < cur.len() implies (#[trigger] cur[k]).0.index < n && needs_tag(
            nodes[cur[k].0.index as int],
        ) by {
            if k < prev.len() {
                assert(cur[k] == prev[k]);
            }
        }
    }
}

/// After tag assignment the two tag maps mirror each other, and every tag
/// has a reason: its node has a hover, focus or not-event subscription, or
/// it is draggable or focusable. Window subscriptions never give a node a
/// tag: every tagged node needs one by `needs_tag`, which reads no window
/// subscription.
pub proof fn lemma_tag_assignment<C>(s: UiState<C>, nodes: Seq<NodeData<C>>)
    requires
        s.assigned_from(nodes),
        nodes.len() <= usize::MAX,
    ensures
        tags_consistent(s.node_ids_to_tag_ids@, s.tag_ids_to_node_ids@),
        every_tag_has_reason(s),
        forall|k: int|
            0 <= k < s.node_ids_to_tag_ids@.len() ==> needs_tag(
                nodes[(#[trigger] s.node_ids_to_tag_ids@[k]).0.index as int],
            ),
{
    let n = nodes.len() as int;
    lemma_entries_paired(nodes, n);
    let a = s.node_ids_to_tag_ids@;
    let b = s.tag_ids_to_node_ids@;
    assert forall|k: int| 0 <= k < a.len() implies b.contains((#[trigger] a[k].1, a[k].0)) by {
        assert(b[k] == (a[k].1, a[k].0));
    }
    assert forall|k: int| 0 <= k < b.len() implies a.contains((#[trigger] b[k].1, b[k].0)) by {
        assert(b[k] == (a[k].1, a[k].0));
        assert(a[k] == (b[k].1, b[k].0));
    }
    lemma_tags_have_reasons(nodes, n);
    assert forall|k: int| 0 <= k < b.len() implies tag_has_reason(s, #[trigger] b[k].0, b[k].1) by {
        assert(reason_in_tables(nodes, n, b[k].0, b[k].1));
    }
    lemma_tagged_nodes(nodes, n);
}

/// A window subscription leaves the hover, focus and not-event entries of a
/// subscription list as they were, so it cannot change which nodes get a tag.
pub proof fn lemma_window_entry_ignored<X>(s: Seq<(EventFilter, X)>, w: WindowEventFilter, x: X)
    ensures
        hover_entries(s.push((EventFilter::Window(w), x))) == hover_entries(s),
        focus_entries(s.push((EventFilter::Window(w), x))) == focus_entries(s),
        not_entries(s.push((EventFilter::Window(w), x))) == not_entries(s),
{
    assert(s.push((EventFilter::Window(w), x)).drop_last() =~= s);
}

/// Tag assignment is deterministic: two results for the same nodes agree in
/// every table and in the tag counter.
pub proof fn lemma_tag_assignment_deterministic<C>(a: UiState<C>, b: UiState<C>, nodes: Seq<NodeData<C>>)
    requires
        a.assigned_from(nodes),
        b.assigned_from(nodes),
    ensures
        a.tag_tables() == b.tag_tables(),
        a.tab_index_tags@ == b.tab_index_tags@,
        a.draggable_tags@ == b.draggable_tags@,
        table_view(a.hover_callbacks@) == table_view(b.hover_callbacks@),
        table_view(a.hover_default_callbacks@) == table_view(b.hover_default_callbacks@),
        table_view(a.focus_callbacks@) == table_view(b.focus_callbacks@),
        table_view(a.focus_default_callbacks@) == table_view(b.focus_default_callbacks@),
        table_view(a.not_callbacks@) == table_view(b.not_callbacks@),
        table_view(a.not_default_callbacks@) == table_view(b.not_default_callbacks@),
        table_view(a.window_callbacks@) == table_view(b.window_callbacks@),
        table_view(a.window_default_callbacks@) == table_view(b.window_default_callbacks@),
        table_view(a.dynamic_css_overrides@) == table_view(b.dynamic_css_overrides@),
{
    assert(a.tag_ids_to_hover_active_states@ =~= b.tag_ids_to_hover_active_states@);
}

proof fn lemma_hover_key_index(hs: Seq<(TagId, (NodeId, HoverGroup))>, t: TagId)
    ensures
        hover_key_index(hs, t) matches Some(k) ==> 0 <= k < hs.len() && hs[k].0 == t,
    decreases hs.len(),
{
    if hs.len() > 0 && hs.last().0 != t {
        lemma_hover_key_index(hs.drop_last(), t);
    }
}

proof fn lemma_hover_insert_keys(hs: Seq<(TagId, (NodeId, HoverGroup))>, t: TagId, v: (NodeId, HoverGroup))
    ensures
        has_tag_key(hover_insert(hs, t, v), t),
        forall|t2: TagId| has_tag_key(hs, t2) ==> #[trigger] has_tag_key(hover_insert(hs, t, v), t2),
{
    lemma_hover_key_index(hs, t);
    let r = hover_insert(hs, t, v);
    match hover_key_index(hs, t) {
        Some(k) => {
            assert(r[k].0 == t);
            assert forall|t2: TagId| has_tag_key(hs, t2) implies #[trigger] has_tag_key(r, t2) by {
                let j = choose|j: int| 0 <= j < hs.len() && hs[j].0 == t2;
                assert(r[j].0 == t2);
            }
        },
        None => {
            assert(r[hs.len() as int].0 == t);
            assert forall|t2: TagId| has_tag_key(hs, t2) implies #[trigger] has_tag_key(r, t2) by {
                let j = choose|j: int| 0 <= j < hs.len() && hs[j].0 == t2;
                assert(r[j].0 == t2);
            }
        },
    }
}

/// What the hover pass keeps of its start `st0` in a later state `st`: the
/// tag map only grows at its end, hover keys stay, and every tag it added
/// has a hover entry.
pub open spec fn hover_pass_keeps(st0: TagTables, st: TagTables) -> bool {
    &&& st.t2n.len() >= st0.t2n.len()
    &&& forall|k: int| 0 <= k < st0.t2n.len() ==> #[trigger] st.t2n[k] == st0.t2n[k]
    &&& forall|t: TagId| has_tag_key(st0.hover, t) ==> #[trigger] has_tag_key(st.hover, t)
    &&& forall|k: int|
        st0.t2n.len() <= k < st.t2n.len() ==> has_tag_key(st.hover, (#[trigger] st.t2n[k]).0)
}

proof fn lemma_hover_pass_keeps(st0: TagTables, hover_nodes: Seq<(NodeId, HoverGroup)>, n: int)
    requires
        n <= hover_nodes.len(),
        tags_consistent(st0.n2t, st0.t2n),
    ensures
        hover_pass_keeps(st0, hover_pass(st0, hover_nodes, n)),
        tags_consistent(hover_pass(st0, hover_nodes, n).n2t, hover_pass(st0, hover_nodes, n).t2n),
    decreases n,
{
    if n > 0 {
        lemma_hover_pass_keeps(st0, hover_nodes, n - 1);
        let st = hover_pass(st0, hover_nodes, n - 1);
        let node = hover_nodes[n - 1].0;
        let g = hover_nodes[n - 1].1;
        let nx = hover_pass(st0, hover_nodes, n);
        match lookup_tag(st.n2t, node) {
            Some(t) => {
                lemma_hover_insert_keys(st.hover, t, (node, g));
            },
            None => {
                let t = st.next as usize;
                lemma_hover_insert_keys(st.hover, t, (node, g));
                assert forall|k: int| 0 <= k < nx.n2t.len() implies nx.t2n.contains((#[trigger] nx.n2t[k].1, nx.n2t[k].0)) by {
                    if k < st.n2t.len() {
                        assert(st.t2n.contains((st.n2t[k].1, st.n2t[k].0)));
                        let w = choose|w: int| 0 <= w < st.t2n.len() && st.t2n[w] == (st.n2t[k].1, st.n2t[k].0);
                        assert(nx.t2n[w] == st.t2n[w]);
                    } else {
                        assert(nx.t2n[st.t2n.len() as int] == (t, node));
                    }
                }
                assert forall|k: int| 0 <= k < nx.t2n.len() implies nx.n2t.contains((#[trigger] nx.t2n[k].1, nx.t2n[k].0)) by {
                    if k < st.t2n.len() {
                        assert(st.n2t.contains((st.t2n[k].1, st.t2n[k].0)));
                        let w = choose|w: int| 0 <= w < st.n2t.len() && st.n2t[w] == (st.t2n[k].1, st.t2n[k].0);
                        assert(nx.n2t[w] == st.n2t[w]);
                    } else {
                        assert(nx.n2t[st.n2t.len() as int] == (node, t));
                    }
                }
                assert forall|k: int| st0.t2n.len() <= k < nx.t2n.len() implies has_tag_key(nx.hover, (#[trigger] nx.t2n[k]).0) by {
                    if k < st.t2n.len() {
                        assert(nx.t2n[k] == st.t2n[k]);
                    }
                }
            },
        }
    }
}

/// The hover pass keeps the laws of tag assignment: the two tag maps still
/// mirror each other, and every tag still has a reason (a tag made for a
/// `:hover` or `:active` node has its entry in the hover states).
pub proof fn lemma_hover_pass_laws<C>(old_state: UiState<C>, new_state: UiState<C>, hover_nodes: Seq<(NodeId, HoverGroup)>)
    requires
        tags_consistent(old_state.node_ids_to_tag_ids@, old_state.tag_ids_to_node_ids@),
        every_tag_has_reason(old_state),
        old_state.same_but_tags(&new_state),
        new_state.tag_tables() == hover_pass(old_state.tag_tables(), hover_nodes, hover_nodes.len() as int),
    ensures
        tags_consistent(new_state.node_ids_to_tag_ids@, new_state.tag_ids_to_node_ids@),
        every_tag_has_reason(new_state),
{
    let st0 = old_state.tag_tables();
    lemma_hover_pass_keeps(st0, hover_nodes, hover_nodes.len() as int);
    let stn = hover_pass(st0, hover_nodes, hover_nodes.len() as int);
    let b = new_state.tag_ids_to_node_ids@;
    assert(b == stn.t2n);
    assert(new_state.tag_ids_to_hover_active_states@ == stn.hover);
    assert forall|k: int| 0 <= k < b.len() implies tag_has_reason(new_state, #[trigger] b[k].0, b[k].1) by {
        if k < st0.t2n.len() {
            assert(b[k] == st0.t2n[k]);
            assert(tag_has_reason(old_state, old_state.tag_ids_to_node_ids@[k].0, old_state.tag_ids_to_node_ids@[k].1));
            if has_tag_key(old_state.tag_ids_to_hover_active_states@, b[k].0) {
                assert(has_tag_key(st0.hover, b[k].0));
                assert(has_tag_key(stn.hover, b[k].0));
            }
        } else {
            assert(has_tag_key(stn.hover, stn.t2n[k].0));
        }
    }
}

proof fn lemma_lookup_push(n2t: Seq<(NodeId, TagId)>, e: (NodeId, TagId), node: NodeId)
    requires
        lookup_tag(n2t, node) is Some,
    ensures
        lookup_tag(n2t.push(e), node) is Some,
{
    assert(n2t.push(e).drop_last() =~= n2t);
}

/// After the hover pass every node it was given has a tag.
pub proof fn lemma_hover_nodes_tagged(st0: TagTables, hover_nodes: Seq<(NodeId, HoverGroup)>, n: int)
    requires
        0 <= n <= hover_nodes.len(),
    ensures
        forall|i: int|
            0 <= i < n ==> lookup_tag(hover_pass(st0, hover_nodes, n).n2t, #[trigger] hover_nodes[i].0)
                is Some,
    decreases n,
{
    if n > 0 {
        lemma_hover_nodes_tagged(st0, hover_nodes, n - 1);
        let st = hover_pass(st0, hover_nodes, n - 1);
        let node = hover_nodes[n - 1].0;
        let nx = hover_pass(st0, hover_nodes, n);
        assert forall|i: int| 0 <= i < n implies lookup_tag(nx.n2t, #[trigger] hover_nodes[i].0) is Some by {
            match lookup_tag(st.n2t, node) {
                Some(t) => {},
                None => {
                    let e = (node, st.next as usize);
                    if i < n - 1 {
                        lemma_lookup_push(st.n2t, e, hover_nodes[i].0);
                    } else {
                        assert(nx.n2t.last() == e);
                    }
                },
            }
        }
    }
}

/// Whether the node keys of a table strictly ascend (so no node occurs twice).
pub open spec fn nodes_ascending<T>(s: Seq<(NodeId, T)>) -> bool {
    forall|i: int, j: int| 0 <= i < j < s.len() ==> s[i].0.index < s[j].0.index
}

/// Whether the tag keys of a table strictly ascend (so no tag occurs twice).
pub open spec fn tags_ascending<T>(s: Seq<(TagId, T)>) -> bool {
    forall|i: int, j: int| 0 <= i < j < s.len() ==> s[i].0 < s[j].0
}

proof fn lemma_node_table_ordered<C, T>(
    nodes: Seq<NodeData<C>>,
    n: int,
    pick: spec_fn(NodeData<C>) -> Seq<T>,
)
    requires
        n <= nodes.len() <= usize::MAX,
    ensures
        nodes_ascending(node_table(nodes, n, pick)),
        forall|k: int|
            0 <= k < node_table(nodes, n, pick).len() ==> (#[trigger] node_table(nodes, n, pick)[k]).0.index
                < n && node_table(nodes, n, pick)[k].1 == pick(
                nodes[node_table(nodes, n, pick)[k].0.index as int],
            ),
    decreases n,
{
    if n > 0 {
        lemma_node_table_ordered(nodes, n - 1, pick);
        let prev = node_table(nodes, n - 1, pick);
        let cur = node_table(nodes, n, pick);
        assert forall|k: int| 0 <= k < cur.len() implies (#[trigger] cur[k]).0.index < n && cur[k].1
            == pick(nodes[cur[k].0.index as int]) by {
            if k < prev.len() {
                assert(cur[k] == prev[k]);
            }
        }
        assert forall|i: int, j: int| 0 <= i < j < cur.len() implies cur[i].0.index < cur[j].0.index by {
            if j < prev.len() {
                assert(cur[i] == prev[i] && cur[j] == prev[j]);
            } else {
                assert(cur[i] == prev[i]);
                assert(prev[i].0.index < n - 1);
            }
        }
    }
}

proof fn lemma_tags_before_grows<C>(nodes: Seq<NodeData<C>>, m: int, n: int)
    requires
        0 <= m <= n,
    ensures
        tags_before(nodes, m) <= tags_before(nodes, n),
    decreases n - m,
{
    if m < n {
        lemma_tags_before_grows(nodes, m, n - 1);
    }
}

proof fn lemma_tag_entries_ordered<C>(nodes: Seq<NodeData<C>>, n: int)
    requires
        n <= nodes.len() <= usize::MAX,
    ensures
        tags_ascending(tag_node_entries(nodes, n)),
        nodes_ascending(node_tag_entries(nodes, n)),
        forall|k: int|
            0 <= k < tag_node_entries(nodes, n).len() ==> (#[trigger] tag_node_entries(nodes, n)[k]).0
                < tags_before(nodes, n) && tag_node_entries(nodes, n)[k].1.index < n,
        forall|k: int|
            0 <= k < node_tag_entries(nodes, n).len() ==> (#[trigger] node_tag_entries(nodes, n)[k]).0.index
                < n,
    decreases n,
{
    if n > 0 {
        lemma_tag_entries_ordered(nodes, n - 1);
        lemma_tags_before_grows(nodes, 0, n);
        assert(tags_before(nodes, n) <= n) by {
            lemma_tags_at_most(nodes, n);
        }
        let pt = tag_node_entries(nodes, n - 1);
        let ct = tag_node_entries(nodes, n);
        let pn = node_tag_entries(nodes, n - 1);
        let cn = node_tag_entries(nodes, n);
        assert forall|k: int| 0 <= k < ct.len() implies (#[trigger] ct[k]).0 < tags_before(nodes, n)
            && ct[k].1.index < n by {
            if k < pt.len() {
                assert(ct[k] == pt[k]);
            }
        }
        assert forall|k: int| 0 <= k < cn.len() implies (#[trigger] cn[k]).0.index < n by {
            if k < pn.len() {
                assert(cn[k] == pn[k]);
            }
        }
        assert forall|i: int, j: int| 0 <= i < j < ct.len() implies ct[i].0 < ct[j].0 by {
            assert(ct[i] == pt[i]);
            if j < pt.len() {
                assert(ct[j] == pt[j]);
            }
        }
        assert forall|i: int, j: int| 0 <= i < j < cn.len() implies cn[i].0.index < cn[j].0.index by {
            assert(cn[i] == pn[i]);
            if j < pn.len() {
                assert(cn[j] == pn[j]);
            }
        }
    }
}

proof fn lemma_tags_at_most<C>(nodes: Seq<NodeData<C>>, n: int)
    requires
        0 <= n,
    ensures
        tags_before(nodes, n) <= n,
    decreases n,
{
    if n > 0 {
        lemma_tags_at_most(nodes, n - 1);
    }
}

/// After tag assignment every table is keyed uniquely: node keys and tags
/// strictly ascend, and every filter list of a node is a map.
pub proof fn lemma_tables_keyed_uniquely<C>(s: UiState<C>, nodes: Seq<NodeData<C>>)
    requires
        s.assigned_from(nodes),
        nodes.len() <= usize::MAX,
    ensures
        nodes_ascending(s.node_ids_to_tag_ids@),
        tags_ascending(s.tag_ids_to_node_ids@),
        tags_ascending(s.draggable_tags@),
        tags_ascending(s.tab_index_tags@),
        nodes_ascending(table_view(s.hover_callbacks@)),
        nodes_ascending(table_view(s.hover_default_callbacks@)),
        nodes_ascending(table_view(s.focus_callbacks@)),
        nodes_ascending(table_view(s.focus_default_callbacks@)),
        nodes_ascending(table_view(s.not_callbacks@)),
        nodes_ascending(table_view(s.not_default_callbacks@)),
        nodes_ascending(table_view(s.window_callbacks@)),
        nodes_ascending(table_view(s.window_default_callbacks@)),
        nodes_ascending(table_view(s.dynamic_css_overrides@)),
        forall|k: int|
            0 <= k < s.hover_callbacks@.len() ==> unique_keys((#[trigger] s.hover_callbacks@[k]).1@),
        forall|k: int|
            0 <= k < s.focus_callbacks@.len() ==> unique_keys((#[trigger] s.focus_callbacks@[k]).1@),
        forall|k: int|
            0 <= k < s.not_callbacks@.len() ==> unique_keys((#[trigger] s.not_callbacks@[k]).1@),
        forall|k: int|
            0 <= k < s.window_callbacks@.len() ==> unique_keys((#[trigger] s.window_callbacks@[k]).1@),
{
    let n = nodes.len() as int;
    lemma_tag_entries_ordered(nodes, n);
    lemma_sub_ordered(nodes, n);
    lemma_node_table_ordered(nodes, n, |d: NodeData<C>| hover_entries(d.callbacks@));
    lemma_node_table_ordered(nodes, n, |d: NodeData<C>| hover_entries(d.default_callback_ids@));
    lemma_node_table_ordered(nodes, n, |d: NodeData<C>| focus_entries(d.callbacks@));
    lemma_node_table_ordered(nodes, n, |d: NodeData<C>| focus_entries(d.default_callback_ids@));
    lemma_node_table_ordered(nodes, n, |d: NodeData<C>| not_entries(d.callbacks@));
    lemma_node_table_ordered(nodes, n, |d: NodeData<C>| not_entries(d.default_callback_ids@));
    lemma_node_table_ordered(nodes, n, |d: NodeData<C>| window_entries(d.callbacks@));
    lemma_node_table_ordered(nodes, n, |d: NodeData<C>| window_entries(d.default_callback_ids@));
    lemma_node_table_ordered(nodes, n, |d: NodeData<C>| d.dynamic_css_overrides@);
    assert forall|k: int| 0 <= k < s.hover_callbacks@.len() implies unique_keys((#[trigger] s.hover_callbacks@[k]).1@) by {
        assert(table_view(s.hover_callbacks@)[k].1 == s.hover_callbacks@[k].1@);
        lemma_entries_unique(nodes[table_view(s.hover_callbacks@)[k].0.index as int].callbacks@);
    }
    assert forall|k: int| 0 <= k < s.focus_callbacks@.len() implies unique_keys((#[trigger] s.focus_callbacks@[k]).1@) by {
        assert(table_view(s.focus_callbacks@)[k].1 == s.focus_callbacks@[k].1@);
        lemma_entries_unique(nodes[table_view(s.focus_callbacks@)[k].0.index as int].callbacks@);
    }
    assert forall|k: int| 0 <= k < s.not_callbacks@.len() implies unique_keys((#[trigger] s.not_callbacks@[k]).1@) by {
        assert(table_view(s.not_callbacks@)[k].1 == s.not_callbacks@[k].1@);
        lemma_entries_unique(nodes[table_view(s.not_callbacks@)[k].0.index as int].callbacks@);
    }
    assert forall|k: int| 0 <= k < s.window_callbacks@.len() implies unique_keys((#[trigger] s.window_callbacks@[k]).1@) by {
        assert(table_view(s.window_callbacks@)[k].1 == s.window_callbacks@[k].1@);
        lemma_entries_unique(nodes[table_view(s.window_callbacks@)[k].0.index as int].callbacks@);
    }
}

/// The draggable and focusable tables are sub-sequences of the tag
/// sequence: their tags ascend too.
proof fn lemma_sub_ordered<C>(nodes: Seq<NodeData<C>>, n: int)
    requires
        n <= nodes.len() <= usize::MAX,
    ensures
        tags_ascending(draggable_entries(nodes, n)),
        tags_ascending(tab_index_entries(nodes, n)),
        forall|k: int| 0 <= k < draggable_entries(nodes, n).len() ==> (#[trigger] draggable_entries(nodes, n)[k]).0 < tags_before(nodes, n),
        forall|k: int| 0 <= k < tab_index_entries(nodes, n).len() ==> (#[trigger] tab_index_entries(nodes, n)[k]).0 < tags_before(nodes, n),
    decreases n,
{
    if n > 0 {
        lemma_sub_ordered(nodes, n - 1);
        lemma_tags_at_most(nodes, n - 1);
        let pd = draggable_entries(nodes, n - 1);
        let cd = draggable_entries(nodes, n);
        let pb = tab_index_entries(nodes, n - 1);
        let cb = tab_index_entries(nodes, n);
        assert forall|k: int| 0 <= k < cd.len() implies (#[trigger] cd[k]).0 < tags_before(nodes, n) by {
            if k < pd.len() {
                assert(cd[k] == pd[k]);
            }
        }
        assert forall|k: int| 0 <= k < cb.len() implies (#[trigger] cb[k]).0 < tags_before(nodes, n) by {
            if k < pb.len() {
                assert(cb[k] == pb[k]);
            }
        }
        assert forall|i: int, j: int| 0 <= i < j < cd.len() implies cd[i].0 < cd[j].0 by {
            assert(cd[i] == pd[i]);
            if j < pd.len() {
                assert(cd[j] == pd[j]);
            }
        }
        assert forall|i: int, j: int| 0 <= i < j < cb.len() implies cb[i].0 < cb[j].0 by {
            assert(cb[i] == pb[i]);
            if j < pb.len() {
                assert(cb[j] == pb[j]);
            }
        }
    }
}

/// A subscription list with its window entries taken out.
pub open spec fn without_window<X>(s: Seq<(EventFilter, X)>) -> Seq<(EventFilter, X)>
    decreases s.len(),
{
    if s.len() == 0 {
        Seq::empty()
    } else if s.last().0 is Window {
        without_window(s.drop_last())
    } else {
        without_window(s.drop_last()).push(s.last())
    }
}

/// Taking the window entries out of a list leaves its hover, focus and
/// not-event maps as they were.
pub proof fn lemma_without_window<X>(s: Seq<(EventFilter, X)>)
    ensures
        hover_entries(without_window(s)) == hover_entries(s),
        focus_entries(without_window(s)) == focus_entries(s),
        not_entries(without_window(s)) == not_entries(s),
    decreases s.len(),
{
    if s.len() > 0 {
        lemma_without_window(s.drop_last());
        let w = without_window(s.drop_last());
        if !(s.last().0 is Window) {
            assert(w.push(s.last()).drop_last() =~= w);
        }
    }
}

/// Whether two nodes agree in everything that decides their tag: their
/// hover, focus and not-event maps, their draggable flag and tab index.
pub open spec fn same_tag_inputs<C>(a: NodeData<C>, b: NodeData<C>) -> bool {
    &&& hover_entries(a.callbacks@) == hover_entries(b.callbacks@)
    &&& focus_entries(a.callbacks@) == focus_entries(b.callbacks@)
    &&& not_entries(a.callbacks@) == not_entries(b.callbacks@)
    &&& hover_entries(a.default_callback_ids@) == hover_entries(b.default_callback_ids@)
    &&& focus_entries(a.default_callback_ids@) == focus_entries(b.default_callback_ids@)
    &&& not_entries(a.default_callback_ids@) == not_entries(b.default_callback_ids@)
    &&& a.is_draggable == b.is_draggable
    &&& a.tab_index == b.tab_index
}

/// A node and the same node without its window subscriptions agree in
/// everything that decides their tag.
pub proof fn lemma_window_removal_keeps_tag_inputs<C>(a: NodeData<C>, b: NodeData<C>)
    requires
        b.callbacks@ == without_window(a.callbacks@),
        b.default_callback_ids@ == without_window(a.default_callback_ids@),
        b.is_draggable == a.is_draggable,
        b.tab_index == a.tab_index,
    ensures
        same_tag_inputs(a, b),
{
    lemma_without_window(a.callbacks@);
    lemma_without_window(a.default_callback_ids@);
}

/// Window subscriptions never add a key nor shift a tag: two trees whose
/// nodes agree in everything but window subscriptions (see
/// `lemma_window_removal_keeps_tag_inputs`) get the same tag maps.
pub proof fn lemma_window_subscriptions_change_no_tag<C>(
    a: Seq<NodeData<C>>,
    b: Seq<NodeData<C>>,
    n: int,
)
    requires
        a.len() == b.len(),
        n <= a.len(),
        forall|i: int| 0 <= i < a.len() ==> same_tag_inputs(#[trigger] a[i], b[i]),
    ensures
        node_tag_entries(a, n) == node_tag_entries(b, n),
        tag_node_entries(a, n) == tag_node_entries(b, n),
        tags_before(a, n) == tags_before(b, n),
    decreases n,
{
    if n > 0 {
        lemma_window_subscriptions_change_no_tag(a, b, n - 1);
        assert(same_tag_inputs(a[n - 1], b[n - 1]));
        assert(needs_tag(a[n - 1]) == needs_tag(b[n - 1]));
    }
}

/// The hover pass keeps the two tag maps mirroring each other.
pub proof fn lemma_hover_pass_consistent(st0: TagTables, hover_nodes: Seq<(NodeId, HoverGroup)>)
    requires
        tags_consistent(st0.n2t, st0.t2n),
    ensures
        tags_consistent(
            hover_pass(st0, hover_nodes, hover_nodes.len() as int).n2t,
            hover_pass(st0, hover_nodes, hover_nodes.len() as int).t2n,
        ),
{
    lemma_hover_pass_keeps(st0, hover_nodes, hover_nodes.len() as int);
}

/// Whether the hover states have an entry for tag `t` that names node `n`.
pub open spec fn hover_names(hs: Seq<(TagId, (NodeId, HoverGroup))>, t: TagId, n: NodeId) -> bool {
    exists|j: int| 0 <= j < hs.len() && hs[j].0 == t && hs[j].1.0 == n
}

/// Whether no tag is given to two different nodes.
pub open spec fn tags_injective(n2t: Seq<(NodeId, TagId)>) -> bool {
    forall|i: int, j: int| 0 <= i < n2t.len() && 0 <= j < n2t.len() && n2t[i].1 == n2t[j].1 ==> n2t[i].0 == n2t[j].0
}

/// Whether every tag of the tables lies below the tag counter.
pub open spec fn tags_below_next(st: TagTables) -> bool {
    &&& forall|j: int| 0 <= j < st.n2t.len() ==> (#[trigger] st.n2t[j]).1 < st.next
    &&& forall|j: int| 0 <= j < st.hover.len() ==> (#[trigger] st.hover[j]).0 < st.next
}

proof fn lemma_lookup_contains(n2t: Seq<(NodeId, TagId)>, node: NodeId)
    ensures
        lookup_tag(n2t, node) matches Some(t) ==> n2t.contains((node, t)),
    decreases n2t.len(),
{
    if n2t.len() > 0 {
        if n2t.last().0 == node {
            assert(n2t[n2t.len() - 1] == (node, n2t.last().1));
        } else {
            lemma_lookup_contains(n2t.drop_last(), node);
            if let Some(t) = lookup_tag(n2t, node) {
                let j = choose|j: int| 0 <= j < n2t.drop_last().len() && n2t.drop_last()[j] == (node, t);
                assert(n2t[j] == (node, t));
            }
        }
    }
}

proof fn lemma_hover_insert_names(
    hs: Seq<(TagId, (NodeId, HoverGroup))>,
    t: TagId,
    v: (NodeId, HoverGroup),
    t0: TagId,
    n0: NodeId,
)
    requires
        hover_names(hs, t0, n0),
        t == t0 ==> v.0 == n0,
    ensures
        hover_names(hover_insert(hs, t, v), t0, n0),
        hover_names(hover_insert(hs, t, v), t, v.0),
{
    lemma_hover_key_index(hs, t);
    let r = hover_insert(hs, t, v);
    let j = choose|j: int| 0 <= j < hs.len() && hs[j].0 == t0 && hs[j].1.0 == n0;
    match hover_key_index(hs, t) {
        Some(k) => {
            assert(r[k] == (t, v));
            if j != k {
                assert(r[j] == hs[j]);
            }
        },
        None => {
            assert(r[hs.len() as int] == (t, v));
            assert(r[j] == hs[j]);
        },
    }
}

proof fn lemma_hover_insert_new(hs: Seq<(TagId, (NodeId, HoverGroup))>, t: TagId, v: (NodeId, HoverGroup))
    ensures
        hover_names(hover_insert(hs, t, v), t, v.0),
        forall|j: int| 0 <= j < hover_insert(hs, t, v).len() ==> (#[trigger] hover_insert(hs, t, v)[j]).0 == t || exists|i: int| 0 <= i < hs.len() && hs[i] == hover_insert(hs, t, v)[j],
{
    lemma_hover_key_index(hs, t);
    let r = hover_insert(hs, t, v);
    match hover_key_index(hs, t) {
        Some(k) => {
            assert(r[k] == (t, v));
            assert forall|j: int| 0 <= j < r.len() implies (#[trigger] r[j]).0 == t || exists|i: int| 0 <= i < hs.len() && hs[i] == r[j] by {
                if j != k {
                    assert(hs[j] == r[j]);
                }
            }
        },
        None => {
            assert(r[hs.len() as int] == (t, v));
            assert forall|j: int| 0 <= j < r.len() implies (#[trigger] r[j]).0 == t || exists|i: int| 0 <= i < hs.len() && hs[i] == r[j] by {
                if j < hs.len() {
                    assert(hs[j] == r[j]);
                }
            }
        },
    }
}

/// Whether `node` has a tag whose hover state names it.
pub open spec fn tagged_and_named(st: TagTables, node: NodeId) -> bool {
    exists|t: TagId| st.n2t.contains((node, t)) && hover_names(st.hover, t, node)
}

/// Whether `node` has a tag in both tag maps whose hover state names it.
pub open spec fn hover_tagged(st: TagTables, node: NodeId) -> bool {
    exists|t: TagId| st.n2t.contains((node, t)) && st.t2n.contains((t, node)) && hover_names(st.hover, t, node)
}

/// What the hover pass guarantees about the nodes it handled so far.
pub open spec fn hover_pass_done(st0: TagTables, st: TagTables, hover_nodes: Seq<(NodeId, HoverGroup)>, n: int) -> bool {
    &&& st.next <= st0.next + n
    &&& tags_below_next(st)
    &&& tags_injective(st.n2t)
    &&& tags_consistent(st.n2t, st.t2n)
    &&& forall|i: int| 0 <= i < n ==> tagged_and_named(st, (#[trigger] hover_nodes[i]).0)
    &&& forall|k: int|
        st0.t2n.len() <= k < st.t2n.len() ==> hover_names(st.hover, (#[trigger] st.t2n[k]).0, st.t2n[k].1)
}

proof fn lemma_hover_pass_done(st0: TagTables, hover_nodes: Seq<(NodeId, HoverGroup)>, n: int)
    requires
        0 <= n <= hover_nodes.len(),
        st0.next + hover_nodes.len() <= usize::MAX,
        tags_below_next(st0),
        tags_injective(st0.n2t),
        tags_consistent(st0.n2t, st0.t2n),
    ensures
        hover_pass_done(st0, hover_pass(st0, hover_nodes, n), hover_nodes, n),
    decreases n,
{
    if n == 0 {
        return;
    }
    lemma_hover_pass_done(st0, hover_nodes, n - 1);
    lemma_hover_pass_keeps(st0, hover_nodes, n);
    let st = hover_pass(st0, hover_nodes, n - 1);
    let nx = hover_pass(st0, hover_nodes, n);
    let node = hover_nodes[n - 1].0;
    let g = hover_nodes[n - 1].1;
    lemma_lookup_contains(st.n2t, node);
    // the tag the node ends with, and the fact that `node` alone holds it
    let t: TagId = match lookup_tag(st.n2t, node) {
        Some(t) => t,
        None => st.next as usize,
    };
    assert(nx.hover == hover_insert(st.hover, t, (node, g)));
    lemma_hover_insert_new(st.hover, t, (node, g));
    match lookup_tag(st.n2t, node) {
        Some(_) => {
            assert(nx.n2t == st.n2t);
            assert(nx.t2n == st.t2n);
            assert(nx.next == st.next);
            let jn = choose|j: int| 0 <= j < st.n2t.len() && st.n2t[j] == (node, t);
            assert(t < st.next);
            assert forall|j: int| 0 <= j < nx.hover.len() implies (#[trigger] nx.hover[j]).0 < nx.next by {
                if nx.hover[j].0 != t {
                    let i = choose|i: int| 0 <= i < st.hover.len() && st.hover[i] == nx.hover[j];
                    assert(st.hover[i].0 < st.next);
                }
            }
            assert forall|i: int| 0 <= i < n implies tagged_and_named(nx, (#[trigger] hover_nodes[i]).0) by {
                if i == n - 1 {
                    assert(nx.n2t.contains((node, t)));
                    assert(hover_names(nx.hover, t, node));
                } else {
                    assert(tagged_and_named(st, hover_nodes[i].0));
                    let t2 = choose|t2: TagId| st.n2t.contains((hover_nodes[i].0, t2)) && hover_names(st.hover, t2, hover_nodes[i].0);
                    let j2 = choose|j: int| 0 <= j < st.n2t.len() && st.n2t[j] == (hover_nodes[i].0, t2);
                    if t == t2 {
                        assert(st.n2t[jn].1 == st.n2t[j2].1);
                    }
                    lemma_hover_insert_names(st.hover, t, (node, g), t2, hover_nodes[i].0);
                    assert(nx.n2t.contains((hover_nodes[i].0, t2)));
                }
            }
            assert forall|k: int| st0.t2n.len() <= k < nx.t2n.len() implies hover_names(nx.hover, (#[trigger] nx.t2n[k]).0, nx.t2n[k].1) by {
                let e = st.t2n[k];
                assert(hover_names(st.hover, e.0, e.1));
                assert(st.n2t.contains((e.1, e.0)));
                let j2 = choose|j: int| 0 <= j < st.n2t.len() && st.n2t[j] == (e.1, e.0);
                if t == e.0 {
                    assert(st.n2t[jn].1 == st.n2t[j2].1);
                }
                lemma_hover_insert_names(st.hover, t, (node, g), e.0, e.1);
            }
        },
        None => {
            assert(nx.n2t == st.n2t.push((node, t)));
            assert(nx.t2n == st.t2n.push((t, node)));
            assert(nx.next == st.next + 1);
            assert forall|j: int| 0 <= j < nx.n2t.len() implies (#[trigger] nx.n2t[j]).1 < nx.next by {
                if j < st.n2t.len() {
                    assert(nx.n2t[j] == st.n2t[j]);
                }
            }
            assert forall|j: int| 0 <= j < nx.hover.len() implies (#[trigger] nx.hover[j]).0 < nx.next by {
                if nx.hover[j].0 != t {
                    let i = choose|i: int| 0 <= i < st.hover.len() && st.hover[i] == nx.hover[j];
                    assert(st.hover[i].0 < st.next);
                }
            }
            assert forall|i: int, j: int| 0 <= i < nx.n2t.len() && 0 <= j < nx.n2t.len() && nx.n2t[i].1 == nx.n2t[j].1 implies nx.n2t[i].0 == nx.n2t[j].0 by {
                if i < st.n2t.len() {
                    assert(nx.n2t[i] == st.n2t[i]);
                }
                if j < st.n2t.len() {
                    assert(nx.n2t[j] == st.n2t[j]);
                }
            }
            assert(nx.n2t[st.n2t.len() as int] == (node, t));
            assert forall|i: int| 0 <= i < n implies tagged_and_named(nx, (#[trigger] hover_nodes[i]).0) by {
                if i == n - 1 {
                    assert(nx.n2t.contains((node, t)));
                    assert(hover_names(nx.hover, t, node));
                } else {
                    assert(tagged_and_named(st, hover_nodes[i].0));
                    let t2 = choose|t2: TagId| st.n2t.contains((hover_nodes[i].0, t2)) && hover_names(st.hover, t2, hover_nodes[i].0);
                    let j2 = choose|j: int| 0 <= j < st.n2t.len() && st.n2t[j] == (hover_nodes[i].0, t2);
                    assert(st.n2t[j2].1 < st.next);
                    assert(nx.n2t[j2] == st.n2t[j2]);
                    lemma_hover_insert_names(st.hover, t, (node, g), t2, hover_nodes[i].0);
                    assert(nx.n2t.contains((hover_nodes[i].0, t2)));
                }
            }
            assert forall|k: int| st0.t2n.len() <= k < nx.t2n.len() implies hover_names(nx.hover, (#[trigger] nx.t2n[k]).0, nx.t2n[k].1) by {
                if k < st.t2n.len() {
                    let e = st.t2n[k];
                    assert(nx.t2n[k] == e);
                    assert(hover_names(st.hover, e.0, e.1));
                    assert(st.n2t.contains((e.1, e.0)));
                    let j2 = choose|j: int| 0 <= j < st.n2t.len() && st.n2t[j] == (e.1, e.0);
                    assert(st.n2t[j2].1 < st.next);
                    lemma_hover_insert_names(st.hover, t, (node, g), e.0, e.1);
                } else {
                    assert(nx.t2n[k] == (t, node));
                }
            }
        },
    }
}

/// The hover pass, started from tag maps that mirror each other, give no tag
/// to two nodes and use only tags below the counter, ends with every hover
/// node tagged and its tag's hover state naming it, and with the hover state
/// of every tag it made naming the tag's node.
pub proof fn lemma_hover_pass_tags_hover_nodes(st0: TagTables, hover_nodes: Seq<(NodeId, HoverGroup)>)
    requires
        st0.next + hover_nodes.len() <= usize::MAX,
        tags_below_next(st0),
        tags_injective(st0.n2t),
        tags_consistent(st0.n2t, st0.t2n),
    ensures
        ({
            let st = hover_pass(st0, hover_nodes, hover_nodes.len() as int);
            &&& forall|i: int|
                0 <= i < hover_nodes.len() ==> hover_tagged(st, (#[trigger] hover_nodes[i]).0)
            &&& forall|k: int|
                st0.t2n.len() <= k < st.t2n.len() ==> hover_names(st.hover, (#[trigger] st.t2n[k]).0, st.t2n[k].1)
        }),
{
    let n = hover_nodes.len() as int;
    lemma_hover_pass_done(st0, hover_nodes, n);
    let st = hover_pass(st0, hover_nodes, n);
    assert(hover_pass_done(st0, st, hover_nodes, n));
    assert forall|k: int| st0.t2n.len() <= k < st.t2n.len() implies hover_names(st.hover, (#[trigger] st.t2n[k]).0, st.t2n[k].1) by {}
    assert forall|i: int| 0 <= i < n implies hover_tagged(st, (#[trigger] hover_nodes[i]).0) by {
        assert(tagged_and_named(st, hover_nodes[i].0));
        let t = choose|t: TagId| st.n2t.contains((hover_nodes[i].0, t)) && hover_names(st.hover, t, hover_nodes[i].0);
        let j = choose|j: int| 0 <= j < st.n2t.len() && st.n2t[j] == (hover_nodes[i].0, t);
        assert(st.t2n.contains((st.n2t[j].1, st.n2t[j].0)));
    }
}

/// Tag assignment leaves what the hover pass needs: every tag lies below the
/// counter, and no tag belongs to two nodes.
pub proof fn lemma_tag_assignment_fresh_tags<C>(s: UiState<C>, nodes: Seq<NodeData<C>>)
    requires
        s.assigned_from(nodes),
        nodes.len() <= usize::MAX,
    ensures
        tags_below_next(s.tag_tables()),
        tags_injective(s.node_ids_to_tag_ids@),
{
    let n = nodes.len() as int;
    lemma_entries_paired(nodes, n);
    lemma_tag_entries_ordered(nodes, n);
    let a = s.node_ids_to_tag_ids@;
    let b = s.tag_ids_to_node_ids@;
    assert forall|j: int| 0 <= j < a.len() implies (#[trigger] a[j]).1 < s.next_tag_id by {
        assert(b[j] == (a[j].1, a[j].0));
    }
    assert forall|i: int, j: int| 0 <= i < a.len() && 0 <= j < a.len() && a[i].1 == a[j].1 implies a[i].0 == a[j].0 by {
        assert(b[i] == (a[i].1, a[i].0));
        assert(b[j] == (a[j].1, a[j].0));
        if i < j {
            assert(b[i].0 < b[j].0);
        } else if j < i {
            assert(b[j].0 < b[i].0);
        }
    }
}

} // verus!
