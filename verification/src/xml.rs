//! A small XML tree: the nodes of a document with their attributes, children
//! and text, built from the tokens of `xmlparser`.

use vstd::prelude::*;
use crate::sorted_map::{SortedMap, lookup};
use crate::text::{chars_of, push_all, push_str, string_from_chars, trim, trim_chars, starts_with, starts_with_chars, find_from, matches_at, find_chars_from, sub_chars, lemma_find_from};
use crate::collation::str_eq;
use crate::seq_lemmas::{lemma_filter_map_add, lemma_filter_map_keeps_all};
use xmlparser::ElementEnd as E;
use xmlparser::Token as T;
use xmlparser::Tokenizer;

verus! {

/// One XML element.
#[derive(Debug)]
pub struct XmlNode {
    /// The element's local name.
    pub node_type: String,
    /// Its attributes.
    pub attributes: SortedMap<String, String>,
    /// Its child elements, in document order.
    pub children: Vec<XmlNode>,
    /// Its text content, i.e. the `Hello` in `<p>Hello</p>`.
    pub text: Option<String>,
}

/// An element as values.
pub struct XmlNodeView {
    pub node_type: Seq<char>,
    pub attributes: Map<Seq<char>, Seq<char>>,
    pub children: Seq<XmlNodeView>,
    pub text: Option<Seq<char>>,
}

pub open spec fn opt_view(t: Option<String>) -> Option<Seq<char>> {
    match t {
        Some(s) => Some(s@),
        None => None,
    }
}

/// The attributes as a map from name to value.
pub open spec fn attrs_view(m: SortedMap<String, String>) -> Map<Seq<char>, Seq<char>> {
    Map::new(|k: Seq<char>| lookup(m.kv(), k) is Some, |k: Seq<char>| lookup(m.kv(), k)->0@)
}

pub open spec fn node_view(n: XmlNode) -> XmlNodeView
    decreases n, n.children@.len() + 1,
{
    XmlNodeView {
        node_type: n.node_type@,
        attributes: attrs_view(n.attributes),
        children: children_view(n, n.children@.len() as int),
        text: opt_view(n.text),
    }
}

/// The views of the first `k` children of `n`.
pub open spec fn children_view(n: XmlNode, k: int) -> Seq<XmlNodeView>
    decreases n, k,
{
    if k <= 0 || k > n.children@.len() {
        Seq::empty()
    } else {
        proof {
            assert(decreases_to!(n => n.children));
            assert(decreases_to!(n.children => n.children@));
            assert(decreases_to!(n.children@ => n.children@[k - 1]));
        }
        children_view(n, k - 1).push(node_view(n.children@[k - 1]))
    }
}


/// The nodes of `xml` that satisfy `p`, then, for each node of `xml` in
/// order, the same collected from its children.
pub open spec fn collect(xml: Seq<XmlNode>, p: spec_fn(XmlNode) -> bool) -> Seq<XmlNode>
    decreases xml, xml.len() + 1,
{
    xml.filter_map(|n: XmlNode| if p(n) { Some(n) } else { None }) + collect_children(
        xml,
        p,
        xml.len() as int,
    )
}

/// What `collect` gathers below the first `i` nodes of `xml`.
pub open spec fn collect_children(xml: Seq<XmlNode>, p: spec_fn(XmlNode) -> bool, i: int) -> Seq<
    XmlNode,
>
    decreases xml, i,
{
    if i <= 0 || i > xml.len() {
        Seq::empty()
    } else {
        proof {
            assert(decreases_to!(xml => xml[i - 1]));
            assert(decreases_to!(xml[i - 1] => xml[i - 1].children));
            assert(decreases_to!(xml[i - 1].children => xml[i - 1].children@));
        }
        collect_children(xml, p, i - 1) + collect(xml[i - 1].children@, p)
    }
}

/// Keeps the nodes that satisfy `p`.
pub open spec fn keep_if(p: spec_fn(XmlNode) -> bool) -> spec_fn(XmlNode) -> Option<XmlNode> {
    |n: XmlNode| if p(n) { Some(n) } else { None }
}

/// Collecting by a test gives the nodes of the whole tree, in the same order,
/// that pass the test.
pub proof fn lemma_collect_is_filtered_tree(xml: Seq<XmlNode>, p: spec_fn(XmlNode) -> bool)
    ensures
        collect(xml, p) == collect(xml, |n: XmlNode| true).filter_map(keep_if(p)),
    decreases xml, xml.len() + 1,
{
    let all = |n: XmlNode| true;
    lemma_collect_children_filtered(xml, p, xml.len() as int);
    lemma_filter_map_add(
        xml.filter_map(keep_if(all)),
        collect_children(xml, all, xml.len() as int),
        keep_if(p),
    );
    lemma_filter_map_keeps_all(xml, keep_if(all));
    assert(keep_if(all) == (|n: XmlNode| if all(n) { Some(n) } else { None }));
    assert(keep_if(p) == (|n: XmlNode| if p(n) { Some(n) } else { None }));
}

proof fn lemma_collect_children_filtered(xml: Seq<XmlNode>, p: spec_fn(XmlNode) -> bool, i: int)
    ensures
        collect_children(xml, p, i) == collect_children(xml, |n: XmlNode| true, i).filter_map(
            keep_if(p),
        ),
    decreases xml, i,
{
    let all = |n: XmlNode| true;
    if i <= 0 || i > xml.len() {
        assert(Seq::<XmlNode>::empty().filter_map(keep_if(p)) =~= Seq::<XmlNode>::empty());
    } else {
        assert(decreases_to!(xml => xml[i - 1]));
        assert(decreases_to!(xml[i - 1] => xml[i - 1].children));
        assert(decreases_to!(xml[i - 1].children => xml[i - 1].children@));
        lemma_collect_children_filtered(xml, p, i - 1);
        lemma_collect_is_filtered_tree(xml[i - 1].children@, p);
        lemma_filter_map_add(
            collect_children(xml, all, i - 1),
            collect(xml[i - 1].children@, all),
            keep_if(p),
        );
    }
}

/// The nodes of one type found in a forest are those of the whole forest,
/// in the same order, that have that type.
pub proof fn lemma_subtree_is_filtered_tree(xml: Seq<XmlNode>, t: Seq<char>)
    ensures
        collect(xml, |n: XmlNode| n.node_type@ == t) == collect(xml, |n: XmlNode| true).filter_map(
            |n: XmlNode| if n.node_type@ == t { Some(n) } else { None },
        ),
{
    let p = |n: XmlNode| n.node_type@ == t;
    lemma_collect_is_filtered_tree(xml, p);
    assert(keep_if(p) == (|n: XmlNode| if n.node_type@ == t { Some(n) } else { None }));
}

pub open spec fn deref_all(v: Seq<&XmlNode>) -> Seq<XmlNode> {
    v.map_values(|r: &XmlNode| *r)
}

/// A test on nodes.
pub trait NodeMatcher {
    spec fn well_behaved(&self) -> bool;

    spec fn spec_matches(&self, n: XmlNode) -> bool;

    fn matches(&self, n: &XmlNode) -> (b: bool)
        requires
            self.well_behaved(),
        ensures
            b == self.spec_matches(*n),
    ;
}

/// Nodes of one type.
pub struct NodeTypeIs<'a> {
    pub node_type: &'a str,
}

impl<'a> NodeMatcher for NodeTypeIs<'a> {
    open spec fn well_behaved(&self) -> bool {
        true
    }

    open spec fn spec_matches(&self, n: XmlNode) -> bool {
        n.node_type@ == self.node_type@
    }

    fn matches(&self, n: &XmlNode) -> (b: bool) {
        str_eq(n.node_type.as_str(), self.node_type)
    }
}

/// Every node.
pub struct AnyNode;

impl NodeMatcher for AnyNode {
    open spec fn well_behaved(&self) -> bool {
        true
    }

    open spec fn spec_matches(&self, n: XmlNode) -> bool {
        true
    }

    fn matches(&self, n: &XmlNode) -> (b: bool) {
        true
    }
}

/// A closure that gives one answer per node.
pub struct ClosureMatcher<'f, F> {
    pub f: &'f F,
}

/// The closure can be called on every node and never answers both ways.
pub open spec fn closure_deterministic<F: Fn(&XmlNode) -> bool>(f: &F) -> bool {
    &&& forall|n: &XmlNode| #[trigger] f.requires((n,))
    &&& forall|n: &XmlNode| !(#[trigger] f.ensures((n,), true) && f.ensures((n,), false))
}

impl<'f, F: Fn(&XmlNode) -> bool> NodeMatcher for ClosureMatcher<'f, F> {
    open spec fn well_behaved(&self) -> bool {
        closure_deterministic(self.f)
    }

    open spec fn spec_matches(&self, n: XmlNode) -> bool {
        self.f.ensures((&n,), true)
    }

    fn matches(&self, n: &XmlNode) -> (b: bool) {
        let b = (self.f)(n);
        b
    }
}

fn collect_into<'a, M: NodeMatcher>(xml: &'a [XmlNode], m: &M, target: &mut Vec<&'a XmlNode>)
    requires
        m.well_behaved(),
    ensures
        deref_all(final(target)@) == deref_all(old(target)@) + collect(
            xml@,
            |n: XmlNode| m.spec_matches(n),
        ),
    decreases xml@,
{
    let ghost p = |n: XmlNode| m.spec_matches(n);
    let mut found: Vec<&'a XmlNode> = Vec::new();
    let mut i: usize = 0;
    while i < xml.len()
        invariant
            i <= xml@.len(),
            m.well_behaved(),
            p == (|n: XmlNode| m.spec_matches(n)),
            deref_all(found@) == xml@.take(i as int).filter_map(
                |n: XmlNode| if p(n) { Some(n) } else { None },
            ),
        decreases xml.len() - i,
    {
        let node = &xml[i];
        proof {
            xml@.lemma_filter_map_take_succ(|n: XmlNode| if p(n) { Some(n) } else { None }, i as int);
        }
        if m.matches(node) {
            let ghost old_found = found@;
            found.push(node);
            assert(deref_all(found@) =~= deref_all(old_found).push(*node));
        }
        i = i + 1;
    }
    assert(xml@.take(xml@.len() as int) =~= xml@);
    let mut j: usize = 0;
    while j < xml.len()
        invariant
            j <= xml@.len(),
            m.well_behaved(),
            p == (|n: XmlNode| m.spec_matches(n)),
            deref_all(found@) == xml@.filter_map(|n: XmlNode| if p(n) { Some(n) } else { None })
                + collect_children(xml@, p, j as int),
        decreases xml.len() - j,
    {
        proof {
            assert(decreases_to!(xml@ => xml@[j as int]));
            assert(decreases_to!(xml@[j as int] => xml@[j as int].children));
            assert(decreases_to!(xml@[j as int].children => xml@[j as int].children@));
        }
        let ghost before = found@;
        collect_into(xml[j].children.as_slice(), m, &mut found);
        assert(collect_children(xml@, p, j + 1) == collect_children(xml@, p, j as int) + collect(
            xml@[j as int].children@,
            p,
        ));
        j = j + 1;
    }
    let ghost old_t = target@;
    let mut k: usize = 0;
    while k < found.len()
        invariant
            k <= found@.len(),
            deref_all(target@) == deref_all(old_t) + deref_all(found@).take(k as int),
        decreases found.len() - k,
    {
        let ghost before = target@;
        target.push(found[k]);
        assert(deref_all(target@) =~= deref_all(before).push(*found@[k as int]));
        assert(deref_all(found@).take(k + 1) =~= deref_all(found@).take(k as int).push(
            *found@[k as int],
        ));
        k = k + 1;
    }
    assert(deref_all(found@).take(found@.len() as int) =~= deref_all(found@));
}

/// All nodes of the forest (at any depth) of the given type.
pub fn get_all_nodes_in_subtree<'a>(xml: &'a [XmlNode], node_type_searched: &'static str) -> (r: Vec<
    &'a XmlNode,
>)
    ensures
        deref_all(r@) == collect(xml@, |n: XmlNode| n.node_type@ == node_type_searched@),
{
    let m = NodeTypeIs { node_type: node_type_searched };
    let mut nodes: Vec<&'a XmlNode> = Vec::new();
    collect_into(xml, &m, &mut nodes);
    assert(deref_all(Seq::<&XmlNode>::empty()) =~= Seq::<XmlNode>::empty());
    assert((|n: XmlNode| m.spec_matches(n)) == (|n: XmlNode| n.node_type@ == node_type_searched@));
    nodes
}

/// All nodes of the forest, at any depth.
pub fn get_all_nodes_in_tree<'a>(xml: &'a [XmlNode]) -> (r: Vec<&'a XmlNode>)
    ensures
        deref_all(r@) == collect(xml@, |n: XmlNode| true),
{
    let m = AnyNode;
    let mut nodes: Vec<&'a XmlNode> = Vec::new();
    collect_into(xml, &m, &mut nodes);
    assert(deref_all(Seq::<&XmlNode>::empty()) =~= Seq::<XmlNode>::empty());
    assert((|n: XmlNode| m.spec_matches(n)) == (|n: XmlNode| true));
    nodes
}

/// All nodes of the forest, at any depth, for which `search_fn` answers `true`.
pub fn get_all_nodes_in_subtree_comparator<'a, F: Fn(&XmlNode) -> bool>(
    xml: &'a [XmlNode],
    search_fn: F,
) -> (r: Vec<&'a XmlNode>)
    requires
        closure_deterministic(&search_fn),
    ensures
        deref_all(r@) == collect(xml@, |n: XmlNode| search_fn.ensures((&n,), true)),
{
    let mut nodes: Vec<&'a XmlNode> = Vec::new();
    get_all_nodes_in_subtree_comparator_internal(xml, &search_fn, &mut nodes);
    assert(deref_all(Seq::<&XmlNode>::empty()) =~= Seq::<XmlNode>::empty());
    nodes
}

/// Appends to `target` the nodes that `get_all_nodes_in_subtree_comparator` finds.
pub fn get_all_nodes_in_subtree_comparator_internal<'a, F: Fn(&XmlNode) -> bool>(
    xml: &'a [XmlNode],
    search_fn: &F,
    target: &mut Vec<&'a XmlNode>,
)
    requires
        closure_deterministic(search_fn),
    ensures
        deref_all(final(target)@) == deref_all(old(target)@) + collect(
            xml@,
            |n: XmlNode| search_fn.ensures((&n,), true),
        ),
{
    let m = ClosureMatcher { f: search_fn };
    collect_into(xml, &m, target);
    assert((|n: XmlNode| m.spec_matches(n)) == (|n: XmlNode| search_fn.ensures((&n,), true)));
}


/// A closure whose answer on each node is a given predicate of it.
pub struct PredicateMatcher<'f, F> {
    pub f: &'f F,
    pub p: Ghost<spec_fn(XmlNode) -> bool>,
}

/// The closure can be called on every node and answers `p` of it.
pub open spec fn closure_answers<F: Fn(&XmlNode) -> bool>(f: &F, p: spec_fn(XmlNode) -> bool) -> bool {
    &&& forall|n: &XmlNode| #[trigger] f.requires((n,))
    &&& forall|n: &XmlNode, b: bool| #[trigger] f.ensures((n,), b) ==> b == p(*n)
}

impl<'f, F: Fn(&XmlNode) -> bool> NodeMatcher for PredicateMatcher<'f, F> {
    open spec fn well_behaved(&self) -> bool {
        closure_answers(self.f, self.p@)
    }

    open spec fn spec_matches(&self, n: XmlNode) -> bool {
        (self.p@)(n)
    }

    fn matches(&self, n: &XmlNode) -> (b: bool) {
        let b = (self.f)(n);
        b
    }
}

/// All nodes of the forest, at any depth, for which `search_fn` answers
/// `true`, where its answer on each node is `p` of the node.
pub fn get_all_nodes_in_subtree_by<'a, F: Fn(&XmlNode) -> bool>(
    xml: &'a [XmlNode],
    search_fn: F,
    Ghost(p): Ghost<spec_fn(XmlNode) -> bool>,
) -> (r: Vec<&'a XmlNode>)
    requires
        closure_answers(&search_fn, p),
    ensures
        deref_all(r@) == collect(xml@, p),
{
    let m = PredicateMatcher { f: &search_fn, p: Ghost(p) };
    let mut nodes: Vec<&'a XmlNode> = Vec::new();
    collect_into(xml, &m, &mut nodes);
    assert(deref_all(Seq::<&XmlNode>::empty()) =~= Seq::<XmlNode>::empty());
    assert((|n: XmlNode| m.spec_matches(n)) =~= p);
    nodes
}

/// Searching with a test that answers whether a node has type `t` finds
/// the same nodes as the search by type `t`.
pub proof fn lemma_search_by_type_test(xml: Seq<XmlNode>, t: Seq<char>, p: spec_fn(XmlNode) -> bool)
    requires
        forall|n: XmlNode| #[trigger] p(n) == (n.node_type@ == t),
    ensures
        collect(xml, p) == collect(xml, |n: XmlNode| n.node_type@ == t),
{
    assert(p =~= (|n: XmlNode| n.node_type@ == t));
}

pub open spec fn children_of_type(n: XmlNode, t: Seq<char>) -> Seq<XmlNode> {
    n.children@.filter_map(|c: XmlNode| if c.node_type@ == t { Some(c) } else { None })
}

/// The children of type `t` of the nodes of `level`, in order.
pub open spec fn step_level(level: Seq<XmlNode>, t: Seq<char>) -> Seq<XmlNode>
    decreases level.len(),
{
    if level.len() == 0 {
        Seq::empty()
    } else {
        step_level(level.drop_last(), t) + children_of_type(level.last(), t)
    }
}

/// Descends one type after another while that finds nodes; stops at the
/// last level that was not empty.
pub open spec fn select_from(level: Seq<XmlNode>, types: Seq<Seq<char>>) -> Seq<XmlNode>
    decreases types.len(),
{
    if types.len() == 0 {
        level
    } else {
        let nxt = step_level(level, types[0]);
        if nxt.len() == 0 {
            level
        } else {
            select_from(nxt, types.drop_first())
        }
    }
}

pub open spec fn str_views(v: Seq<&str>) -> Seq<Seq<char>> {
    v.map_values(|t: &str| t@)
}

impl XmlNode {
    /// The direct children of the given type.
    pub fn get_all_children_of_type<'a>(&'a self, node_type: &str) -> (r: Vec<&'a XmlNode>)
        ensures
            deref_all(r@) == children_of_type(*self, node_type@),
    {
        let mut r: Vec<&'a XmlNode> = Vec::new();
        let mut i: usize = 0;
        while i < self.children.len()
            invariant
                i <= self.children@.len(),
                deref_all(r@) == self.children@.take(i as int).filter_map(
                    |c: XmlNode| if c.node_type@ == node_type@ { Some(c) } else { None },
                ),
            decreases self.children.len() - i,
        {
            proof {
                self.children@.lemma_filter_map_take_succ(
                    |c: XmlNode| if c.node_type@ == node_type@ { Some(c) } else { None },
                    i as int,
                );
            }
            let c = &self.children[i];
            if str_eq(c.node_type.as_str(), node_type) {
                let ghost before = r@;
                r.push(c);
                assert(deref_all(r@) =~= deref_all(before).push(*c));
            }
            i = i + 1;
        }
        assert(self.children@.take(self.children@.len() as int) =~= self.children@);
        r
    }

    /// Follows the path of node types from this node down, level by level:
    /// the nodes reached at the last level where the next type still matched.
    pub fn select_subitems<'a>(&'a self, node_types: &[&str]) -> (r: Vec<&'a XmlNode>)
        ensures
            node_types@.len() == 0 ==> r@.len() == 0,
            node_types@.len() > 0 ==> deref_all(r@) == select_from(
                seq![*self],
                str_views(node_types@),
            ),
    {
        if node_types.len() == 0 {
            return Vec::new();
        }
        let mut level: Vec<&'a XmlNode> = Vec::new();
        level.push(self);
        assert(deref_all(level@) =~= seq![*self]);
        let ghost types = str_views(node_types@);
        let mut ti: usize = 0;
        assert(types.skip(0) =~= types);
        while ti < node_types.len()
            invariant
                ti <= node_types@.len(),
                types == str_views(node_types@),
                deref_all(level@).len() > 0,
                select_from(seq![*self], types) == select_from(deref_all(level@), types.skip(ti as int)),
            decreases node_types.len() - ti,
        {
            let t = node_types[ti];
            let mut next: Vec<&'a XmlNode> = Vec::new();
            let mut li: usize = 0;
            while li < level.len()
                invariant
                    li <= level@.len(),
                    deref_all(next@) == step_level(deref_all(level@).take(li as int), t@),
                decreases level.len() - li,
            {
                let n = level[li];
                let cs = n.get_all_children_of_type(t);
                let mut ci: usize = 0;
                let ghost base = deref_all(next@);
                while ci < cs.len()
                    invariant
                        ci <= cs@.len(),
                        deref_all(next@) == base + deref_all(cs@).take(ci as int),
                    decreases cs.len() - ci,
                {
                    let ghost before = next@;
                    next.push(cs[ci]);
                    assert(deref_all(next@) =~= deref_all(before).push(*cs@[ci as int]));
                    assert(deref_all(cs@).take(ci + 1) =~= deref_all(cs@).take(ci as int).push(
                        *cs@[ci as int],
                    ));
                    ci = ci + 1;
                }
                assert(deref_all(cs@).take(cs@.len() as int) =~= deref_all(cs@));
                assert(deref_all(level@).take(li + 1).drop_last() =~= deref_all(level@).take(
                    li as int,
                ));
                li = li + 1;
            }
            assert(deref_all(level@).take(level@.len() as int) =~= deref_all(level@));
            assert(types.skip(ti as int)[0] == t@);
            assert(types.skip(ti as int).drop_first() =~= types.skip(ti + 1));
            if next.len() == 0 {
                return level;
            }
            level = next;
            ti = ti + 1;
        }
        assert(types.skip(node_types@.len() as int).len() == 0);
        level
    }
}


// ---------------------------------------------------------------------------
// Building the tree
// ---------------------------------------------------------------------------

pub proof fn lemma_children_view(n: XmlNode, k: int)
    requires
        0 <= k <= n.children@.len(),
    ensures
        children_view(n, k).len() == k,
        forall|j: int| 0 <= j < k ==> #[trigger] children_view(n, k)[j] == node_view(n.children@[j]),
    decreases k,
{
    if k > 0 {
        lemma_children_view(n, k - 1);
    }
}

/// The children of a node are the views of its child nodes.
pub proof fn lemma_node_children(n: XmlNode)
    ensures
        node_view(n).children =~= n.children@.map_values(|c: XmlNode| node_view(c)),
{
    lemma_children_view(n, n.children@.len() as int);
}

/// A change made to one node of a tree.
pub enum XmlEditView {
    AddChild(XmlNodeView),
    SetAttribute(Seq<char>, Seq<char>),
    AppendText(Seq<char>),
}

pub open spec fn apply_edit(v: XmlNodeView, e: XmlEditView) -> XmlNodeView {
    match e {
        XmlEditView::AddChild(c) => XmlNodeView {
            node_type: v.node_type,
            attributes: v.attributes,
            children: v.children.push(c),
            text: v.text,
        },
        XmlEditView::SetAttribute(k, x) => XmlNodeView {
            node_type: v.node_type,
            attributes: v.attributes.insert(k, x),
            children: v.children,
            text: v.text,
        },
        XmlEditView::AppendText(t) => XmlNodeView {
            node_type: v.node_type,
            attributes: v.attributes,
            children: v.children,
            text: Some(
                match v.text {
                    Some(s) => s + t,
                    None => t,
                },
            ),
        },
    }
}

/// The node reached from `v` by following child indices.
pub open spec fn node_at(v: XmlNodeView, path: Seq<usize>) -> Option<XmlNodeView>
    decreases path.len(),
{
    if path.len() == 0 {
        Some(v)
    } else if path[0] < v.children.len() {
        node_at(v.children[path[0] as int], path.drop_first())
    } else {
        None
    }
}

/// `v` with the edit made at the node that `path` reaches (unchanged if none).
pub open spec fn edit_at(v: XmlNodeView, path: Seq<usize>, e: XmlEditView) -> XmlNodeView
    decreases path.len(),
{
    if path.len() == 0 {
        apply_edit(v, e)
    } else if path[0] < v.children.len() {
        XmlNodeView {
            node_type: v.node_type,
            attributes: v.attributes,
            children: v.children.update(
                path[0] as int,
                edit_at(v.children[path[0] as int], path.drop_first(), e),
            ),
            text: v.text,
        }
    } else {
        v
    }
}

enum XmlEdit {
    AddChild(XmlNode),
    SetAttribute(String, String),
    AppendText(String),
}

spec fn edit_view(e: XmlEdit) -> XmlEditView {
    match e {
        XmlEdit::AddChild(c) => XmlEditView::AddChild(node_view(c)),
        XmlEdit::SetAttribute(k, x) => XmlEditView::SetAttribute(k@, x@),
        XmlEdit::AppendText(t) => XmlEditView::AppendText(t@),
    }
}

fn apply_edit_exec(n: &mut XmlNode, e: XmlEdit)
    ensures
        node_view(*final(n)) == apply_edit(node_view(*old(n)), edit_view(e)),
{
    proof {
        lemma_node_children(*old(n));
    }
    match e {
        XmlEdit::AddChild(c) => {
            n.children.push(c);
            proof {
                lemma_node_children(*n);
                assert(node_view(*n).children =~= node_view(*old(n)).children.push(node_view(c)));
            }
        },
        XmlEdit::SetAttribute(k, x) => {
            let ghost kv = k@;
            let ghost xv = x@;
            n.attributes.insert(k, x);
            proof {
                lemma_node_children(*n);
                assert(attrs_view(n.attributes) =~= attrs_view(old(n).attributes).insert(kv, xv));
            }
        },
        XmlEdit::AppendText(t) => {
            let new_text = match &n.text {
                Some(s) => {
                    let mut w = chars_of(s.as_str());
                    push_str(&mut w, t.as_str());
                    string_from_chars(w.as_slice())
                },
                None => t,
            };
            n.text = Some(new_text);
            proof {
                lemma_node_children(*n);
            }
        },
    }
}

fn edit_at_exec(n: &mut XmlNode, path: &Vec<usize>, d: usize, e: XmlEdit) -> (found: bool)
    requires
        d <= path@.len(),
    ensures
        node_view(*final(n)) == edit_at(node_view(*old(n)), path@.skip(d as int), edit_view(e)),
        found == node_at(node_view(*old(n)), path@.skip(d as int)) is Some,
    decreases path@.len() - d,
{
    proof {
        lemma_node_children(*old(n));
    }
    if d == path.len() {
        assert(path@.skip(d as int).len() == 0);
        apply_edit_exec(n, e);
        return true;
    }
    let i = path[d];
    assert(path@.skip(d as int)[0] == i);
    assert(path@.skip(d as int).drop_first() =~= path@.skip(d + 1));
    if i < n.children.len() {
        let mut c = n.children.remove(i);
        let ghost c_old = c;
        let r = edit_at_exec(&mut c, path, d + 1, e);
        n.children.insert(i, c);
        proof {
            lemma_node_children(*n);
            assert(node_view(*n).children =~= node_view(*old(n)).children.update(
                i as int,
                node_view(c),
            ));
        }
        r
    } else {
        false
    }
}

/// The type of the node that a path reaches.
fn type_at(n: &XmlNode, path: &Vec<usize>, d: usize) -> (r: Option<String>)
    requires
        d <= path@.len(),
    ensures
        match node_at(node_view(*n), path@.skip(d as int)) {
            Some(v) => r matches Some(t) && t@ == v.node_type,
            None => r is None,
        },
    decreases path@.len() - d,
{
    proof {
        lemma_node_children(*n);
    }
    if d == path.len() {
        assert(path@.skip(d as int).len() == 0);
        return Some(n.node_type.clone());
    }
    let i = path[d];
    assert(path@.skip(d as int)[0] == i);
    assert(path@.skip(d as int).drop_first() =~= path@.skip(d + 1));
    if i < n.children.len() {
        type_at(&n.children[i], path, d + 1)
    } else {
        None
    }
}

/// The number of children of the node that a path reaches.
fn child_count_at(n: &XmlNode, path: &Vec<usize>, d: usize) -> (r: Option<usize>)
    requires
        d <= path@.len(),
    ensures
        match node_at(node_view(*n), path@.skip(d as int)) {
            Some(v) => r == Some(v.children.len() as usize),
            None => r is None,
        },
    decreases path@.len() - d,
{
    proof {
        lemma_node_children(*n);
    }
    if d == path.len() {
        assert(path@.skip(d as int).len() == 0);
        return Some(n.children.len());
    }
    let i = path[d];
    assert(path@.skip(d as int)[0] == i);
    assert(path@.skip(d as int).drop_first() =~= path@.skip(d + 1));
    if i < n.children.len() {
        child_count_at(&n.children[i], path, d + 1)
    } else {
        None
    }
}


// ---------------------------------------------------------------------------
// Parsing
// ---------------------------------------------------------------------------

#[verifier::external_type_specification]
#[verifier::external_body]
pub struct ExXmlError(xmlparser::Error);

/// Why a text is no XML forest.
#[derive(Debug)]
pub enum XmlParseError {
    /// The tokenizer refused the text.
    ParseError(xmlparser::Error),
    /// A closing tag (first) that does not close the open element (second),
    /// or a declaration without its end.
    MalformedHierarchy(String, String),
}

/// The tokens of the text that the tree is built from.
pub enum XmlToken {
    ElementStart(String),
    EmptyEnd,
    CloseEnd(String),
    Attribute(String, String),
    Text(String),
    Other,
}

pub enum XmlTokenView {
    ElementStart(Seq<char>),
    EmptyEnd,
    CloseEnd(Seq<char>),
    Attribute(Seq<char>, Seq<char>),
    Text(Seq<char>),
    Other,
}

impl View for XmlToken {
    type V = XmlTokenView;

    open spec fn view(&self) -> XmlTokenView {
        match self {
            XmlToken::ElementStart(l) => XmlTokenView::ElementStart(l@),
            XmlToken::EmptyEnd => XmlTokenView::EmptyEnd,
            XmlToken::CloseEnd(l) => XmlTokenView::CloseEnd(l@),
            XmlToken::Attribute(k, v) => XmlTokenView::Attribute(k@, v@),
            XmlToken::Text(t) => XmlTokenView::Text(t@),
            XmlToken::Other => XmlTokenView::Other,
        }
    }
}

pub open spec fn token_views(v: Seq<XmlToken>) -> Seq<XmlTokenView> {
    v.map_values(|t: XmlToken| t@)
}

/// What `xmlparser`'s fragment tokenizer yields for a text: the tokens up to
/// its first error, and whether there was an error.
pub uninterp spec fn xml_fragment_tokens(text: Seq<char>) -> (Seq<XmlTokenView>, bool);

/// Runs `xmlparser::Tokenizer::from_fragment` over the whole text. Each
/// token becomes an `XmlToken` by its local name, value or text (element
/// starts, `/>` and `</..>` ends, attributes and text; every other token
/// is `Other`); the first error ends the run and is returned with the tokens
/// before it. The contract names that result: it depends on the text alone.
#[verifier::external_body]
fn tokenize_fragment(xml: &str) -> (r: (Vec<XmlToken>, Option<xmlparser::Error>))
    ensures
        (token_views(r.0@), r.1 is Some) == xml_fragment_tokens(xml@),
{
    let mut v = Vec::new();
    for t in Tokenizer::from_fragment(xml, 0..xml.len()) {
        v.push(match t {
            Err(e) => return (v, Some(e)),
            Ok(T::ElementStart { local, .. }) => XmlToken::ElementStart(local.to_string()),
            Ok(T::ElementEnd { end: E::Empty, .. }) => XmlToken::EmptyEnd,
            Ok(T::ElementEnd { end: E::Close(_, l), .. }) => XmlToken::CloseEnd(l.to_string()),
            Ok(T::Attribute { local, value, .. }) => XmlToken::Attribute(local.to_string(), value.to_string()),
            Ok(T::Text { text }) => XmlToken::Text(text.to_string()),
            Ok(_) => XmlToken::Other,
        });
    }
    (v, None)
}

pub open spec fn empty_node(t: Seq<char>) -> XmlNodeView {
    XmlNodeView { node_type: t, attributes: Map::empty(), children: Seq::empty(), text: None }
}

pub open spec fn pop_path(h: Seq<usize>) -> Seq<usize> {
    if h.len() > 0 {
        h.drop_last()
    } else {
        h
    }
}

/// One token: a start tag adds a child to the open element and opens it; a
/// `/>` or `</..>` closes the open element (a closing tag must name it); an
/// attribute is set on the open element; trimmed non-empty text is appended
/// to the open element's text.
pub open spec fn xml_step(root: XmlNodeView, hier: Seq<usize>, tok: XmlTokenView) -> Result<
    (XmlNodeView, Seq<usize>),
    (Seq<char>, Seq<char>),
> {
    match tok {
        XmlTokenView::ElementStart(l) => match node_at(root, hier) {
            Some(p) => Ok(
                (
                    edit_at(root, hier, XmlEditView::AddChild(empty_node(l))),
                    hier.push(p.children.len() as usize),
                ),
            ),
            None => Ok((root, hier)),
        },
        XmlTokenView::EmptyEnd => Ok((root, pop_path(hier))),
        XmlTokenView::CloseEnd(l) => match node_at(root, hier) {
            Some(last) => if last.node_type != l {
                Err((l, last.node_type))
            } else {
                Ok((root, pop_path(hier)))
            },
            None => Ok((root, pop_path(hier))),
        },
        XmlTokenView::Attribute(k, v) => Ok(
            (edit_at(root, hier, XmlEditView::SetAttribute(k, v)), hier),
        ),
        XmlTokenView::Text(t) => if trim(t).len() == 0 {
            Ok((root, hier))
        } else {
            Ok((edit_at(root, hier, XmlEditView::AppendText(trim(t))), hier))
        },
        XmlTokenView::Other => Ok((root, hier)),
    }
}

pub open spec fn xml_run(root: XmlNodeView, hier: Seq<usize>, toks: Seq<XmlTokenView>) -> Result<
    XmlNodeView,
    (Seq<char>, Seq<char>),
>
    decreases toks.len(),
{
    if toks.len() == 0 {
        Ok(root)
    } else {
        match xml_step(root, hier, toks[0]) {
            Err(e) => Err(e),
            Ok((r, h)) => xml_run(r, h, toks.drop_first()),
        }
    }
}

pub open spec fn nodes_view(v: Seq<XmlNode>) -> Seq<XmlNodeView> {
    v.map_values(|n: XmlNode| node_view(n))
}


fn new_node(t: String) -> (n: XmlNode)
    ensures
        node_view(n) == empty_node(t@),
{
    let n = XmlNode { node_type: t, attributes: SortedMap::new(), children: Vec::new(), text: None };
    proof {
        lemma_node_children(n);
        assert(attrs_view(n.attributes) =~= Map::<Seq<char>, Seq<char>>::empty());
    }
    n
}

fn copy_string(s: &String) -> (r: String)
    ensures
        r@ == s@,
{
    s.clone()
}

/// Builds the forest from the tokens, under a root element without a type:
/// `Err((closing, open))` for a closing tag that does not close the open
/// element.
pub fn build_tree(toks: &Vec<XmlToken>) -> (r: Result<XmlNode, (String, String)>)
    ensures
        match xml_run(empty_node(Seq::empty()), Seq::empty(), token_views(toks@)) {
            Ok(root) => r matches Ok(n) && node_view(n) == root,
            Err((a, b)) => r matches Err((x, y)) && x@ == a && y@ == b,
        },
{
    let mut root = new_node(String::new());
    let mut hier: Vec<usize> = Vec::new();
    let ghost all = token_views(toks@);
    let mut i: usize = 0;
    assert(all.skip(0) =~= all);
    while i < toks.len()
        invariant
            i <= toks@.len(),
            all == token_views(toks@),
            xml_run(empty_node(Seq::empty()), Seq::empty(), all) == xml_run(
                node_view(root),
                hier@,
                all.skip(i as int),
            ),
        decreases toks.len() - i,
    {
        assert(all.skip(i as int)[0] == toks@[i as int]@);
        assert(all.skip(i as int).drop_first() =~= all.skip(i + 1));
        match &toks[i] {
            XmlToken::ElementStart(l) => {
                match child_count_at(&root, &hier, 0) {
                    Some(c) => {
                        assert(hier@.skip(0) =~= hier@);
                        let child = new_node(copy_string(l));
                        edit_at_exec(&mut root, &hier, 0, XmlEdit::AddChild(child));
                        hier.push(c);
                    },
                    None => {
                        assert(hier@.skip(0) =~= hier@);
                    },
                }
            },
            XmlToken::EmptyEnd => {
                hier.pop();
            },
            XmlToken::CloseEnd(l) => {
                assert(hier@.skip(0) =~= hier@);
                match type_at(&root, &hier, 0) {
                    Some(t) => {
                        if !str_eq(t.as_str(), l.as_str()) {
                            return Err((copy_string(l), t));
                        }
                    },
                    None => {},
                }
                hier.pop();
            },
            XmlToken::Attribute(k, v) => {
                assert(hier@.skip(0) =~= hier@);
                edit_at_exec(
                    &mut root,
                    &hier,
                    0,
                    XmlEdit::SetAttribute(copy_string(k), copy_string(v)),
                );
            },
            XmlToken::Text(t) => {
                let tc = chars_of(t.as_str());
                let tt = trim_chars(&tc);
                if tt.len() > 0 {
                    assert(hier@.skip(0) =~= hier@);
                    edit_at_exec(
                        &mut root,
                        &hier,
                        0,
                        XmlEdit::AppendText(string_from_chars(tt.as_slice())),
                    );
                }
            },
            XmlToken::Other => {},
        }
        i = i + 1;
    }
    Ok(root)
}


/// Strips a leading declaration `<?..?>` and then a leading `<!..>`
/// (trimming first each time); `Err` names a declaration without its end.
pub open spec fn prepare_fragment(x: Seq<char>) -> Result<Seq<char>, (Seq<char>, Seq<char>)> {
    let t1 = trim(x);
    let a: Result<Seq<char>, (Seq<char>, Seq<char>)> = if starts_with(t1, "<?"@) {
        match find_from(t1, "?>"@, 0) {
            Some(p) => Ok(t1.subrange(p + 2, t1.len() as int)),
            None => Err(("<?xml"@, "?>"@)),
        }
    } else {
        Ok(t1)
    };
    match a {
        Err(e) => Err(e),
        Ok(t) => {
            let t2 = trim(t);
            if starts_with(t2, "<!"@) {
                match find_from(t2, ">"@, 0) {
                    Some(p) => Ok(t2.subrange(p + 1, t2.len() as int)),
                    None => Err(("<!doctype"@, ">"@)),
                }
            } else {
                Ok(t2)
            }
        },
    }
}

/// Removes everything up to and including the first occurrence of `close`
/// when `t` starts with `open`.
fn skip_declaration(t: &Vec<char>, open: &str, close: &str) -> (r: Option<Vec<char>>)
    ensures
        starts_with(t@, open@) ==> match find_from(t@, close@, 0) {
            Some(p) => r matches Some(v) && v@ == t@.subrange(p + close@.len(), t@.len() as int),
            None => r is None,
        },
        !starts_with(t@, open@) ==> (r matches Some(v) && v@ == t@),
{
    let o = chars_of(open);
    let c = chars_of(close);
    if !starts_with_chars(t, &o) {
        return Some(sub_chars(t, 0, t.len()));
    }
    match find_chars_from(t, &c, 0) {
        Some(p) => {
            proof {
                lemma_find_from(t@, c@, 0);
                assert(matches_at(t@, c@, p as int));
                assert(p + c@.len() <= t@.len());
            }
            let tl = t.len();
            let cl = c.len();
            let e = p + cl;
            Some(sub_chars(t, e, tl))
        },
        None => None,
    }
}

/// Reads an XML text into its forest of elements: a leading declaration and
/// doctype are skipped; element names, attributes and trimmed text are kept.
pub fn parse_xml_string(xml: &str, log: &mut Vec<String>) -> (r: Result<Vec<XmlNode>, XmlParseError>)
    ensures
        final(log)@ == old(log)@,
        match prepare_fragment(xml@) {
            Err((a, b)) => r matches Err(XmlParseError::MalformedHierarchy(x, y)) && x@ == a && y@
                == b,
            Ok(frag) => match xml_run(
                empty_node(Seq::empty()),
                Seq::empty(),
                xml_fragment_tokens(frag).0,
            ) {
                Err((a, b)) => r matches Err(XmlParseError::MalformedHierarchy(x, y)) && x@ == a
                    && y@ == b,
                Ok(root) => if xml_fragment_tokens(frag).1 {
                    r matches Err(XmlParseError::ParseError(_))
                } else {
                    r matches Ok(v) && nodes_view(v@) == root.children
                },
            },
        },
{
    let x = chars_of(xml);
    let t1 = trim_chars(&x);
    let t = match skip_declaration(&t1, "<?", "?>") {
        Some(t) => t,
        None => {
            proof {
                reveal_strlit("?>");
            }
            return Err(
                XmlParseError::MalformedHierarchy(
                    crate::text::to_string("<?xml"),
                    crate::text::to_string("?>"),
                ),
            );
        },
    };
    let t2 = trim_chars(&t);
    let frag = match skip_declaration(&t2, "<!", ">") {
        Some(f) => f,
        None => {
            proof {
                reveal_strlit("?>");
            }
            return Err(
                XmlParseError::MalformedHierarchy(
                    crate::text::to_string("<!doctype"),
                    crate::text::to_string(">"),
                ),
            );
        },
    };
    proof {
        reveal_strlit("?>");
        reveal_strlit(">");
    }
    assert(prepare_fragment(xml@) == Ok::<Seq<char>, (Seq<char>, Seq<char>)>(frag@));
    let fs = string_from_chars(frag.as_slice());
    let (toks, err) = tokenize_fragment(fs.as_str());
    match build_tree(&toks) {
        Err((a, b)) => Err(XmlParseError::MalformedHierarchy(a, b)),
        Ok(root) => {
            proof {
                lemma_node_children(root);
            }
            match err {
                Some(e) => Err(XmlParseError::ParseError(e)),
                None => Ok(root.children),
            }
        },
    }
}

} // verus!
