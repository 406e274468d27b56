//! The routing trie. Nodes live in an arena and refer to their parent and
//! children by index, so the tree needs no back-pointer cycle: insertion and
//! lookup walk forward, and variable binding walks parent indices, which are
//! always smaller than the child's.
//!
//! A node is keyed by one path segment. A segment written `{name}` makes a
//! variable node, stored as its parent's single variable child; the segment
//! `{*}` makes a terminal wildcard that absorbs all remaining segments on
//! lookup. Literal children are preferred over the variable child.

use vstd::prelude::*;

use crate::errors::{RoutingError, RoutingErrorType};
use crate::bytes::pairs_view;
use crate::method::{Method, MethodView};
use crate::segments::{spec_join, spec_segments, split_segments, views_of, SLASH};

verus! {

/// The byte value of `{`.
pub const LBRACE: u8 = 123;

/// The byte value of `}`.
pub const RBRACE: u8 = 125;

/// The byte value of `*`.
pub const STAR: u8 = 42;

/// A segment of the form `{name}`: it introduces a variable node.
pub open spec fn spec_is_variable_id(id: Seq<u8>) -> bool {
    id.len() >= 2 && id[0] == LBRACE && id.last() == RBRACE
}

/// The wildcard segment `{*}`.
pub open spec fn wild_id() -> Seq<u8> {
    seq![LBRACE, STAR, RBRACE]
}

/// Whether a segment is of the form `{name}`.
pub fn is_variable_id(id: &[u8]) -> (r: bool)
    ensures
        r == spec_is_variable_id(id@),
{
    id.len() >= 2 && id[0] == LBRACE && id[id.len() - 1] == RBRACE
}

/// Whether a segment is exactly the wildcard `{*}`.
pub fn is_wild_id(id: &[u8]) -> (r: bool)
    ensures
        r == (id@ == wild_id()),
{
    let r = id.len() == 3 && id[0] == LBRACE && id[1] == STAR && id[2] == RBRACE;
    proof {
        if r {
            assert(id@ =~= wild_id());
        }
    }
    r
}

/// One node of the routing trie.
pub struct RouteNode<E> {
    /// The path segment this node is keyed by; the root's is `/`.
    pub id: Vec<u8>,
    /// Whether the segment is of the `{name}` form.
    pub is_var: bool,
    /// The arena index of the parent; the root points at itself.
    pub parent: usize,
    /// At most one endpoint per method.
    pub endpoints: Vec<(Method, E)>,
    /// The literal children, segment to arena index.
    pub children: Vec<(Vec<u8>, usize)>,
    /// The single variable child, if any.
    pub var_child: Option<usize>,
}

/// The endpoint stored under the first entry for method `m`.
pub open spec fn spec_endpoint_of<E>(eps: Seq<(Method, E)>, m: MethodView) -> Option<E>
    decreases eps.len(),
{
    if eps.len() == 0 {
        None
    } else if eps[0].0@ == m {
        Some(eps[0].1)
    } else {
        spec_endpoint_of(eps.drop_first(), m)
    }
}

/// `eps` with `e` stored under `m`: the first entry for `m` is replaced, or a
/// new entry appended.
pub open spec fn spec_ep_insert<E>(eps: Seq<(Method, E)>, m: Method, e: E) -> Seq<(Method, E)>
    decreases eps.len(),
{
    if eps.len() == 0 {
        seq![(m, e)]
    } else if eps[0].0@ == m@ {
        seq![(m, e)] + eps.drop_first()
    } else {
        seq![eps[0]] + spec_ep_insert(eps.drop_first(), m, e)
    }
}

/// After an insert, the inserted endpoint is found under its method.
pub proof fn lemma_ep_insert_get<E>(eps: Seq<(Method, E)>, m: Method, e: E)
    ensures
        spec_endpoint_of(spec_ep_insert(eps, m, e), m@) == Some(e),
    decreases eps.len(),
{
    if eps.len() == 0 {
    } else if eps[0].0@ == m@ {
        assert((seq![(m, e)] + eps.drop_first())[0] == (m, e));
    } else {
        lemma_ep_insert_get(eps.drop_first(), m, e);
        assert((seq![eps[0]] + spec_ep_insert(eps.drop_first(), m, e)).drop_first()
            =~= spec_ep_insert(eps.drop_first(), m, e));
    }
}

/// An insert leaves every other method's endpoint as it was.
pub proof fn lemma_ep_insert_frame<E>(eps: Seq<(Method, E)>, m: Method, e: E, m2: MethodView)
    requires
        m2 != m@,
    ensures
        spec_endpoint_of(spec_ep_insert(eps, m, e), m2) == spec_endpoint_of(eps, m2),
    decreases eps.len(),
{
    if eps.len() == 0 {
        assert(seq![(m, e)].drop_first() =~= Seq::<(Method, E)>::empty());
        assert(spec_endpoint_of(Seq::<(Method, E)>::empty(), m2) is None);
        assert(spec_endpoint_of(seq![(m, e)], m2) is None);
    } else if eps[0].0@ == m@ {
        assert((seq![(m, e)] + eps.drop_first()).drop_first() =~= eps.drop_first());
        assert((seq![(m, e)] + eps.drop_first())[0] == (m, e));
    } else {
        lemma_ep_insert_frame(eps.drop_first(), m, e, m2);
        assert((seq![eps[0]] + spec_ep_insert(eps.drop_first(), m, e)).drop_first()
            =~= spec_ep_insert(eps.drop_first(), m, e));
    }
}

/// The arena index under the first child entry keyed `id`.
pub open spec fn spec_child_of(ch: Seq<(Vec<u8>, usize)>, id: Seq<u8>) -> Option<usize>
    decreases ch.len(),
{
    if ch.len() == 0 {
        None
    } else if ch[0].0@ == id {
        Some(ch[0].1)
    } else {
        spec_child_of(ch.drop_first(), id)
    }
}

/// Appending a child entry under a fresh key makes it findable.
proof fn lemma_child_push_get(ch: Seq<(Vec<u8>, usize)>, id: Seq<u8>, p: (Vec<u8>, usize))
    requires
        spec_child_of(ch, id) is None,
        p.0@ == id,
    ensures
        spec_child_of(ch.push(p), id) == Some(p.1),
    decreases ch.len(),
{
    if ch.len() == 0 {
        assert(ch.push(p)[0] == p);
    } else {
        lemma_child_push_get(ch.drop_first(), id, p);
        assert(ch.push(p)[0] == ch[0]);
        assert(ch.push(p).drop_first() =~= ch.drop_first().push(p));
    }
}

/// Appending a child entry leaves every other key's entry as it was.
proof fn lemma_child_push_frame(
    ch: Seq<(Vec<u8>, usize)>,
    id2: Seq<u8>,
    p: (Vec<u8>, usize),
)
    requires
        id2 != p.0@,
    ensures
        spec_child_of(ch.push(p), id2) == spec_child_of(ch, id2),
    decreases ch.len(),
{
    if ch.len() == 0 {
        assert(ch.push(p).drop_first() =~= Seq::<(Vec<u8>, usize)>::empty());
        assert(spec_child_of(Seq::<(Vec<u8>, usize)>::empty(), id2) is None);
        assert(ch.push(p)[0] == p);
        assert(spec_child_of(ch.push(p), id2) is None);
    } else {
        lemma_child_push_frame(ch.drop_first(), id2, p);
        assert(ch.push(p)[0] == ch[0]);
        assert(ch.push(p).drop_first() =~= ch.drop_first().push(p));
    }
}

impl<E> RouteNode<E> {
    /// A fresh node for one segment, with an optional first endpoint. It is
    /// attached to a tree by [`RouteTree::add_child`].
    pub fn new(id: Vec<u8>, resolution: Option<(Method, E)>) -> (r: Self)
        ensures
            r.id == id,
            r.is_var == spec_is_variable_id(id@),
            r.parent == 0,
            r.children@ =~= Seq::<(Vec<u8>, usize)>::empty(),
            r.var_child is None,
            match resolution {
                Some((m, e)) => r.endpoints@ =~= seq![(m, e)],
                None => r.endpoints@ =~= Seq::<(Method, E)>::empty(),
            },
    {
        let is_var = is_variable_id(id.as_slice());
        let mut endpoints: Vec<(Method, E)> = Vec::new();
        match resolution {
            Some((m, e)) => {
                endpoints.push((m, e));
            },
            None => {
            },
        }
        RouteNode { id, is_var, parent: 0, endpoints, children: Vec::new(), var_child: None }
    }

    /// The endpoint registered on this node for `method`, if any.
    pub fn get_resolution(&self, method: &Method) -> (r: Option<&E>)
        ensures
            match r {
                Some(e) => spec_endpoint_of(self.endpoints@, method@) == Some(*e),
                None => spec_endpoint_of(self.endpoints@, method@) is None,
            },
    {
        let mut i: usize = 0;
        proof {
            assert(self.endpoints@.skip(0) =~= self.endpoints@);
        }
        while i < self.endpoints.len()
            invariant
                i <= self.endpoints@.len(),
                spec_endpoint_of(self.endpoints@.skip(i as int), method@) == spec_endpoint_of(
                    self.endpoints@,
                    method@,
                ),
            decreases self.endpoints@.len() - i,
        {
            proof {
                assert(self.endpoints@.skip(i as int)[0] == self.endpoints@[i as int]);
                assert(self.endpoints@.skip(i as int).drop_first() =~= self.endpoints@.skip(
                    i + 1,
                ));
            }
            if self.endpoints[i].0.same_as(method) {
                return Some(&self.endpoints[i].1);
            }
            i = i + 1;
        }
        proof {
            assert(self.endpoints@.skip(self.endpoints@.len() as int)
                =~= Seq::<(Method, E)>::empty());
        }
        None
    }

    /// The endpoint registered on this node for `method`, if any.
    pub fn brw_resolution(&self, method: &Method) -> (r: Option<&E>)
        ensures
            match r {
                Some(e) => spec_endpoint_of(self.endpoints@, method@) == Some(*e),
                None => spec_endpoint_of(self.endpoints@, method@) is None,
            },
    {
        self.get_resolution(method)
    }

    /// The arena index of the literal child keyed by segment `id`, if any.
    pub fn get_child(&self, id: &[u8]) -> (r: Option<usize>)
        ensures
            r == spec_child_of(self.children@, id@),
    {
        let mut i: usize = 0;
        proof {
            assert(self.children@.skip(0) =~= self.children@);
        }
        while i < self.children.len()
            invariant
                i <= self.children@.len(),
                spec_child_of(self.children@.skip(i as int), id@) == spec_child_of(
                    self.children@,
                    id@,
                ),
            decreases self.children@.len() - i,
        {
            proof {
                assert(self.children@.skip(i as int)[0] == self.children@[i as int]);
                assert(self.children@.skip(i as int).drop_first() =~= self.children@.skip(i + 1));
            }
            if crate::bytes::bytes_eq(self.children[i].0.as_slice(), id) {
                return Some(self.children[i].1);
            }
            i = i + 1;
        }
        proof {
            assert(self.children@.skip(self.children@.len() as int)
                =~= Seq::<(Vec<u8>, usize)>::empty());
        }
        None
    }

    /// The arena index of the literal child keyed by segment `id`, if any.
    pub fn brw_child(&self, id: &[u8]) -> (r: Option<usize>)
        ensures
            r == spec_child_of(self.children@, id@),
    {
        self.get_child(id)
    }

    /// Registers `resolution` on this node under `method`, replacing any
    /// endpoint the method had.
    pub fn insert_resolution(&mut self, method: Method, resolution: E)
        ensures
            final(self).endpoints@ == spec_ep_insert(old(self).endpoints@, method, resolution),
            final(self).id == old(self).id,
            final(self).is_var == old(self).is_var,
            final(self).parent == old(self).parent,
            final(self).children == old(self).children,
            final(self).var_child == old(self).var_child,
    {
        let mut i: usize = 0;
        while i < self.endpoints.len()
            invariant
                i <= self.endpoints@.len(),
                self == old(self),
                forall|j: int| 0 <= j < i ==> self.endpoints@[j].0@ != method@,
            decreases self.endpoints@.len() - i,
        {
            if self.endpoints[i].0.same_as(&method) {
                self.endpoints[i] = (method, resolution);
                proof {
                    lemma_ep_insert_found(old(self).endpoints@, method, resolution, i as int);
                }
                return ;
            }
            i = i + 1;
        }
        self.endpoints.push((method, resolution));
        proof {
            lemma_ep_insert_missing(old(self).endpoints@, method, resolution);
        }
    }
}

proof fn lemma_ep_insert_found<E>(eps: Seq<(Method, E)>, m: Method, e: E, i: int)
    requires
        0 <= i < eps.len(),
        eps[i].0@ == m@,
        forall|j: int| 0 <= j < i ==> eps[j].0@ != m@,
    ensures
        spec_ep_insert(eps, m, e) == eps.update(i, (m, e)),
    decreases i,
{
    if i == 0 {
        assert(seq![(m, e)] + eps.drop_first() =~= eps.update(0, (m, e)));
    } else {
        lemma_ep_insert_found(eps.drop_first(), m, e, i - 1);
        assert(eps.drop_first()[i - 1] == eps[i]);
        assert(seq![eps[0]] + eps.drop_first().update(i - 1, (m, e)) =~= eps.update(i, (m, e)));
    }
}

proof fn lemma_ep_insert_missing<E>(eps: Seq<(Method, E)>, m: Method, e: E)
    requires
        forall|j: int| 0 <= j < eps.len() ==> eps[j].0@ != m@,
    ensures
        spec_ep_insert(eps, m, e) == eps.push((m, e)),
    decreases eps.len(),
{
    if eps.len() == 0 {
        assert(seq![(m, e)] =~= eps.push((m, e)));
    } else {
        lemma_ep_insert_missing(eps.drop_first(), m, e);
        assert(seq![eps[0]] + eps.drop_first().push((m, e)) =~= eps.push((m, e)));
    }
}


/// The routing trie: an arena of nodes whose index 0 is the root, and an
/// optional fallback node consulted when no path matches.
pub struct RouteTree<E> {
    /// The arena; the node at index 0 is the root, keyed `/`.
    pub nodes: Vec<RouteNode<E>>,
    /// The fallback node, registered under `GET`.
    pub missing_route: Option<RouteNode<E>>,
}

impl<E> RouteTree<E> {
    /// Structural soundness of the node at index `n`: its child references
    /// point forward in the arena and agree with the child's own record, a
    /// node's variable flag reflects its segment, and a wildcard node is
    /// terminal.
    pub open spec fn wf_node(&self, n: int) -> bool {
        let node = self.nodes@[n];
        &&& node.is_var == spec_is_variable_id(node.id@)
        &&& match node.var_child {
            Some(c) => n < c < self.nodes@.len() && self.nodes@[c as int].parent == n
                && self.nodes@[c as int].is_var,
            None => true,
        }
        &&& forall|j: int|
            0 <= j < node.children@.len() ==> {
                let c = (#[trigger] node.children@[j]).1;
                &&& n < c < self.nodes@.len()
                &&& self.nodes@[c as int].parent == n
                &&& !self.nodes@[c as int].is_var
                &&& self.nodes@[c as int].id@ == node.children@[j].0@
            }
        &&& (node.id@ == wild_id() ==> node.children@.len() == 0 && node.var_child is None)
    }

    /// Structural soundness of the whole tree.
    pub open spec fn wf(&self) -> bool {
        &&& self.nodes@.len() >= 1
        &&& self.nodes@[0].parent == 0
        &&& self.nodes@[0].id@ == seq![SLASH]
        &&& forall|n: int| 0 < n < self.nodes@.len() ==> (#[trigger] self.nodes@[n].parent) < n
        &&& forall|n: int| 0 <= n < self.nodes@.len() ==> #[trigger] self.wf_node(n)
    }

    /// Where a lookup starting at node `n` with the given remaining segments
    /// ends up: literal children are preferred, then the variable child; a
    /// wildcard child absorbs all remaining segments at once.
    pub open spec fn spec_lookup_from(&self, n: int, segs: Seq<Seq<u8>>) -> Option<int>
        decreases segs.len(),
    {
        if segs.len() == 0 {
            Some(n)
        } else {
            match spec_child_of(self.nodes@[n].children@, segs[0]) {
                Some(c) => self.spec_lookup_from(c as int, segs.drop_first()),
                None => match self.nodes@[n].var_child {
                    Some(c) => if self.nodes@[c as int].id@ == wild_id() {
                        Some(c as int)
                    } else {
                        self.spec_lookup_from(c as int, segs.drop_first())
                    },
                    None => None,
                },
            }
        }
    }

    /// Where a lookup of the given segments from the root ends up.
    pub open spec fn spec_lookup(&self, segs: Seq<Seq<u8>>) -> Option<int> {
        self.spec_lookup_from(0, segs)
    }

    /// A found node lies within the arena, at or after the start node.
    pub proof fn lemma_lookup_in_range(&self, n: int, segs: Seq<Seq<u8>>)
        requires
            self.wf(),
            0 <= n < self.nodes@.len(),
        ensures
            self.spec_lookup_from(n, segs) matches Some(t) ==> n <= t < self.nodes@.len(),
        decreases segs.len(),
    {
        if segs.len() > 0 {
            assert(self.wf_node(n));
            match spec_child_of(self.nodes@[n].children@, segs[0]) {
                Some(c) => {
                    lemma_child_of_in_list(self.nodes@[n].children@, segs[0]);
                    self.lemma_lookup_in_range(c as int, segs.drop_first());
                },
                None => {
                    match self.nodes@[n].var_child {
                        Some(c) => {
                            if self.nodes@[c as int].id@ != wild_id() {
                                self.lemma_lookup_in_range(c as int, segs.drop_first());
                            }
                        },
                        None => {
                        },
                    }
                },
            }
        }
    }

    /// A tree of one root node, optionally carrying a first endpoint.
    pub fn new(base_resolution: Option<(Method, E)>) -> (r: Self)
        ensures
            r.wf(),
            r.nodes@.len() == 1,
            r.missing_route is None,
            match base_resolution {
                Some((m, e)) => r.nodes@[0].endpoints@ == seq![(m, e)],
                None => r.nodes@[0].endpoints@ == Seq::<(Method, E)>::empty(),
            },
    {
        let root = RouteNode::new(vec![SLASH], base_resolution);
        let mut nodes: Vec<RouteNode<E>> = Vec::new();
        nodes.push(root);
        let r = RouteTree { nodes, missing_route: None };
        proof {
            assert(r.nodes@[0].id@ =~= seq![SLASH]);
            assert(!spec_is_variable_id(seq![SLASH]));
            assert(seq![SLASH].len() != wild_id().len());
            assert(r.wf_node(0));
        }
        r
    }

    /// Installs the fallback consulted when no route matches, registered
    /// under `GET`.
    pub fn add_missing_route(&mut self, resolution: E)
        ensures
            final(self).nodes == old(self).nodes,
            match final(self).missing_route {
                Some(node) => node.endpoints@ == seq![(Method::GET, resolution)],
                None => false,
            },
    {
        let id: Vec<u8> = vec![92u8, 95u8, 109u8, 105u8, 115u8, 115u8, 105u8, 110u8, 103u8, 95u8, 47u8];
        let m_node = RouteNode::new(id, Some((Method::GET, resolution)));
        self.missing_route = Some(m_node);
    }

    /// Creates a node for segment `id` as a child of `parent`: the variable
    /// child when the segment is of the `{name}` form (replacing any prior
    /// variable child), a literal child otherwise. A literal child is only
    /// created when the parent has none for that segment, and never under a
    /// wildcard node.
    pub fn add_child(&mut self, parent: usize, id: Vec<u8>, resolution: Option<(Method, E)>) -> (c:
        usize)
        requires
            old(self).wf(),
            parent < old(self).nodes@.len(),
            old(self).nodes@[parent as int].id@ != wild_id(),
            !spec_is_variable_id(id@) ==> spec_child_of(
                old(self).nodes@[parent as int].children@,
                id@,
            ) is None,
            old(self).nodes@.len() < usize::MAX,
        ensures
            final(self).wf(),
            c == old(self).nodes@.len(),
            final(self).nodes@.len() == old(self).nodes@.len() + 1,
            final(self).missing_route == old(self).missing_route,
            forall|k: int|
                0 <= k < old(self).nodes@.len() && k != parent ==> final(self).nodes@[k] == old(
                    self,
                ).nodes@[k],
            final(self).nodes@[c as int].id@ == id@,
            final(self).nodes@[c as int].parent == parent,
            final(self).nodes@[c as int].is_var == spec_is_variable_id(id@),
            final(self).nodes@[c as int].children@ == Seq::<(Vec<u8>, usize)>::empty(),
            final(self).nodes@[c as int].var_child is None,
            match resolution {
                Some((m, e)) => final(self).nodes@[c as int].endpoints@ == seq![(m, e)],
                None => final(self).nodes@[c as int].endpoints@ == Seq::<(Method, E)>::empty(),
            },
            final(self).nodes@[parent as int].id == old(self).nodes@[parent as int].id,
            final(self).nodes@[parent as int].is_var == old(self).nodes@[parent as int].is_var,
            final(self).nodes@[parent as int].parent == old(self).nodes@[parent as int].parent,
            final(self).nodes@[parent as int].endpoints == old(
                self,
            ).nodes@[parent as int].endpoints,
            spec_is_variable_id(id@) ==> final(self).nodes@[parent as int].var_child == Some(c)
                && final(self).nodes@[parent as int].children == old(
                self,
            ).nodes@[parent as int].children,
            !spec_is_variable_id(id@) ==> spec_child_of(
                final(self).nodes@[parent as int].children@,
                id@,
            ) == Some(c) && (forall|id2: Seq<u8>|
                id2 != id@ ==> spec_child_of(final(self).nodes@[parent as int].children@, id2)
                    == spec_child_of(old(self).nodes@[parent as int].children@, id2))
                && final(self).nodes@[parent as int].var_child == old(
                self,
            ).nodes@[parent as int].var_child,
    {
        let c = self.nodes.len();
        let mut key: Vec<u8> = Vec::new();
        key.extend_from_slice(id.as_slice());
        proof {
            assert(key@ =~= id@);
        }
        let is_var = is_variable_id(id.as_slice());
        let mut node = RouteNode::new(id, resolution);
        node.parent = parent;
        self.nodes.push(node);
        let ghost mid = self.nodes@;
        if is_var {
            self.nodes[parent].var_child = Some(c);
        } else {
            self.nodes[parent].children.push((key, c));
            proof {
                let oldch = old(self).nodes@[parent as int].children@;
                let p = self.nodes@[parent as int].children@.last();
                assert(self.nodes@[parent as int].children@ =~= oldch.push(p));
                lemma_child_push_get(oldch, id@, p);
                assert forall|id2: Seq<u8>| id2 != id@ implies spec_child_of(
                    self.nodes@[parent as int].children@,
                    id2,
                ) == spec_child_of(oldch, id2) by {
                    lemma_child_push_frame(oldch, id2, p);
                }
            }
        }
        proof {
            let oldn = old(self).nodes@;
            let newn = self.nodes@;
            assert(forall|k: int| 0 <= k < oldn.len() && k != parent ==> newn[k] == oldn[k]);
            assert(newn[c as int].children@ =~= Seq::<(Vec<u8>, usize)>::empty());
            assert forall|k: int| 0 <= k < newn.len() implies self.wf_node(k) by {
                if k == c {
                    assert(newn[k].id@ == wild_id() ==> newn[k].children@.len() == 0
                        && newn[k].var_child is None);
                } else if k == parent {
                    assert(old(self).wf_node(k));
                    let pn = newn[k];
                    let po = oldn[k];
                    assert forall|j: int| 0 <= j < pn.children@.len() implies {
                        let cj = (#[trigger] pn.children@[j]).1;
                        &&& k < cj < newn.len()
                        &&& newn[cj as int].parent == k
                        &&& !newn[cj as int].is_var
                        &&& newn[cj as int].id@ == pn.children@[j].0@
                    } by {
                        if is_var {
                            assert(pn.children@ == po.children@);
                            let cj = po.children@[j].1;
                            assert(k < cj < oldn.len());
                            assert(newn[cj as int].parent == oldn[cj as int].parent);
                        } else if j < po.children@.len() {
                            assert(pn.children@ =~= po.children@.push(pn.children@.last()));
                            assert(pn.children@[j] == po.children@[j]);
                            let cj = po.children@[j].1;
                            assert(k < cj < oldn.len());
                            assert(newn[cj as int].parent == oldn[cj as int].parent);
                        } else {
                            assert(pn.children@[j].1 == c);
                            assert(pn.children@[j].0@ == id@);
                        }
                    }
                } else {
                    assert(old(self).wf_node(k));
                    assert(newn[k] == oldn[k]);
                    let nk = newn[k];
                    assert forall|j: int| 0 <= j < nk.children@.len() implies {
                        let cj = (#[trigger] nk.children@[j]).1;
                        &&& k < cj < newn.len()
                        &&& newn[cj as int].parent == k
                        &&& !newn[cj as int].is_var
                        &&& newn[cj as int].id@ == nk.children@[j].0@
                    } by {
                        let cj = nk.children@[j].1;
                        assert(k < cj < oldn.len());
                        assert(newn[cj as int].parent == oldn[cj as int].parent);
                        assert(newn[cj as int].is_var == oldn[cj as int].is_var);
                        assert(newn[cj as int].id == oldn[cj as int].id);
                    }
                    match nk.var_child {
                        Some(cv) => {
                            assert(newn[cv as int].parent == oldn[cv as int].parent);
                        },
                        None => {
                        },
                    }
                }
            }
        }
        c
    }
}


/// Two trees whose nodes agree on everything but endpoints are both sound.
proof fn lemma_wf_same_shape<E>(t1: RouteTree<E>, t2: RouteTree<E>)
    requires
        t1.wf(),
        t2.nodes@.len() == t1.nodes@.len(),
        forall|k: int|
            0 <= k < t1.nodes@.len() ==> (#[trigger] t2.nodes@[k]).id == t1.nodes@[k].id
                && t2.nodes@[k].is_var == t1.nodes@[k].is_var && t2.nodes@[k].parent
                == t1.nodes@[k].parent && t2.nodes@[k].children == t1.nodes@[k].children
                && t2.nodes@[k].var_child == t1.nodes@[k].var_child,
    ensures
        t2.wf(),
{
    assert forall|k: int| 0 <= k < t2.nodes@.len() implies t2.wf_node(k) by {
        assert(t1.wf_node(k));
        let n1 = t1.nodes@[k];
        let n2 = t2.nodes@[k];
        assert forall|j: int| 0 <= j < n2.children@.len() implies {
            let cj = (#[trigger] n2.children@[j]).1;
            &&& k < cj < t2.nodes@.len()
            &&& t2.nodes@[cj as int].parent == k
            &&& !t2.nodes@[cj as int].is_var
            &&& t2.nodes@[cj as int].id@ == n2.children@[j].0@
        } by {
            let cj = n1.children@[j].1;
            assert(k < cj < t1.nodes@.len());
        }
    }
}

/// Lookups agree between two trees whose nodes agree on everything but
/// endpoints.
proof fn lemma_lookup_same_shape<E>(t1: RouteTree<E>, t2: RouteTree<E>, n: int, segs: Seq<Seq<u8>>)
    requires
        t1.wf(),
        0 <= n < t1.nodes@.len(),
        t2.nodes@.len() == t1.nodes@.len(),
        forall|k: int|
            0 <= k < t1.nodes@.len() ==> (#[trigger] t2.nodes@[k]).id == t1.nodes@[k].id
                && t2.nodes@[k].is_var == t1.nodes@[k].is_var && t2.nodes@[k].parent
                == t1.nodes@[k].parent && t2.nodes@[k].children == t1.nodes@[k].children
                && t2.nodes@[k].var_child == t1.nodes@[k].var_child,
    ensures
        t2.spec_lookup_from(n, segs) == t1.spec_lookup_from(n, segs),
    decreases segs.len(),
{
    if segs.len() > 0 {
        assert(t1.wf_node(n));
        match spec_child_of(t1.nodes@[n].children@, segs[0]) {
            Some(c) => {
                lemma_child_of_in_list(t1.nodes@[n].children@, segs[0]);
                lemma_lookup_same_shape(t1, t2, c as int, segs.drop_first());
            },
            None => {
                match t1.nodes@[n].var_child {
                    Some(c) => {
                        if t1.nodes@[c as int].id@ != wild_id() {
                            lemma_lookup_same_shape(t1, t2, c as int, segs.drop_first());
                        }
                    },
                    None => {
                    },
                }
            },
        }
    }
}

impl<E> RouteTree<E> {
    /// Walks or grows the trie along `segs[i..]` from node `n`, attaching the
    /// endpoint at the final node.
    fn add_from(&mut self, n: usize, segs: &Vec<Vec<u8>>, i: usize, resolution: Option<(Method, E)>) -> (target: usize)
        requires
            old(self).wf(),
            n < old(self).nodes@.len(),
            i < segs@.len(),
            old(self).nodes@[n as int].id@ != wild_id(),
            forall|j: int| i <= j < segs@.len() - 1 ==> views_of(segs@)[j] != wild_id(),
            old(self).nodes@.len() + segs@.len() - i <= usize::MAX,
        ensures
            final(self).wf(),
            final(self).missing_route == old(self).missing_route,
            old(self).nodes@.len() <= final(self).nodes@.len(),
            final(self).nodes@.len() <= old(self).nodes@.len() + segs@.len() - i,
            forall|k: int| 0 <= k < n ==> final(self).nodes@[k] == old(self).nodes@[k],
            forall|k: int|
                0 <= k < old(self).nodes@.len() ==> (#[trigger] final(self).nodes@[k]).id == old(
                    self,
                ).nodes@[k].id && final(self).nodes@[k].is_var == old(self).nodes@[k].is_var
                    && final(self).nodes@[k].parent == old(self).nodes@[k].parent,
            target < final(self).nodes@.len(),
            final(self).spec_lookup_from(n as int, views_of(segs@).skip(i as int)) == Some(
                target as int,
            ),
            match resolution {
                Some((m, e)) => spec_endpoint_of(
                    final(self).nodes@[target as int].endpoints@,
                    m@,
                ) == Some(e),
                None => true,
            },
        decreases segs@.len() - i,
    {
        let ghost vs = views_of(segs@);
        let seg = &segs[i];
        proof {
            assert(vs[i as int] == segs@[i as int]@);
            assert(vs.skip(i as int)[0] == vs[i as int]);
            assert(vs.skip(i as int).drop_first() =~= vs.skip(i + 1));
            assert(vs.skip(i as int).len() == vs.len() - i);
        }
        let is_last = i == segs.len() - 1;
        let child_opt = self.nodes[n].get_child(seg.as_slice());
        match child_opt {
            Some(c) => {
                proof {
                    assert(old(self).wf_node(n as int));
                    lemma_child_of_in_list(old(self).nodes@[n as int].children@, seg@);
                    assert(n < c < old(self).nodes@.len());
                    assert(old(self).nodes@[c as int].id@ == seg@);
                }
                if is_last {
                    let ghost pre = *self;
                    match resolution {
                        Some((m, e)) => {
                            let ghost mv = m@;
                            self.nodes[c].insert_resolution(m, e);
                            proof {
                                assert(forall|k: int|
                                    0 <= k < pre.nodes@.len() && k != c
                                        ==> final(self).nodes@[k] == pre.nodes@[k]);
                                lemma_wf_same_shape(pre, *self);
                                lemma_ep_insert_get(pre.nodes@[c as int].endpoints@, m, e);
                                assert(self.spec_lookup_from(c as int, vs.skip(i + 1)) == Some(
                                    c as int,
                                ));
                            }
                        },
                        None => {
                        },
                    }
                    proof {
                        assert(self.nodes@[n as int] == old(self).nodes@[n as int]);
                        assert(self.spec_lookup_from(n as int, vs.skip(i as int)) == Some(
                            c as int,
                        ));
                    }
                    c
                } else {
                    proof {
                        assert(old(self).nodes@[c as int].id@ == vs[i as int]);
                        assert(vs[i as int] != wild_id());
                    }
                    let target = self.add_from(c, segs, i + 1, resolution);
                    proof {
                        assert(self.nodes@[n as int] == old(self).nodes@[n as int]);
                        assert(self.spec_lookup_from(n as int, vs.skip(i as int))
                            == self.spec_lookup_from(c as int, vs.skip(i + 1)));
                    }
                    target
                }
            },
            None => {
                let key: Vec<u8> = vstd::slice::slice_to_vec(seg.as_slice());
                if is_last {
                    let ghost res_snap = resolution;
                    let c = self.add_child(n, key, resolution);
                    proof {
                        if spec_is_variable_id(seg@) {
                            assert(spec_child_of(self.nodes@[n as int].children@, seg@)
                                is None);
                            assert(self.nodes@[n as int].var_child == Some(c));
                            if self.nodes@[c as int].id@ == wild_id() {
                                assert(self.spec_lookup_from(n as int, vs.skip(i as int))
                                    == Some(c as int));
                            } else {
                                assert(self.spec_lookup_from(c as int, vs.skip(i + 1))
                                    == Some(c as int));
                            }
                        } else {
                            assert(spec_child_of(self.nodes@[n as int].children@, seg@)
                                == Some(c));
                            assert(self.spec_lookup_from(c as int, vs.skip(i + 1)) == Some(
                                c as int,
                            ));
                        }
                        match res_snap {
                            Some((m, e)) => {
                                assert(self.nodes@[c as int].endpoints@ == seq![(m, e)]);
                                assert(seq![(m, e)][0] == (m, e));
                                assert(spec_endpoint_of(seq![(m, e)], m@) == Some(e));
                            },
                            None => {
                            },
                        }
                    }
                    c
                } else {
                    let c = self.add_child(n, key, None);
                    let ghost mid = *self;
                    proof {
                        assert(self.nodes@[c as int].id@ == vs[i as int]);
                        assert(vs[i as int] != wild_id());
                    }
                    let target = self.add_from(c, segs, i + 1, resolution);
                    proof {
                        assert(self.nodes@[n as int] == mid.nodes@[n as int]);
                        if spec_is_variable_id(seg@) {
                            assert(spec_child_of(mid.nodes@[n as int].children@, seg@) is None);
                            assert(mid.nodes@[n as int].var_child == Some(c));
                            assert(self.nodes@[c as int].id == mid.nodes@[c as int].id);
                            assert(self.spec_lookup_from(n as int, vs.skip(i as int))
                                == self.spec_lookup_from(c as int, vs.skip(i + 1)));
                        } else {
                            assert(spec_child_of(mid.nodes@[n as int].children@, seg@)
                                == Some(c));
                            assert(self.spec_lookup_from(n as int, vs.skip(i as int))
                                == self.spec_lookup_from(c as int, vs.skip(i + 1)));
                        }
                    }
                    target
                }
            },
        }
    }
}


impl<E> RouteTree<E> {
    /// Adds a route, overwriting the method's endpoint when the `(path,
    /// method)` pair already exists. An empty path is invalid; the path `/`
    /// registers on the root and must carry an endpoint; a wildcard segment
    /// is only accepted in terminal position; a path of separators alone
    /// registers nothing.
    pub fn add_route(&mut self, route: &[u8], resolution: Option<(Method, E)>) -> (r: Result<
        (),
        RoutingError,
    >)
        requires
            old(self).wf(),
            old(self).nodes@.len() + spec_segments(route@).len() <= usize::MAX,
        ensures
            final(self).wf(),
            final(self).missing_route == old(self).missing_route,
            add_route_post(*old(self), *final(self), route@, resolution, r),
    {
        if route.len() == 0 {
            return Err(RoutingError::new(RoutingErrorType::InvalidRoute("empty".to_owned())));
        }
        let root_seg: Vec<u8> = vec![SLASH];
        proof {
            assert(root_seg@ =~= seq![SLASH]);
        }
        if crate::bytes::bytes_eq(route, root_seg.as_slice()) {
            match resolution {
                Some((m, e)) => {
                    let ghost pre = *self;
                    let ghost mv = m@;
                    self.nodes[0].insert_resolution(m, e);
                    proof {
                        assert(forall|k: int|
                            0 < k < pre.nodes@.len() ==> final(self).nodes@[k] == pre.nodes@[k]);
                        lemma_wf_same_shape(pre, *self);
                        lemma_ep_insert_get(pre.nodes@[0].endpoints@, m, e);
                        assert forall|m2: MethodView| m2 != mv implies spec_endpoint_of(
                            self.nodes@[0].endpoints@,
                            m2,
                        ) == spec_endpoint_of(pre.nodes@[0].endpoints@, m2) by {
                            lemma_ep_insert_frame(pre.nodes@[0].endpoints@, m, e, m2);
                        }
                    }
                    return Ok(());
                },
                None => {
                    return Err(RoutingError::new(RoutingErrorType::MethodMissing));
                },
            }
        }
        let segs = split_segments(route);
        let ghost vs = spec_segments(route@);
        let mut j: usize = 0;
        while j < segs.len()
            invariant
                j <= segs@.len(),
                views_of(segs@) == vs,
                vs == spec_segments(route@),
                route@.len() > 0,
                route@ != seq![SLASH],
                *self == *old(self),
                old(self).wf(),
                forall|k: int| 0 <= k < j && k < segs@.len() - 1 ==> vs[k] != wild_id(),
            decreases segs@.len() - j,
        {
            if j + 1 < segs.len() && is_wild_id(segs[j].as_slice()) {
                proof {
                    assert(vs[j as int] == segs@[j as int]@);
                }
                return Err(RoutingError::new(RoutingErrorType::InvalidRoute(
                    "a wildcard segment must come last".to_owned(),
                )));
            }
            proof {
                assert(vs[j as int] == segs@[j as int]@);
            }
            j = j + 1;
        }
        if segs.len() == 0 {
            return Ok(());
        }
        proof {
            assert(self.nodes@[0].id@ == seq![SLASH]);
            assert(seq![SLASH].len() != wild_id().len());
            assert(vs.skip(0) =~= vs);
        }
        let t = self.add_from(0, &segs, 0, resolution);
        Ok(())
    }

    /// Finds the node a path leads to: literal children first, then the
    /// variable child; a wildcard child absorbs all remaining segments.
    pub fn get_route(&self, full_route: &[u8]) -> (r: Option<usize>)
        requires
            self.wf(),
        ensures
            match r {
                Some(t) => t < self.nodes@.len() && self.spec_lookup(spec_segments(full_route@))
                    == Some(t as int),
                None => self.spec_lookup(spec_segments(full_route@)) is None,
            },
    {
        let segs = split_segments(full_route);
        let ghost vs = spec_segments(full_route@);
        let mut cur: usize = 0;
        let mut i: usize = 0;
        proof {
            assert(vs.skip(0) =~= vs);
        }
        while i < segs.len()
            invariant
                self.wf(),
                i <= segs@.len(),
                views_of(segs@) == vs,
                vs == spec_segments(full_route@),
                cur < self.nodes@.len(),
                self.spec_lookup_from(cur as int, vs.skip(i as int)) == self.spec_lookup(vs),
            decreases segs@.len() - i,
        {
            let seg = &segs[i];
            proof {
                assert(vs[i as int] == segs@[i as int]@);
                assert(vs.skip(i as int)[0] == vs[i as int]);
                assert(vs.skip(i as int).drop_first() =~= vs.skip(i + 1));
            }
            let child = self.nodes[cur].get_child(seg.as_slice());
            match child {
                Some(c) => {
                    proof {
                        assert(self.wf_node(cur as int));
                        lemma_child_of_in_list(self.nodes@[cur as int].children@, seg@);
                    }
                    cur = c;
                },
                None => {
                    let vc = self.nodes[cur].var_child;
                    match vc {
                        Some(c) => {
                            proof {
                                assert(self.wf_node(cur as int));
                            }
                            if is_wild_id(self.nodes[c].id.as_slice()) {
                                return Some(c);
                            }
                            cur = c;
                        },
                        None => {
                            return None;
                        },
                    }
                },
            }
            i = i + 1;
        }
        proof {
            assert(vs.skip(segs@.len() as int) =~= Seq::<Seq<u8>>::empty());
        }
        Some(cur)
    }
}



impl<E> RouteTree<E> {
    /// The number of steps from node `n` up to the root.
    pub open spec fn spec_depth(&self, n: int) -> nat
        decreases n,
    {
        if n <= 0 {
            0
        } else if self.nodes@[n].parent < n {
            1 + self.spec_depth(self.nodes@[n].parent as int)
        } else {
            0
        }
    }

    /// A node's depth never exceeds its arena index.
    pub proof fn lemma_depth_le(&self, n: int)
        requires
            0 <= n,
        ensures
            self.spec_depth(n) <= n,
        decreases n,
    {
        if n > 0 && self.nodes@[n].parent < n {
            self.lemma_depth_le(self.nodes@[n].parent as int);
        }
    }

    /// The number of steps from node `n` up to the root.
    pub fn depth(&self, n: usize) -> (d: usize)
        requires
            self.wf(),
            n < self.nodes@.len(),
        ensures
            d == self.spec_depth(n as int),
        decreases n,
    {
        if n == 0 {
            0
        } else {
            let p = self.nodes[n].parent;
            proof {
                assert(p < n);
                self.lemma_depth_le(p as int);
            }
            1 + self.depth(p)
        }
    }
}

impl<E> RouteTree<E> {
    /// The variable bindings produced by walking from node `n` back toward
    /// the root while popping `segs` from the tail: a variable node binds its
    /// name (without braces) to the popped segment, and a wildcard node binds
    /// `*` to every segment its own subtree absorbed, joined with `/`, and
    /// stops the walk.
    pub open spec fn spec_bindings_from(&self, n: int, segs: Seq<Seq<u8>>) -> Seq<
        (Seq<u8>, Seq<u8>),
    >
        decreases n,
    {
        if n <= 0 || segs.len() == 0 {
            Seq::empty()
        } else {
            let node = self.nodes@[n];
            let rest = if node.parent < n {
                self.spec_bindings_from(node.parent as int, segs.drop_last())
            } else {
                Seq::empty()
            };
            if node.is_var {
                if node.id@ == wild_id() {
                    let d = self.spec_depth(n);
                    if segs.len() >= d - 1 {
                        seq![(seq![STAR], spec_join(segs.skip(d - 1)))]
                    } else {
                        seq![(seq![STAR], spec_join(Seq::empty()))]
                    }
                } else {
                    rest.push((node.id@.subrange(1, node.id@.len() - 1), segs.last()))
                }
            } else {
                rest
            }
        }
    }

    /// Binds path variables for a request whose lookup matched node `n`,
    /// from the first `k` segments of its path.
    fn bind_from(&self, n: usize, segs: &Vec<Vec<u8>>, k: usize) -> (vars: Vec<
        (Vec<u8>, Vec<u8>),
    >)
        requires
            self.wf(),
            n < self.nodes@.len(),
            k <= segs@.len(),
        ensures
            pairs_view(vars@) == self.spec_bindings_from(n as int, views_of(segs@).take(k as int)),
        decreases n,
    {
        let ghost vs = views_of(segs@);
        if n == 0 || k == 0 {
            proof {
                if k == 0 {
                    assert(vs.take(0) =~= Seq::<Seq<u8>>::empty());
                }
                assert(pairs_view(Seq::<(Vec<u8>, Vec<u8>)>::empty())
                    =~= Seq::<(Seq<u8>, Seq<u8>)>::empty());
            }
            return Vec::new();
        }
        proof {
            assert(self.wf_node(n as int));
            assert(vs.take(k as int).drop_last() =~= vs.take(k - 1));
            assert(vs.take(k as int).last() == segs@[k - 1]@);
        }
        let node_is_var = self.nodes[n].is_var;
        let parent = self.nodes[n].parent;
        if node_is_var {
            if is_wild_id(self.nodes[n].id.as_slice()) {
                let d = self.depth(n);
                proof {
                    self.lemma_depth_le(n as int);
                }
                let lo: usize = if d >= 1 && d - 1 <= k {
                    d - 1
                } else {
                    k
                };
                let mut head: Vec<Vec<u8>> = Vec::new();
                let mut j: usize = lo;
                proof {
                    assert(views_of(head@) =~= views_of(segs@).subrange(lo as int, lo as int));
                }
                while j < k
                    invariant
                        lo <= j <= k <= segs@.len(),
                        views_of(head@) == views_of(segs@).subrange(lo as int, j as int),
                    decreases k - j,
                {
                    head.push(vstd::slice::slice_to_vec(segs[j].as_slice()));
                    proof {
                        assert(views_of(head@) =~= views_of(head@.drop_last()).push(
                            segs@[j as int]@,
                        ));
                        assert(views_of(segs@).subrange(lo as int, j + 1) =~= views_of(
                            segs@,
                        ).subrange(lo as int, j as int).push(segs@[j as int]@));
                    }
                    j = j + 1;
                }
                let joined = crate::segments::join_segments(&head);
                let star: Vec<u8> = vec![STAR];
                let mut vars: Vec<(Vec<u8>, Vec<u8>)> = Vec::new();
                vars.push((star, joined));
                proof {
                    assert(star@ =~= seq![STAR]);
                    let tk = vs.take(k as int);
                    if d >= 1 && d - 1 <= k {
                        assert(views_of(segs@).subrange(lo as int, k as int) =~= tk.skip(d - 1));
                        assert(pairs_view(vars@) =~= seq![(seq![STAR], spec_join(tk.skip(d - 1)))]);
                    } else {
                        assert(d == 0 || d - 1 > k);
                        assert(views_of(segs@).subrange(lo as int, k as int)
                            =~= Seq::<Seq<u8>>::empty());
                        if d == 0 {
                            assert(false);
                        } else {
                            assert(tk.len() < d - 1);
                            assert(pairs_view(vars@) =~= seq![
                                (seq![STAR], spec_join(Seq::empty())),
                            ]);
                        }
                    }
                }
                vars
            } else {
                let mut vars = if parent < n {
                    self.bind_from(parent, segs, k - 1)
                } else {
                    Vec::new()
                };
                proof {
                    if !(parent < n) {
                        assert(pairs_view(Seq::<(Vec<u8>, Vec<u8>)>::empty())
                            =~= Seq::<(Seq<u8>, Seq<u8>)>::empty());
                    }
                }
                let ghost pre = pairs_view(vars@);
                let idlen = self.nodes[n].id.len();
                proof {
                    assert(spec_is_variable_id(self.nodes@[n as int].id@));
                }
                let name: Vec<u8> = vstd::slice::slice_to_vec(
                    &self.nodes[n].id.as_slice()[1..idlen - 1],
                );
                let value: Vec<u8> = vstd::slice::slice_to_vec(segs[k - 1].as_slice());
                vars.push((name, value));
                proof {
                    assert(name@ =~= self.nodes@[n as int].id@.subrange(
                        1,
                        self.nodes@[n as int].id@.len() - 1,
                    ));
                    assert(pairs_view(vars@) =~= pre.push((name@, value@)));
                }
                vars
            }
        } else {
            let vars = if parent < n {
                self.bind_from(parent, segs, k - 1)
            } else {
                Vec::new()
            };
            proof {
                if !(parent < n) {
                    assert(pairs_view(Seq::<(Vec<u8>, Vec<u8>)>::empty())
                        =~= Seq::<(Seq<u8>, Seq<u8>)>::empty());
                }
            }
            vars
        }
    }

    /// Binds path variables for a request whose lookup of `segs` matched the
    /// node at `matched`.
    pub fn bind_variables(&self, matched: usize, segs: &Vec<Vec<u8>>) -> (vars: Vec<
        (Vec<u8>, Vec<u8>),
    >)
        requires
            self.wf(),
            matched < self.nodes@.len(),
        ensures
            pairs_view(vars@) == self.spec_bindings_from(matched as int, views_of(segs@)),
    {
        proof {
            assert(views_of(segs@).take(segs@.len() as int) =~= views_of(segs@));
        }
        self.bind_from(matched, segs, segs.len())
    }
}


impl<E> RouteTree<E> {
    /// Lookup sees only a path's sequence of non-empty segments, so paths
    /// that differ in leading, trailing or repeated separators, such as
    /// `/a/b`, `/a/b/` and `//a//b`, lead to the same node.
    pub proof fn lemma_lookup_slash_equivalence(&self, p1: Seq<u8>, p2: Seq<u8>)
        requires
            spec_segments(p1) == spec_segments(p2),
        ensures
            self.spec_lookup(spec_segments(p1)) == self.spec_lookup(spec_segments(p2)),
    {
    }

    /// A literal child beats the variable child: when a node has a literal
    /// child for the next segment, lookup descends into it, whatever
    /// variable child the node also has.
    pub proof fn lemma_literal_beats_parametric(&self, n: int, segs: Seq<Seq<u8>>, c: usize)
        requires
            segs.len() > 0,
            spec_child_of(self.nodes@[n].children@, segs[0]) == Some(c),
        ensures
            self.spec_lookup_from(n, segs) == self.spec_lookup_from(c as int, segs.drop_first()),
    {
    }

    /// A wildcard absorbs: when the next segment has no literal child and
    /// the variable child is `{*}`, lookup returns the wildcard node at
    /// once, however many segments remain.
    pub proof fn lemma_wildcard_absorbs(&self, n: int, segs: Seq<Seq<u8>>, c: usize)
        requires
            segs.len() > 0,
            spec_child_of(self.nodes@[n].children@, segs[0]) is None,
            self.nodes@[n].var_child == Some(c),
            self.nodes@[c as int].id@ == wild_id(),
        ensures
            self.spec_lookup_from(n, segs) == Some(c as int),
    {
    }

    /// A request matched at a wildcard node binds exactly one variable, `*`,
    /// to the segments the wildcard itself absorbed, joined with `/`: all of
    /// the request's segments after those its ancestors consumed.
    pub proof fn lemma_wildcard_binding(&self, c: int, segs: Seq<Seq<u8>>)
        requires
            self.wf(),
            0 < c < self.nodes@.len(),
            self.nodes@[c].id@ == wild_id(),
            segs.len() >= self.spec_depth(c) - 1,
            segs.len() > 0,
        ensures
            self.spec_bindings_from(c, segs) == seq![
                (seq![STAR], spec_join(segs.skip(self.spec_depth(c) - 1))),
            ],
    {
        assert(self.wf_node(c));
        assert(spec_is_variable_id(wild_id()));
    }
}


/// What [`RouteTree::add_route`] promises: how tree `t1` and result `r`
/// relate to tree `t0` for an add of `resolution` at `route`.
pub open spec fn add_route_post<E>(
    t0: RouteTree<E>,
    t1: RouteTree<E>,
    route: Seq<u8>,
    resolution: Option<(Method, E)>,
    r: Result<(), RoutingError>,
) -> bool {
    let segs = spec_segments(route);
    if route.len() == 0 {
        &&& (r matches Err(e) && e.error_type
            matches RoutingErrorType::InvalidRoute(_))
        &&& t1 == t0
    } else if route == seq![SLASH] {
        match resolution {
            Some((m, e)) => {
                &&& r is Ok
                &&& t1.nodes@.len() == t0.nodes@.len()
                &&& spec_endpoint_of(t1.nodes@[0].endpoints@, m@) == Some(e)
                &&& forall|m2: MethodView|
                    m2 != m@ ==> spec_endpoint_of(
                        t1.nodes@[0].endpoints@,
                        m2,
                    ) == spec_endpoint_of(t0.nodes@[0].endpoints@, m2)
            },
            None => {
                &&& (r matches Err(e) && e.error_type
                    matches RoutingErrorType::MethodMissing)
                &&& t1 == t0
            },
        }
    } else if exists|j: int| 0 <= j < segs.len() - 1 && segs[j] == wild_id() {
        &&& (r matches Err(e) && e.error_type
            matches RoutingErrorType::InvalidRoute(_))
        &&& t1 == t0
    } else if segs.len() == 0 {
        &&& r is Ok
        &&& t1 == t0
    } else {
        &&& r is Ok
        &&& match t1.spec_lookup(segs) {
            Some(t) => 0 <= t < t1.nodes@.len() && (match resolution {
                Some((m, e)) => spec_endpoint_of(
                    t1.nodes@[t].endpoints@,
                    m@,
                ) == Some(e),
                None => true,
            }),
            None => false,
        }
    }
}


impl<E> RouteTree<E> {
    /// The endpoint a request is served by: the matched node's endpoint for
    /// the request's method; when no node matches, the missing-route
    /// fallback's endpoint under `GET`. A matched node without the method
    /// yields nothing, and the connection is closed.
    pub fn choose_endpoint(&self, cleaned: &[u8], method: &Method) -> (r: Option<&E>)
        requires
            self.wf(),
        ensures
            ({
                let segs = spec_segments(cleaned@);
                match self.spec_lookup(segs) {
                    Some(t) => match r {
                        Some(e) => spec_endpoint_of(self.nodes@[t].endpoints@, method@) == Some(
                            *e,
                        ),
                        None => spec_endpoint_of(self.nodes@[t].endpoints@, method@) is None,
                    },
                    None => match self.missing_route {
                        Some(mr) => match r {
                            Some(e) => spec_endpoint_of(mr.endpoints@, MethodView::GET) == Some(
                                *e,
                            ),
                            None => spec_endpoint_of(mr.endpoints@, MethodView::GET) is None,
                        },
                        None => r is None,
                    },
                }
            }),
    {
        match self.get_route(cleaned) {
            Some(t) => self.nodes[t].get_resolution(method),
            None => {
                match &self.missing_route {
                    Some(mr) => mr.get_resolution(&Method::GET),
                    None => None,
                }
            },
        }
    }
}

/// A child reference found in a child list satisfies the list's invariants.
proof fn lemma_child_of_in_list(ch: Seq<(Vec<u8>, usize)>, id: Seq<u8>)
    ensures
        spec_child_of(ch, id) matches Some(c) ==> exists|j: int|
            0 <= j < ch.len() && #[trigger] ch[j].1 == c && ch[j].0@ == id,
    decreases ch.len(),
{
    if ch.len() > 0 {
        if ch[0].0@ == id {
            assert(ch[0].1 == ch[0].1 && ch[0].0@ == id);
        } else {
            lemma_child_of_in_list(ch.drop_first(), id);
            if spec_child_of(ch, id) is Some {
                let c = spec_child_of(ch.drop_first(), id).unwrap();
                let j = choose|j: int|
                    0 <= j < ch.drop_first().len() && #[trigger] ch.drop_first()[j].1 == c
                        && ch.drop_first()[j].0@ == id;
                assert(ch[j + 1].1 == c && ch[j + 1].0@ == id);
            }
        }
    }
}

} // verus!
