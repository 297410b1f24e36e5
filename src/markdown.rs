//! From markdown text to the document tree and on to the specification tree.
use vstd::prelude::*;

use comrak::nodes::NodeValue;

use crate::fold::{outline, outline_result, Diagnostic, SpekError};
use crate::spek::Spek;
use crate::tree::{DocNode, NodeKind};

verus! {

/// What the markdown parser yields for a text: every node in pre-order, with
/// its kind and its number of children.
pub uninterp spec fn parsed_nodes(s: Seq<char>) -> Seq<(NodeKind, usize)>;

/// The pre-order encoding of the trees `cs`, one after another: each node as
/// its kind and its number of children, followed by its children.
pub open spec fn encode(cs: Seq<DocNode>) -> Seq<(NodeKind, usize)>
    decreases cs,
{
    if cs.len() == 0 {
        Seq::empty()
    } else {
        let n = cs[0];
        seq![(n.kind, n.children.len())] + encode(n.children@) + encode(cs.drop_first())
    }
}

/// Relies on `comrak::parse_document` (task lists enabled) and on
/// `Node::descendants`, which walks the parsed tree in pre-order; the result
/// depends on the text alone.
#[verifier::external_body]
fn parse_nodes(buffer: &str) -> (r: Vec<(NodeKind, usize)>)
    ensures
        r@ == parsed_nodes(buffer@),
{
    let arena = comrak::Arena::new();
    let mut options = comrak::Options::default();
    options.extension.tasklist = true;
    let mut out = Vec::new();
    for n in comrak::parse_document(&arena, buffer, &options).descendants() {
        out.push((match &n.data.borrow().value {
            NodeValue::Heading(h) => NodeKind::Heading(h.level),
            NodeValue::List(l) => NodeKind::List(l.bullet_char),
            NodeValue::Paragraph => NodeKind::Paragraph,
            NodeValue::Item(_) | NodeValue::TaskItem(_) => NodeKind::Item,
            NodeValue::Text(t) => NodeKind::Text(t.to_string()),
            v => NodeKind::Other(v.xml_node_name().to_string()),
        }, n.children().count()));
    }
    out
}

/// `e` is the start of `s`.
pub open spec fn starts(e: Seq<(NodeKind, usize)>, s: Seq<(NodeKind, usize)>) -> bool {
    e.len() <= s.len() && s.subrange(0, e.len() as int) == e
}

proof fn lemma_starts_split(
    x: Seq<(NodeKind, usize)>,
    y: Seq<(NodeKind, usize)>,
    s: Seq<(NodeKind, usize)>,
)
    requires
        starts(x + y, s),
    ensures
        starts(x, s),
        starts(y, s.subrange(x.len() as int, s.len() as int)),
{
    let w = s.subrange(0, (x + y).len() as int);
    assert(w == x + y);
    assert forall|i: int| 0 <= i < x.len() implies s[i] == x[i] by {
        assert(w[i] == s[i]);
        assert((x + y)[i] == x[i]);
    }
    assert(s.subrange(0, x.len() as int) =~= x);
    let r = s.subrange(x.len() as int, s.len() as int);
    assert forall|i: int| 0 <= i < y.len() implies r[i] == y[i] by {
        assert(w[x.len() + i] == s[x.len() + i]);
        assert((x + y)[x.len() + i] == y[i]);
    }
    assert(r.subrange(0, y.len() as int) =~= y);
}

proof fn lemma_encode_append(a: Seq<DocNode>, b: Seq<DocNode>)
    ensures
        encode(a + b) == encode(a) + encode(b),
    decreases a.len(),
{
    if a.len() == 0 {
        assert(a + b =~= b);
        assert(encode(a) + encode(b) =~= encode(b));
    } else {
        assert((a + b).drop_first() =~= a.drop_first() + b);
        assert((a + b)[0] == a[0]);
        lemma_encode_append(a.drop_first(), b);
        let head = seq![(a[0].kind, a[0].children.len())] + encode(a[0].children@);
        assert(encode(a + b) =~= head + (encode(a.drop_first()) + encode(b)));
        assert(encode(a) =~= head + encode(a.drop_first()));
    }
}

/// Two runs of as many trees, both at the start of `s`, encode alike.
proof fn lemma_encode_unique(a: Seq<DocNode>, b: Seq<DocNode>, s: Seq<(NodeKind, usize)>)
    requires
        a.len() == b.len(),
        starts(encode(a), s),
        starts(encode(b), s),
    ensures
        encode(a) == encode(b),
    decreases a,
{
    if a.len() > 0 {
        let x = a[0];
        let y = b[0];
        let s1 = s.drop_first();
        let ha = seq![(x.kind, x.children.len())];
        let hb = seq![(y.kind, y.children.len())];
        assert(encode(a) == ha + encode(x.children@) + encode(a.drop_first()));
        assert(encode(b) == hb + encode(y.children@) + encode(b.drop_first()));
        assert(s[0] == encode(a)[0]);
        assert(s[0] == encode(b)[0]);
        assert(x.children@.len() == y.children@.len());
        assert(ha + encode(x.children@) + encode(a.drop_first()) =~= ha + (encode(x.children@)
            + encode(a.drop_first())));
        assert(hb + encode(y.children@) + encode(b.drop_first()) =~= hb + (encode(y.children@)
            + encode(b.drop_first())));
        lemma_starts_split(ha, encode(x.children@) + encode(a.drop_first()), s);
        lemma_starts_split(hb, encode(y.children@) + encode(b.drop_first()), s);
        assert(s.subrange(1, s.len() as int) =~= s1);
        lemma_starts_split(encode(x.children@), encode(a.drop_first()), s1);
        lemma_starts_split(encode(y.children@), encode(b.drop_first()), s1);
        lemma_encode_unique(x.children@, y.children@, s1);
        let k = encode(x.children@).len() as int;
        lemma_encode_unique(a.drop_first(), b.drop_first(), s1.subrange(k, s1.len() as int));
    }
}

/// Where the first `j` trees of a node are rebuilt at `pos + 1 .. p` and no
/// tree starts at `p`, no tree with `count > j` children starts at `pos`.
proof fn lemma_no_tree_after_failed_child(
    nodes: Seq<(NodeKind, usize)>,
    pos: int,
    p: int,
    built: Seq<DocNode>,
    u: DocNode,
)
    requires
        0 <= pos < p <= nodes.len(),
        encode(built) == nodes.subrange(pos + 1, p),
        built.len() < u.children@.len(),
        forall|t: DocNode| !starts(#[trigger] encode(seq![t]), nodes.subrange(p, nodes.len() as int)),
    ensures
        !starts(encode(seq![u]), nodes.subrange(pos, nodes.len() as int)),
{
    if starts(encode(seq![u]), nodes.subrange(pos, nodes.len() as int)) {
        let s = nodes.subrange(pos, nodes.len() as int);
        let j = built.len() as int;
        let cs = u.children@;
        let h = seq![(u.kind, u.children.len())];
        assert(seq![u].drop_first() =~= Seq::<DocNode>::empty());
        assert(seq![u][0] == u);
        assert(encode(Seq::<DocNode>::empty()) == Seq::<(NodeKind, usize)>::empty());
        assert(encode(seq![u]) =~= h + encode(cs));
        lemma_starts_split(h, encode(cs), s);
        let s1 = s.subrange(1, s.len() as int);
        assert(cs =~= cs.take(j) + cs.skip(j));
        lemma_encode_append(cs.take(j), cs.skip(j));
        lemma_starts_split(encode(cs.take(j)), encode(cs.skip(j)), s1);
        assert(starts(encode(built), s1)) by {
            assert(s1.subrange(0, encode(built).len() as int) =~= nodes.subrange(pos + 1, p));
        }
        lemma_encode_unique(cs.take(j), built, s1);
        let rest = cs.skip(j);
        assert(rest =~= seq![rest[0]] + rest.drop_first());
        lemma_encode_append(seq![rest[0]], rest.drop_first());
        let s2 = s1.subrange(encode(cs.take(j)).len() as int, s1.len() as int);
        lemma_starts_split(encode(seq![rest[0]]), encode(rest.drop_first()), s2);
        assert(s2 =~= nodes.subrange(p, nodes.len() as int));
        assert(!starts(encode(seq![rest[0]]), nodes.subrange(p, nodes.len() as int)));
    }
}

proof fn lemma_encode_push(cs: Seq<DocNode>, c: DocNode)
    ensures
        encode(cs.push(c)) == encode(cs) + encode(seq![c]),
    decreases cs.len(),
{
    if cs.len() == 0 {
        assert(cs.push(c) =~= seq![c]);
        assert(encode(cs) + encode(seq![c]) =~= encode(seq![c]));
    } else {
        assert(cs.push(c).drop_first() =~= cs.drop_first().push(c));
        lemma_encode_push(cs.drop_first(), c);
        assert(cs.push(c)[0] == cs[0]);
        let head = seq![(cs[0].kind, cs[0].children.len())] + encode(cs[0].children@);
        assert(encode(cs.push(c)) =~= head + (encode(cs.drop_first()) + encode(seq![c])));
        assert(encode(cs) =~= head + encode(cs.drop_first()));
    }
}

impl NodeKind {
    /// An equal copy of this kind.
    pub fn duplicate(&self) -> (r: NodeKind)
        ensures
            r == *self,
    {
        match self {
            NodeKind::Heading(level) => NodeKind::Heading(*level),
            NodeKind::Paragraph => NodeKind::Paragraph,
            NodeKind::List(bullet) => NodeKind::List(*bullet),
            NodeKind::Item => NodeKind::Item,
            NodeKind::Text(t) => NodeKind::Text(t.clone()),
            NodeKind::Other(name) => NodeKind::Other(name.clone()),
        }
    }
}

/// Rebuilds the tree whose encoding starts at `pos`, and the position just
/// after it.
fn build_node(nodes: &Vec<(NodeKind, usize)>, pos: usize) -> (r: Result<(DocNode, usize), SpekError>)
    requires
        pos <= nodes@.len(),
    ensures
        r matches Ok((t, end)) ==> pos < end <= nodes@.len() && encode(seq![t])
            == nodes@.subrange(pos as int, end as int),
        r matches Err(e) ==> e is Malformed && forall|u: DocNode|
            !starts(#[trigger] encode(seq![u]), nodes@.subrange(pos as int, nodes@.len() as int)),
    decreases nodes@.len() - pos,
{
    if pos >= nodes.len() {
        proof {
            assert forall|u: DocNode|
                !starts(#[trigger] encode(seq![u]), nodes@.subrange(pos as int, nodes@.len() as int)) by {
                assert(encode(seq![u]).len() > 0);
            }
        }
        return Err(SpekError::Malformed);
    }
    let kind = nodes[pos].0.duplicate();
    let count = nodes[pos].1;
    let mut children: Vec<DocNode> = Vec::new();
    let mut p: usize = pos + 1;
    let mut j: usize = 0;
    while j < count
        invariant
            pos < p <= nodes@.len(),
            kind == nodes@[pos as int].0,
            count == nodes@[pos as int].1,
            j <= count,
            children@.len() == j,
            encode(children@) == nodes@.subrange(pos + 1, p as int),
        decreases count - j,
    {
        match build_node(nodes, p) {
            Err(e) => {
                proof {
                    assert forall|u: DocNode|
                        !starts(
                            #[trigger] encode(seq![u]),
                            nodes@.subrange(pos as int, nodes@.len() as int),
                        ) by {
                        let s = nodes@.subrange(pos as int, nodes@.len() as int);
                        if starts(encode(seq![u]), s) {
                            assert(encode(seq![u])[0] == s[0]);
                            assert(u.children@.len() == count);
                            lemma_no_tree_after_failed_child(nodes@, pos as int, p as int, children@, u);
                        }
                    }
                }
                return Err(e);
            },
            Ok((c, q)) => {
                proof {
                    lemma_encode_push(children@, c);
                    assert(nodes@.subrange(pos + 1, p as int) + nodes@.subrange(p as int, q as int)
                        =~= nodes@.subrange(pos + 1, q as int));
                }
                children.push(c);
                p = q;
            },
        }
        j = j + 1;
    }
    let t = DocNode { kind, children };
    proof {
        assert(seq![t].drop_first() =~= Seq::<DocNode>::empty());
        assert(encode(seq![t]) =~= seq![(kind, count)] + encode(children@) + encode(
            Seq::<DocNode>::empty(),
        ));
        assert(encode(seq![t]) =~= nodes@.subrange(pos as int, p as int));
    }
    Ok((t, p))
}

/// The one tree whose encoding is exactly `nodes`.
pub fn tree_of(nodes: &Vec<(NodeKind, usize)>) -> (r: Result<DocNode, SpekError>)
    ensures
        r matches Ok(t) ==> encode(seq![t]) == nodes@,
        r matches Err(e) ==> e is Malformed && forall|u: DocNode| encode(seq![u]) != nodes@,
{
    match build_node(nodes, 0) {
        Err(e) => {
            assert(nodes@.subrange(0, nodes@.len() as int) =~= nodes@);
            proof {
                assert forall|u: DocNode| encode(seq![u]) != nodes@ by {
                    if encode(seq![u]) == nodes@ {
                        assert(starts(encode(seq![u]), nodes@.subrange(0, nodes@.len() as int)));
                    }
                }
            }
            Err(e)
        },
        Ok((t, end)) => {
            if end != nodes.len() {
                proof {
                    assert forall|u: DocNode| encode(seq![u]) != nodes@ by {
                        if encode(seq![u]) == nodes@ {
                            assert(nodes@.subrange(0, nodes@.len() as int) =~= nodes@);
                            assert(starts(encode(seq![t]), nodes@));
                            assert(starts(encode(seq![u]), nodes@));
                            lemma_encode_unique(seq![t], seq![u], nodes@);
                        }
                    }
                }
                return Err(SpekError::Malformed);
            }
            assert(nodes@.subrange(0, end as int) =~= nodes@);
            Ok(t)
        },
    }
}

impl Spek {
    /// Parses `buffer` as markdown and folds the document into a
    /// specification tree, with the diagnostics of what was skipped.
    pub fn from_markdown(buffer: &str) -> (r: Result<(Spek, Vec<Diagnostic>), SpekError>)
        ensures
            (exists|t: DocNode| encode(seq![t]) == parsed_nodes(buffer@)) ==> exists|t: DocNode|
                encode(seq![t]) == parsed_nodes(buffer@) && outline_result(r) == outline(t),
            !(exists|t: DocNode| encode(seq![t]) == parsed_nodes(buffer@)) ==> r matches Err(
                SpekError::Malformed,
            ),
    {
        let nodes = parse_nodes(buffer);
        match tree_of(&nodes) {
            Err(e) => Err(e),
            Ok(root) => Spek::from_document(&root),
        }
    }
}

} // verus!
