//! The tree materializer: walks a markup tree with a cascading style context
//! and lists, in document order, the scene nodes to create and where to
//! attach them.
use vstd::prelude::*;
use crate::node::{FauxNode, Tree, trees};
use crate::rules::Stylesheet;
use crate::style::{FauxStyle, Num, Rgba, Style, initial_faux_style};

verus! {

broadcast use {vstd::std_specs::vec::axiom_vec_decreases_to_view, vstd::std_specs::vec::axiom_vec_index_decreases, vstd::seq::axiom_seq_index_decreases, vstd::seq::axiom_seq_subrange_decreases};

/// The properties that flow from an element to its descendants.
#[derive(Clone, Copy, Debug, PartialEq, Eq, Structural)]
pub struct CascadingStyle {
    pub font_size: Option<Num>,
    pub color: Option<Rgba>,
}

/// Where a new scene node is attached: under the node the walk started
/// from, or under the node created by an earlier entry of the list.
#[derive(Clone, Copy, Debug, PartialEq, Eq, Structural)]
pub enum Parent {
    Root,
    Spawned(usize),
}

/// One scene node to create.
#[derive(Clone, Debug, PartialEq, Eq)]
pub enum Spawn {
    /// A layout node for an element.
    Node { parent: Parent, style: Style, background_color: Option<Rgba> },
    /// A text leaf; an absent size or colour means the host's default.
    Text { parent: Parent, text: String, font_size: Option<Num>, color: Option<Rgba> },
}

/// The mathematical content of a `Spawn`.
pub enum Placed {
    Node { parent: Parent, style: Style, background_color: Option<Rgba> },
    Text { parent: Parent, text: Seq<char>, font_size: Option<Num>, color: Option<Rgba> },
}

impl Spawn {
    /// What this entry denotes.
    pub open spec fn placed(&self) -> Placed {
        match self {
            Spawn::Node { parent, style, background_color } => Placed::Node {
                parent: *parent,
                style: *style,
                background_color: *background_color,
            },
            Spawn::Text { parent, text, font_size, color } => Placed::Text {
                parent: *parent,
                text: text@,
                font_size: *font_size,
                color: *color,
            },
        }
    }
}

/// What a list of entries denotes, entry by entry.
pub open spec fn placed_all(v: Seq<Spawn>) -> Seq<Placed> {
    Seq::new(v.len(), |i: int| v[i].placed())
}

/// The context below an element whose classes resolved to `fs`: its font
/// size and text colour replace the inherited ones where it sets them.
pub open spec fn cascade(fs: FauxStyle, ctx: CascadingStyle) -> CascadingStyle {
    CascadingStyle {
        font_size: if fs.font_size is Some {
            fs.font_size
        } else {
            ctx.font_size
        },
        color: if fs.color is Some {
            fs.color
        } else {
            ctx.color
        },
    }
}

/// The style of an element with the given class attribute.
pub open spec fn element_style<S: Stylesheet>(sheet: &S, class: Option<Seq<char>>) -> FauxStyle {
    match class {
        Some(c) => sheet.spec_styles(c),
        None => initial_faux_style(),
    }
}

/// A tree holds no unexpanded host expression.
pub open spec fn resolved(t: Tree) -> bool
    decreases t,
{
    match t {
        Tree::Text(_) => true,
        Tree::Expr(_) => false,
        Tree::Element(ch, _) => resolved_seq(ch),
        Tree::Fragment(ch) => resolved_seq(ch),
    }
}

/// No tree of `ts` holds an unexpanded host expression.
pub open spec fn resolved_seq(ts: Seq<Tree>) -> bool
    decreases ts,
{
    ts.len() == 0 || (resolved_seq(ts.subrange(0, ts.len() - 1)) && resolved(ts[ts.len() - 1]))
}

proof fn lemma_resolved_seq_index(ts: Seq<Tree>, i: int)
    requires
        resolved_seq(ts),
        0 <= i < ts.len(),
    ensures
        resolved(ts[i]),
    decreases ts.len(),
{
    if i < ts.len() - 1 {
        let pre = ts.subrange(0, ts.len() - 1);
        lemma_resolved_seq_index(pre, i);
        assert(pre[i] == ts[i]);
    }
}

/// The scene nodes for `t`, attached under `parent` with context `ctx`,
/// when the list already holds `base` entries.
pub open spec fn plan<S: Stylesheet>(sheet: &S, t: Tree, parent: Parent, ctx: CascadingStyle, base: nat) -> Seq<
    Placed,
>
    decreases t,
{
    match t {
        Tree::Text(s) => seq![Placed::Text { parent, text: s, font_size: ctx.font_size, color: ctx.color }],
        Tree::Element(ch, class) => {
            let fs = element_style(sheet, class);
            seq![Placed::Node { parent, style: fs.style, background_color: fs.background_color }]
                + plan_seq(sheet, ch, Parent::Spawned(base as usize), cascade(fs, ctx), base + 1)
        },
        Tree::Fragment(ch) => plan_seq(sheet, ch, parent, ctx, base),
        Tree::Expr(_) => Seq::empty(),
    }
}

/// The scene nodes for each of `ts` in turn, all under `parent`.
pub open spec fn plan_seq<S: Stylesheet>(
    sheet: &S,
    ts: Seq<Tree>,
    parent: Parent,
    ctx: CascadingStyle,
    base: nat,
) -> Seq<Placed>
    decreases ts,
{
    if ts.len() == 0 {
        Seq::empty()
    } else {
        let pre = plan_seq(sheet, ts.subrange(0, ts.len() - 1), parent, ctx, base);
        pre + plan(sheet, ts[ts.len() - 1], parent, ctx, base + pre.len())
    }
}

proof fn lemma_placed_push(v: Seq<Spawn>, x: Spawn)
    ensures
        placed_all(v.push(x)) == placed_all(v) + seq![x.placed()],
{
    assert(placed_all(v.push(x)) == placed_all(v) + seq![x.placed()]);
}

/// Lists the scene nodes for `node` under `parent` after those already in `out`.
fn render_cascading<S: Stylesheet>(
    node: &FauxNode,
    parent: Parent,
    stylesheet: &S,
    cascading_styles: CascadingStyle,
    out: &mut Vec<Spawn>,
)
    requires
        resolved(node.tree()),
    ensures
        placed_all(final(out)@) == placed_all(old(out)@) + plan(
            stylesheet,
            node.tree(),
            parent,
            cascading_styles,
            old(out)@.len(),
        ),
    decreases node, 1nat,
{
    let ghost start = out@;
    match node {
        FauxNode::Text(text) => {
            let spawn = Spawn::Text {
                parent,
                text: text.clone(),
                font_size: cascading_styles.font_size,
                color: cascading_styles.color,
            };
            proof {
                lemma_placed_push(out@, spawn);
            }
            out.push(spawn);
        },
        FauxNode::Div(children, properties) => {
            let styles = match &properties.class {
                Some(class) => stylesheet.get_styles(class.as_str()),
                None => FauxStyle::initial(),
            };
            let me = out.len();
            let spawn = Spawn::Node { parent, style: styles.style, background_color: styles.background_color };
            proof {
                lemma_placed_push(out@, spawn);
            }
            out.push(spawn);
            let next = CascadingStyle {
                font_size: if styles.font_size.is_some() {
                    styles.font_size
                } else {
                    cascading_styles.font_size
                },
                color: if styles.color.is_some() {
                    styles.color
                } else {
                    cascading_styles.color
                },
            };
            proof {
                assert(node.tree() is Element ==> node.tree()->Element_0 == trees(children@));
                assert(node.tree() is Fragment ==> node.tree()->Fragment_0 == trees(children@));
            }
            render_children(children, Parent::Spawned(me), stylesheet, next, out);
            proof {
                let p = plan_seq(stylesheet, trees(children@), Parent::Spawned(me), next, me as nat + 1);
                assert(placed_all(start) + seq![spawn.placed()] + p == placed_all(start) + (seq![spawn.placed()]
                    + p));
            }
        },
        FauxNode::Fragment(children) => {
            proof {
                assert(node.tree() is Element ==> node.tree()->Element_0 == trees(children@));
                assert(node.tree() is Fragment ==> node.tree()->Fragment_0 == trees(children@));
            }
            render_children(children, parent, stylesheet, cascading_styles, out);
        },
        FauxNode::Expr(_) => {
            assert(placed_all(start) + Seq::<Placed>::empty() == placed_all(start));
        },
    }
}

/// Lists the scene nodes for each of `children` in turn.
fn render_children<S: Stylesheet>(
    children: &Vec<FauxNode>,
    parent: Parent,
    stylesheet: &S,
    cascading_styles: CascadingStyle,
    out: &mut Vec<Spawn>,
)
    requires
        resolved_seq(trees(children@)),
    ensures
        placed_all(final(out)@) == placed_all(old(out)@) + plan_seq(
            stylesheet,
            trees(children@),
            parent,
            cascading_styles,
            old(out)@.len(),
        ),
    decreases children, 0nat,
{
    let ghost start = out@;
    let ghost ts = trees(children@);
    proof {
        crate::node::lemma_trees_index(children@);
        assert(ts.subrange(0, 0) == Seq::<Tree>::empty());
        assert(placed_all(start) + Seq::<Placed>::empty() == placed_all(start));
    }
    let mut i: usize = 0;
    while i < children.len()
        invariant
            ts == trees(children@),
            ts.len() == children@.len(),
            forall|k: int| 0 <= k < children@.len() ==> #[trigger] ts[k] == children@[k].tree(),
            resolved_seq(ts),
            i <= children@.len(),
            placed_all(out@) == placed_all(start) + plan_seq(
                stylesheet,
                ts.subrange(0, i as int),
                parent,
                cascading_styles,
                start.len(),
            ),
            out@.len() >= start.len(),
        decreases children@.len() - i,
    {
        let ghost before = out@;
        proof {
            lemma_resolved_seq_index(ts, i as int);
        }
        render_cascading(&children[i], parent, stylesheet, cascading_styles, out);
        proof {
            let pre = ts.subrange(0, i as int);
            let cur = ts.subrange(0, i + 1);
            assert(cur.subrange(0, cur.len() - 1) == pre);
            assert(cur[cur.len() - 1] == children@[i as int].tree());
            let pp = plan_seq(stylesheet, pre, parent, cascading_styles, start.len());
            assert(placed_all(before).len() == before.len());
            assert(placed_all(start).len() == start.len());
            assert(before.len() == start.len() + pp.len());
            let q = plan(stylesheet, children@[i as int].tree(), parent, cascading_styles, before.len());
            assert(placed_all(start) + pp + q == placed_all(start) + (pp + q));
        }
        i = i + 1;
    }
    proof {
        assert(ts.subrange(0, children@.len() as int) == ts);
    }
}

/// Lists the scene nodes that materialize `node` under the node the walk
/// starts from, in document order. Each text leaf carries the font size and
/// colour inherited from its nearest ancestors that set them.
pub fn render<S: Stylesheet>(node: &FauxNode, stylesheet: &S) -> (r: Vec<Spawn>)
    requires
        resolved(node.tree()),
    ensures
        placed_all(r@) == plan(
            stylesheet,
            node.tree(),
            Parent::Root,
            CascadingStyle { font_size: None, color: None },
            0,
        ),
{
    let mut out: Vec<Spawn> = Vec::new();
    render_cascading(node, Parent::Root, stylesheet, CascadingStyle { font_size: None, color: None }, &mut out);
    assert(placed_all(Seq::<Spawn>::empty()) + plan(
        stylesheet,
        node.tree(),
        Parent::Root,
        CascadingStyle { font_size: None, color: None },
        0,
    ) == plan(stylesheet, node.tree(), Parent::Root, CascadingStyle { font_size: None, color: None }, 0));
    out
}

/// Whether `node` holds no unexpanded host expression, so that it can be
/// materialized.
pub fn is_resolved(node: &FauxNode) -> (r: bool)
    ensures
        r == resolved(node.tree()),
    decreases node, 1nat,
{
    match node {
        FauxNode::Text(s) => {
            assert(node.tree() == Tree::Text(s@));
            true
        },
        FauxNode::Expr(s) => {
            assert(node.tree() == Tree::Expr(s@));
            false
        },
        FauxNode::Div(children, p) => {
            assert(node.tree() == Tree::Element(trees(children@), crate::node::class_view(*p)));
            all_resolved(children)
        },
        FauxNode::Fragment(children) => {
            assert(node.tree() == Tree::Fragment(trees(children@)));
            all_resolved(children)
        },
    }
}

fn all_resolved(children: &Vec<FauxNode>) -> (r: bool)
    ensures
        r == resolved_seq(trees(children@)),
    decreases children, 0nat,
{
    let ghost ts = trees(children@);
    proof {
        crate::node::lemma_trees_index(children@);
        assert(ts.subrange(0, 0).len() == 0);
    }
    let mut i: usize = 0;
    while i < children.len()
        invariant
            ts == trees(children@),
            i <= children@.len(),
            ts.len() == children@.len(),
            forall|k: int| 0 <= k < children@.len() ==> #[trigger] ts[k] == children@[k].tree(),
            resolved_seq(ts.subrange(0, i as int)),
        decreases children@.len() - i,
    {
        if !is_resolved(&children[i]) {
            proof {
                if resolved_seq(ts) {
                    lemma_resolved_seq_index(ts, i as int);
                }
            }
            return false;
        }
        assert(ts.subrange(0, i + 1).subrange(0, i as int) == ts.subrange(0, i as int));
        i = i + 1;
    }
    assert(ts.subrange(0, children@.len() as int) == ts);
    true
}

proof fn lemma_plan_seq_two<S: Stylesheet>(
    sheet: &S,
    a: Tree,
    b: Tree,
    parent: Parent,
    ctx: CascadingStyle,
    base: nat,
)
    ensures
        plan_seq(sheet, seq![a, b], parent, ctx, base) == plan(sheet, a, parent, ctx, base) + plan(
            sheet,
            b,
            parent,
            ctx,
            base + plan(sheet, a, parent, ctx, base).len(),
        ),
{
    let ts = seq![a, b];
    assert(ts.subrange(0, 1) == seq![a]);
    assert(ts[1] == b);
    lemma_plan_seq_one(sheet, a, parent, ctx, base);
}

proof fn lemma_plan_seq_one<S: Stylesheet>(sheet: &S, a: Tree, parent: Parent, ctx: CascadingStyle, base: nat)
    ensures
        plan_seq(sheet, seq![a], parent, ctx, base) == plan(sheet, a, parent, ctx, base),
{
    let ts = seq![a];
    assert(ts.subrange(0, 0) == Seq::<Tree>::empty());
    assert(ts[0] == a);
    assert(plan_seq(sheet, Seq::<Tree>::empty(), parent, ctx, base) == Seq::<Placed>::empty());
    assert(Seq::<Placed>::empty() + plan(sheet, a, parent, ctx, base) == plan(sheet, a, parent, ctx, base));
}

/// A fragment creates no scene node: `<>"a"<div>"b"</div></>` under a
/// parent yields a text leaf and one element node directly under that
/// parent, and the element's text under the element.
pub proof fn lemma_fragment_is_transparent<S: Stylesheet>(
    sheet: &S,
    a: Seq<char>,
    b: Seq<char>,
    class: Option<Seq<char>>,
    parent: Parent,
    ctx: CascadingStyle,
    base: nat,
)
    requires
        base < usize::MAX,
    ensures
        ({
            let fs = element_style(sheet, class);
            let inner = cascade(fs, ctx);
            plan(
                sheet,
                Tree::Fragment(seq![Tree::Text(a), Tree::Element(seq![Tree::Text(b)], class)]),
                parent,
                ctx,
                base,
            ) == seq![
                Placed::Text { parent, text: a, font_size: ctx.font_size, color: ctx.color },
                Placed::Node { parent, style: fs.style, background_color: fs.background_color },
                Placed::Text {
                    parent: Parent::Spawned((base + 1) as usize),
                    text: b,
                    font_size: inner.font_size,
                    color: inner.color,
                },
            ]
        }),
{
    let fs = element_style(sheet, class);
    let inner = cascade(fs, ctx);
    let el = Tree::Element(seq![Tree::Text(b)], class);
    lemma_plan_seq_two(sheet, Tree::Text(a), el, parent, ctx, base);
    lemma_plan_seq_one(sheet, Tree::Text(b), Parent::Spawned((base + 1) as usize), inner, base + 2);
}

/// Font size and text colour cascade: a text leaf inside an element renders
/// with the element's resolved size and colour; a nested element that sets
/// only a size overrides the size for its subtree, and the colour still
/// comes from the outer element.
pub proof fn lemma_cascade_overrides<S: Stylesheet>(
    sheet: &S,
    outer: Seq<char>,
    inner: Seq<char>,
    x: Seq<char>,
    y: Seq<char>,
    ctx: CascadingStyle,
)
    requires
        sheet.spec_styles(outer).font_size is Some,
        sheet.spec_styles(outer).color is Some,
        sheet.spec_styles(inner).font_size is Some,
        sheet.spec_styles(inner).color is None,
    ensures
        ({
            let o = sheet.spec_styles(outer);
            let i = sheet.spec_styles(inner);
            let t = Tree::Element(
                seq![Tree::Text(x), Tree::Element(seq![Tree::Text(y)], Some(inner))],
                Some(outer),
            );
            let out = plan(sheet, t, Parent::Root, ctx, 0);
            &&& out.len() == 4
            &&& out[1] == Placed::Text {
                parent: Parent::Spawned(0),
                text: x,
                font_size: o.font_size,
                color: o.color,
            }
            &&& out[3] == Placed::Text {
                parent: Parent::Spawned(2),
                text: y,
                font_size: i.font_size,
                color: o.color,
            }
        }),
{
    let o = sheet.spec_styles(outer);
    let i = sheet.spec_styles(inner);
    let c1 = cascade(o, ctx);
    let c2 = cascade(i, c1);
    let el = Tree::Element(seq![Tree::Text(y)], Some(inner));
    lemma_plan_seq_two(sheet, Tree::Text(x), el, Parent::Spawned(0), c1, 1);
    lemma_plan_seq_one(sheet, Tree::Text(y), Parent::Spawned(2), c2, 3);
}

/// Rendering a sequence splits at any point: the second part follows the
/// first, numbered after it.
pub proof fn lemma_plan_seq_split<S: Stylesheet>(
    sheet: &S,
    a: Seq<Tree>,
    b: Seq<Tree>,
    parent: Parent,
    ctx: CascadingStyle,
    base: nat,
)
    ensures
        plan_seq(sheet, a + b, parent, ctx, base) == plan_seq(sheet, a, parent, ctx, base) + plan_seq(
            sheet,
            b,
            parent,
            ctx,
            base + plan_seq(sheet, a, parent, ctx, base).len(),
        ),
    decreases b.len(),
{
    let pa = plan_seq(sheet, a, parent, ctx, base);
    if b.len() == 0 {
        assert(a + b == a);
        assert(pa + Seq::<Placed>::empty() == pa);
    } else {
        let ab = a + b;
        let b1 = b.subrange(0, b.len() - 1);
        assert(ab.subrange(0, ab.len() - 1) == a + b1);
        assert(ab[ab.len() - 1] == b[b.len() - 1]);
        lemma_plan_seq_split(sheet, a, b1, parent, ctx, base);
        let pb1 = plan_seq(sheet, b1, parent, ctx, base + pa.len());
        let last = plan(sheet, b[b.len() - 1], parent, ctx, base + pa.len() + pb1.len());
        assert(pa + pb1 + last == pa + (pb1 + last));
    }
}

/// A fragment creates no scene node of its own: it renders exactly as its
/// children do, in order, under the same parent and with the same context;
/// so a fragment of `a` then `b` renders as `a`'s nodes followed by `b`'s.
pub proof fn lemma_fragment_distributes<S: Stylesheet>(
    sheet: &S,
    a: Seq<Tree>,
    b: Seq<Tree>,
    parent: Parent,
    ctx: CascadingStyle,
    base: nat,
)
    ensures
        plan(sheet, Tree::Fragment(a + b), parent, ctx, base) == plan(
            sheet,
            Tree::Fragment(a),
            parent,
            ctx,
            base,
        ) + plan(
            sheet,
            Tree::Fragment(b),
            parent,
            ctx,
            base + plan(sheet, Tree::Fragment(a), parent, ctx, base).len(),
        ),
{
    lemma_plan_seq_split(sheet, a, b, parent, ctx, base);
}

} // verus!
