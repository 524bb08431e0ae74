//! The markup grammar, and the recursive-descent parser that builds a
//! `FauxNode` tree from markup source.
use vstd::prelude::*;
use crate::lexer::{Tok, Token, TokenKind, lex, lex_from, tokens_view};
use crate::node::{FauxNode, Properties, Tree, trees};
use crate::text::{chars_of, eq_lit};

verus! {

/// Why markup was rejected, and at which source position (in characters).
#[derive(Clone, Debug, PartialEq, Eq)]
pub enum ParseError {
    /// A tag other than `div`.
    UnsupportedTag { name: String, position: usize },
    /// An attribute other than `class`.
    UnsupportedAttribute { name: String, position: usize },
    /// A closing tag whose name differs from the opening tag's.
    MismatchedTag { open: String, close: String, position: usize },
    /// Anything else the grammar does not allow there.
    UnexpectedToken { position: usize },
    /// An element or fragment nested deeper than `MAX_NESTING`.
    NestingTooDeep { position: usize },
}

/// How deeply elements and fragments may nest.
pub const MAX_NESTING: usize = 128;

/// The mathematical content of a `ParseError`.
pub enum Failure {
    UnsupportedTag(Seq<char>, nat),
    UnsupportedAttribute(Seq<char>, nat),
    MismatchedTag(Seq<char>, Seq<char>, nat),
    UnexpectedToken(nat),
    NestingTooDeep(nat),
}

impl ParseError {
    /// What this error denotes.
    pub open spec fn failure(&self) -> Failure {
        match self {
            ParseError::UnsupportedTag { name, position } => Failure::UnsupportedTag(name@, *position as nat),
            ParseError::UnsupportedAttribute { name, position } => Failure::UnsupportedAttribute(
                name@,
                *position as nat,
            ),
            ParseError::MismatchedTag { open, close, position } => Failure::MismatchedTag(
                open@,
                close@,
                *position as nat,
            ),
            ParseError::UnexpectedToken { position } => Failure::UnexpectedToken(*position as nat),
            ParseError::NestingTooDeep { position } => Failure::NestingTooDeep(*position as nat),
        }
    }
}

/// The source position of token `p`, or `end` past the last token.
pub open spec fn pos_at(ts: Seq<(Tok, nat)>, p: int, end: nat) -> nat {
    if 0 <= p < ts.len() {
        ts[p].1
    } else {
        end
    }
}

pub open spec fn is_lt(ts: Seq<(Tok, nat)>, p: int) -> bool {
    0 <= p < ts.len() && ts[p].0 is Lt
}

pub open spec fn is_gt(ts: Seq<(Tok, nat)>, p: int) -> bool {
    0 <= p < ts.len() && ts[p].0 is Gt
}

pub open spec fn is_slash(ts: Seq<(Tok, nat)>, p: int) -> bool {
    0 <= p < ts.len() && ts[p].0 is Slash
}

pub open spec fn is_eq(ts: Seq<(Tok, nat)>, p: int) -> bool {
    0 <= p < ts.len() && ts[p].0 is Eq
}

pub open spec fn is_ident(ts: Seq<(Tok, nat)>, p: int) -> bool {
    0 <= p < ts.len() && ts[p].0 is Ident
}

pub open spec fn is_str(ts: Seq<(Tok, nat)>, p: int) -> bool {
    0 <= p < ts.len() && ts[p].0 is Str
}

/// An `UnexpectedToken` failure at token `p`.
pub open spec fn unexpected<A>(ts: Seq<(Tok, nat)>, p: int, end: nat) -> Result<A, Failure> {
    Err(Failure::UnexpectedToken(pos_at(ts, p, end)))
}

/// `t` followed by the nodes of `rest`, or the failure of `rest`.
pub open spec fn prepend_node(t: Seq<Tree>, rest: Result<(Seq<Tree>, int), Failure>) -> Result<
    (Seq<Tree>, int),
    Failure,
> {
    match rest {
        Ok((ns, q)) => Ok((t + ns, q)),
        Err(e) => Err(e),
    }
}

/// The attributes from token `p` up to the `>` that ends an opening tag;
/// `class` is the class seen so far. A later `class` replaces an earlier one.
pub open spec fn parse_attrs(ts: Seq<(Tok, nat)>, p: int, class: Option<Seq<char>>, end: nat) -> Result<
    (Option<Seq<char>>, int),
    Failure,
>
    decreases ts.len() - p,
{
    if p < 0 || is_gt(ts, p) {
        Ok((class, p))
    } else if !is_ident(ts, p) {
        unexpected(ts, p, end)
    } else if !is_eq(ts, p + 1) {
        unexpected(ts, p + 1, end)
    } else if !is_str(ts, p + 2) {
        unexpected(ts, p + 2, end)
    } else if ts[p].0->Ident_0 == "class"@ {
        parse_attrs(ts, p + 3, Some(ts[p + 2].0->Str_0), end)
    } else {
        Err(Failure::UnsupportedAttribute(ts[p].0->Ident_0, ts[p].1))
    }
}

/// The nodes from token `p` on, up to the end or to a `<` that opens neither
/// an element nor a fragment, and the index where they stop; `depth`
/// elements and fragments enclose them.
pub open spec fn parse_seq(ts: Seq<(Tok, nat)>, p: int, depth: nat, end: nat) -> Result<
    (Seq<Tree>, int),
    Failure,
>
    decreases ts.len() - p, 2nat,
{
    if p < 0 || p >= ts.len() {
        Ok((Seq::empty(), p))
    } else if is_lt(ts, p) && (is_gt(ts, p + 1) || is_ident(ts, p + 1)) && depth >= MAX_NESTING {
        Err(Failure::NestingTooDeep(ts[p].1))
    } else if is_lt(ts, p) && is_gt(ts, p + 1) {
        match parse_seq(ts, p + 2, depth + 1, end) {
            Ok((ch, q)) => if q < p + 2 {
                unexpected(ts, q, end)
            } else if !is_lt(ts, q) {
                unexpected(ts, q, end)
            } else if !is_slash(ts, q + 1) {
                unexpected(ts, q + 1, end)
            } else if !is_gt(ts, q + 2) {
                unexpected(ts, q + 2, end)
            } else {
                prepend_node(seq![Tree::Fragment(ch)], parse_seq(ts, q + 3, depth, end))
            },
            Err(e) => Err(e),
        }
    } else if is_lt(ts, p) && is_ident(ts, p + 1) {
        match parse_element(ts, p, depth, end) {
            Ok((t, q)) => if q <= p || q > ts.len() {
                unexpected(ts, q, end)
            } else {
                prepend_node(seq![t], parse_seq(ts, q, depth, end))
            },
            Err(e) => Err(e),
        }
    } else if is_str(ts, p) {
        prepend_node(seq![Tree::Text(ts[p].0->Str_0)], parse_seq(ts, p + 1, depth, end))
    } else if ts[p].0 is Block {
        prepend_node(seq![Tree::Expr(ts[p].0->Block_0)], parse_seq(ts, p + 1, depth, end))
    } else if is_lt(ts, p) {
        Ok((Seq::empty(), p))
    } else {
        unexpected(ts, p, end)
    }
}

/// The element that starts with `<` at token `p` and a name at `p + 1`, and
/// the index just past its closing tag; `depth` elements and fragments
/// enclose it.
pub open spec fn parse_element(ts: Seq<(Tok, nat)>, p: int, depth: nat, end: nat) -> Result<
    (Tree, int),
    Failure,
>
    decreases ts.len() - p, 1nat,
{
    if p < 0 || !is_ident(ts, p + 1) {
        unexpected(ts, p + 1, end)
    } else {
        let name = ts[p + 1].0->Ident_0;
        if name != "div"@ {
            Err(Failure::UnsupportedTag(name, ts[p + 1].1))
        } else {
            match parse_attrs(ts, p + 2, None, end) {
                Ok((class, q)) => if q < p + 2 || !is_gt(ts, q) {
                    unexpected(ts, q, end)
                } else {
                    match parse_seq(ts, q + 1, depth + 1, end) {
                        Ok((ch, r)) => if r < q + 1 || !is_lt(ts, r) {
                            unexpected(ts, r, end)
                        } else if !is_slash(ts, r + 1) {
                            unexpected(ts, r + 1, end)
                        } else if !is_ident(ts, r + 2) {
                            unexpected(ts, r + 2, end)
                        } else if ts[r + 2].0->Ident_0 != name {
                            Err(Failure::MismatchedTag(name, ts[r + 2].0->Ident_0, ts[r + 2].1))
                        } else if !is_gt(ts, r + 3) {
                            unexpected(ts, r + 3, end)
                        } else {
                            Ok((Tree::Element(ch, class), r + 4))
                        },
                        Err(e) => Err(e),
                    }
                },
                Err(e) => Err(e),
            }
        }
    }
}

/// A whole document: a sequence of nodes that uses up every token, wrapped
/// in a fragment.
pub open spec fn parse_document(ts: Seq<(Tok, nat)>, end: nat) -> Result<Tree, Failure> {
    match parse_seq(ts, 0, 0, end) {
        Ok((ns, q)) => if q == ts.len() {
            Ok(Tree::Fragment(ns))
        } else {
            unexpected(ts, q, end)
        },
        Err(e) => Err(e),
    }
}

/// What markup source parses to.
pub open spec fn markup(source: Seq<char>) -> Result<Tree, Failure> {
    match lex_from(source, 0) {
        Ok(ts) => parse_document(ts, source.len()),
        Err(p) => Err(Failure::UnexpectedToken(p)),
    }
}

proof fn lemma_trees_push(v: Seq<FauxNode>, x: FauxNode)
    ensures
        trees(v.push(x)) == trees(v) + seq![x.tree()],
{
    assert(v.push(x).subrange(0, v.len() as int) == v);
    assert(trees(v).push(x.tree()) == trees(v) + seq![x.tree()]);
}

proof fn lemma_prepend_assoc(a: Seq<Tree>, b: Seq<Tree>, r: Result<(Seq<Tree>, int), Failure>)
    ensures
        prepend_node(a, prepend_node(b, r)) == prepend_node(a + b, r),
{
    match r {
        Ok((ns, q)) => assert(a + (b + ns) == (a + b) + ns),
        Err(_) => {},
    }
}

fn pos_of(ts: &Vec<Token>, p: usize, end: usize) -> (r: usize)
    ensures
        r == pos_at(tokens_view(ts@), p as int, end as nat),
{
    if p < ts.len() {
        ts[p].pos
    } else {
        end
    }
}

fn unexpected_at(ts: &Vec<Token>, p: usize, end: usize) -> (r: ParseError)
    ensures
        r.failure() == Failure::UnexpectedToken(pos_at(tokens_view(ts@), p as int, end as nat)),
{
    ParseError::UnexpectedToken { position: pos_of(ts, p, end) }
}

fn lt_at(ts: &Vec<Token>, p: usize) -> (r: bool)
    ensures
        r == is_lt(tokens_view(ts@), p as int),
{
    p < ts.len() && matches!(ts[p].kind, TokenKind::Lt)
}

fn gt_at(ts: &Vec<Token>, p: usize) -> (r: bool)
    ensures
        r == is_gt(tokens_view(ts@), p as int),
{
    p < ts.len() && matches!(ts[p].kind, TokenKind::Gt)
}

fn slash_at(ts: &Vec<Token>, p: usize) -> (r: bool)
    ensures
        r == is_slash(tokens_view(ts@), p as int),
{
    p < ts.len() && matches!(ts[p].kind, TokenKind::Slash)
}

fn eq_at(ts: &Vec<Token>, p: usize) -> (r: bool)
    ensures
        r == is_eq(tokens_view(ts@), p as int),
{
    p < ts.len() && matches!(ts[p].kind, TokenKind::Eq)
}

fn ident_at(ts: &Vec<Token>, p: usize) -> (r: Option<String>)
    ensures
        r is Some <==> is_ident(tokens_view(ts@), p as int),
        r matches Some(s) ==> s@ == tokens_view(ts@)[p as int].0->Ident_0,
{
    if p < ts.len() {
        match &ts[p].kind {
            TokenKind::Ident(s) => Some(s.clone()),
            _ => None,
        }
    } else {
        None
    }
}

fn str_at(ts: &Vec<Token>, p: usize) -> (r: Option<String>)
    ensures
        r is Some <==> is_str(tokens_view(ts@), p as int),
        r matches Some(s) ==> s@ == tokens_view(ts@)[p as int].0->Str_0,
{
    if p < ts.len() {
        match &ts[p].kind {
            TokenKind::Str(s) => Some(s.clone()),
            _ => None,
        }
    } else {
        None
    }
}

fn block_at(ts: &Vec<Token>, p: usize) -> (r: Option<String>)
    ensures
        r is Some <==> (p < ts@.len() && tokens_view(ts@)[p as int].0 is Block),
        r matches Some(s) ==> s@ == tokens_view(ts@)[p as int].0->Block_0,
{
    if p < ts.len() {
        match &ts[p].kind {
            TokenKind::Block(s) => Some(s.clone()),
            _ => None,
        }
    } else {
        None
    }
}

/// The attributes of an opening tag, from token `p` up to its `>`.
fn parse_properties(ts: &Vec<Token>, p: usize, end: usize) -> (r: Result<(Properties, usize), ParseError>)
    ensures
        match parse_attrs(tokens_view(ts@), p as int, None, end as nat) {
            Ok((class, q)) => r matches Ok((props, qq)) && crate::node::class_view(props) == class && qq == q,
            Err(e) => r matches Err(err) && err.failure() == e,
        },
{
    let ghost tv = tokens_view(ts@);
    let n = ts.len();
    let mut properties = Properties { class: None };
    let mut i = p;
    while !gt_at(ts, i)
        invariant
            tv == tokens_view(ts@),
            n == ts@.len(),
            p <= i,
            i <= n || i == p,
            parse_attrs(tv, p as int, None, end as nat) == parse_attrs(
                tv,
                i as int,
                crate::node::class_view(properties),
                end as nat,
            ),
        decreases ts@.len() - i,
    {
        let name = match ident_at(ts, i) {
            Some(n) => n,
            None => {
                return Err(unexpected_at(ts, i, end));
            },
        };
        if !eq_at(ts, i + 1) {
            return Err(unexpected_at(ts, i + 1, end));
        }
        let value = match str_at(ts, i + 2) {
            Some(v) => v,
            None => {
                return Err(unexpected_at(ts, i + 2, end));
            },
        };
        if eq_lit(&chars_of(name.as_str()), "class") {
            properties.class = Some(value);
        } else {
            return Err(ParseError::UnsupportedAttribute { name, position: ts[i].pos });
        }
        i = i + 3;
    }
    Ok((properties, i))
}

/// The nodes from token `p` on; see `parse_seq`.
fn parse_nodes(ts: &Vec<Token>, p: usize, depth: usize, end: usize) -> (r: Result<
    (Vec<FauxNode>, usize),
    ParseError,
>)
    requires
        p <= ts@.len(),
        depth <= MAX_NESTING,
    ensures
        match parse_seq(tokens_view(ts@), p as int, depth as nat, end as nat) {
            Ok((ns, q)) => r matches Ok((v, qq)) && trees(v@) == ns && qq == q && p <= q <= ts@.len(),
            Err(e) => r matches Err(err) && err.failure() == e,
        },
    decreases ts@.len() - p, 2nat,
{
    let ghost tv = tokens_view(ts@);
    let n = ts.len();
    let mut nodes: Vec<FauxNode> = Vec::new();
    let mut i = p;
    proof {
        lemma_prepend_identity(parse_seq(tv, p as int, depth as nat, end as nat));
    }
    while i < n
        invariant
            tv == tokens_view(ts@),
            n == ts@.len(),
            p <= i <= n,
            depth <= MAX_NESTING,
            parse_seq(tv, p as int, depth as nat, end as nat) == prepend_node(
                trees(nodes@),
                parse_seq(tv, i as int, depth as nat, end as nat),
            ),
        decreases n - i,
    {
        let ghost before = nodes@;
        if lt_at(ts, i) && (gt_at(ts, i + 1) || ident_at(ts, i + 1).is_some()) && depth >= MAX_NESTING {
            return Err(ParseError::NestingTooDeep { position: ts[i].pos });
        }
        if lt_at(ts, i) && gt_at(ts, i + 1) {
            let (children, q) = match parse_nodes(ts, i + 2, depth + 1, end) {
                Ok(x) => x,
                Err(e) => {
                    return Err(e);
                },
            };
            if !lt_at(ts, q) {
                return Err(unexpected_at(ts, q, end));
            }
            if !slash_at(ts, q + 1) {
                return Err(unexpected_at(ts, q + 1, end));
            }
            if !gt_at(ts, q + 2) {
                return Err(unexpected_at(ts, q + 2, end));
            }
            let node = FauxNode::Fragment(children);
            proof {
                lemma_trees_push(before, node);
                lemma_prepend_assoc(trees(before), seq![node.tree()], parse_seq(tv, q + 3, depth as nat, end as nat));
            }
            nodes.push(node);
            i = q + 3;
        } else if lt_at(ts, i) && ident_at(ts, i + 1).is_some() {
            let (node, q) = match parse_tag(ts, i, depth, end) {
                Ok(x) => x,
                Err(e) => {
                    return Err(e);
                },
            };
            proof {
                lemma_trees_push(before, node);
                lemma_prepend_assoc(trees(before), seq![node.tree()], parse_seq(tv, q as int, depth as nat, end as nat));
            }
            nodes.push(node);
            i = q;
        } else if let Some(text) = str_at(ts, i) {
            let node = FauxNode::Text(text);
            proof {
                lemma_trees_push(before, node);
                lemma_prepend_assoc(trees(before), seq![node.tree()], parse_seq(tv, i + 1, depth as nat, end as nat));
            }
            nodes.push(node);
            i = i + 1;
        } else if let Some(expr) = block_at(ts, i) {
            let node = FauxNode::Expr(expr);
            proof {
                lemma_trees_push(before, node);
                lemma_prepend_assoc(trees(before), seq![node.tree()], parse_seq(tv, i + 1, depth as nat, end as nat));
            }
            nodes.push(node);
            i = i + 1;
        } else if lt_at(ts, i) {
            proof {
                lemma_prepend_identity_right(trees(nodes@), i as int);
            }
            return Ok((nodes, i));
        } else {
            return Err(unexpected_at(ts, i, end));
        }
    }
    proof {
        lemma_prepend_identity_right(trees(nodes@), i as int);
    }
    Ok((nodes, i))
}

proof fn lemma_prepend_identity(r: Result<(Seq<Tree>, int), Failure>)
    ensures
        prepend_node(Seq::empty(), r) == r,
{
    match r {
        Ok((ns, q)) => assert(Seq::<Tree>::empty() + ns == ns),
        Err(_) => {},
    }
}

proof fn lemma_prepend_identity_right(a: Seq<Tree>, q: int)
    ensures
        prepend_node(a, Ok((Seq::empty(), q))) == Ok::<(Seq<Tree>, int), Failure>((a, q)),
{
    assert(a + Seq::<Tree>::empty() == a);
}

/// The element that starts at token `p`; only `div` is a known tag.
fn parse_tag(ts: &Vec<Token>, p: usize, depth: usize, end: usize) -> (r: Result<(FauxNode, usize), ParseError>)
    requires
        p < ts@.len(),
        depth < MAX_NESTING,
    ensures
        match parse_element(tokens_view(ts@), p as int, depth as nat, end as nat) {
            Ok((t, q)) => r matches Ok((node, qq)) && node.tree() == t && qq == q && p < q <= ts@.len(),
            Err(e) => r matches Err(err) && err.failure() == e,
        },
    decreases ts@.len() - p, 1nat,
{
    let n = ts.len();
    let tag = match ident_at(ts, p + 1) {
        Some(t) => t,
        None => {
            return Err(unexpected_at(ts, p + 1, end));
        },
    };
    if eq_lit(&chars_of(tag.as_str()), "div") {
        parse_div_tag(ts, p, tag, depth, end)
    } else {
        Err(ParseError::UnsupportedTag { name: tag, position: ts[p + 1].pos })
    }
}

/// The rest of a `div` element whose `<` is token `p` and whose name is `opening_tag`.
fn parse_div_tag(ts: &Vec<Token>, p: usize, opening_tag: String, depth: usize, end: usize) -> (r: Result<
    (FauxNode, usize),
    ParseError,
>)
    requires
        p + 1 < ts@.len(),
        is_ident(tokens_view(ts@), p + 1),
        opening_tag@ == tokens_view(ts@)[p + 1].0->Ident_0,
        opening_tag@ == "div"@,
        depth < MAX_NESTING,
    ensures
        match parse_element(tokens_view(ts@), p as int, depth as nat, end as nat) {
            Ok((t, q)) => r matches Ok((node, qq)) && node.tree() == t && qq == q && p < q <= ts@.len(),
            Err(e) => r matches Err(err) && err.failure() == e,
        },
    decreases ts@.len() - p, 0nat,
{
    let n = ts.len();
    let (properties, q) = match parse_properties(ts, p + 2, end) {
        Ok(x) => x,
        Err(e) => {
            return Err(e);
        },
    };
    if q < p + 2 || !gt_at(ts, q) {
        return Err(unexpected_at(ts, q, end));
    }
    let (children, r) = match parse_nodes(ts, q + 1, depth + 1, end) {
        Ok(x) => x,
        Err(e) => {
            return Err(e);
        },
    };
    if !lt_at(ts, r) {
        return Err(unexpected_at(ts, r, end));
    }
    if !slash_at(ts, r + 1) {
        return Err(unexpected_at(ts, r + 1, end));
    }
    let closing_tag = match ident_at(ts, r + 2) {
        Some(t) => t,
        None => {
            return Err(unexpected_at(ts, r + 2, end));
        },
    };
    if closing_tag != opening_tag {
        return Err(ParseError::MismatchedTag { open: opening_tag, close: closing_tag, position: ts[r + 2].pos });
    }
    if !gt_at(ts, r + 3) {
        return Err(unexpected_at(ts, r + 3, end));
    }
    Ok((FauxNode::Div(children, properties), r + 4))
}

/// Parses markup source into a tree: a fragment holding the top-level nodes.
pub fn rsx(source: &str) -> (r: Result<FauxNode, ParseError>)
    ensures
        match markup(source@) {
            Ok(t) => r matches Ok(node) && node.tree() == t,
            Err(e) => r matches Err(err) && err.failure() == e,
        },
{
    let chars = chars_of(source);
    let tokens = match lex(&chars) {
        Ok(t) => t,
        Err(position) => {
            return Err(ParseError::UnexpectedToken { position });
        },
    };
    let (nodes, q) = match parse_nodes(&tokens, 0, 0, chars.len()) {
        Ok(x) => x,
        Err(e) => {
            return Err(e);
        },
    };
    if q != tokens.len() {
        return Err(unexpected_at(&tokens, q, chars.len()));
    }
    Ok(generate_code(nodes))
}

/// Wraps the top-level nodes of a document in a fragment.
fn generate_code(nodes: Vec<FauxNode>) -> (r: FauxNode)
    ensures
        r.tree() == Tree::Fragment(trees(nodes@)),
{
    FauxNode::Fragment(nodes)
}

/// The attribute tokens that carry a class.
pub open spec fn emit_attrs(class: Option<Seq<char>>) -> Seq<Tok> {
    match class {
        Some(c) => seq![Tok::Ident("class"@), Tok::Eq, Tok::Str(c)],
        None => Seq::empty(),
    }
}

/// The tokens that write out a tree in the markup language.
pub open spec fn emit(t: Tree) -> Seq<Tok>
    decreases t,
{
    match t {
        Tree::Text(s) => seq![Tok::Str(s)],
        Tree::Expr(b) => seq![Tok::Block(b)],
        Tree::Element(ch, class) => seq![Tok::Lt, Tok::Ident("div"@)] + emit_attrs(class) + seq![Tok::Gt]
            + emit_seq(ch) + seq![Tok::Lt, Tok::Slash, Tok::Ident("div"@), Tok::Gt],
        Tree::Fragment(ch) => seq![Tok::Lt, Tok::Gt] + emit_seq(ch) + seq![Tok::Lt, Tok::Slash, Tok::Gt],
    }
}

/// The tokens that write out each of `ns` in turn.
pub open spec fn emit_seq(ns: Seq<Tree>) -> Seq<Tok>
    decreases ns,
{
    if ns.len() == 0 {
        Seq::empty()
    } else {
        emit(ns[0]) + emit_seq(ns.subrange(1, ns.len() as int))
    }
}

/// How deeply elements and fragments nest in a tree.
pub open spec fn nesting(t: Tree) -> nat
    decreases t,
{
    match t {
        Tree::Element(ch, _) => 1 + nesting_seq(ch),
        Tree::Fragment(ch) => 1 + nesting_seq(ch),
        _ => 0,
    }
}

/// The deepest nesting among `ns`.
pub open spec fn nesting_seq(ns: Seq<Tree>) -> nat
    decreases ns,
{
    if ns.len() == 0 {
        0
    } else {
        let a = nesting(ns[0]);
        let b = nesting_seq(ns.subrange(1, ns.len() as int));
        if a >= b {
            a
        } else {
            b
        }
    }
}

/// The kinds of a token sequence, without positions.
pub open spec fn kinds(ts: Seq<(Tok, nat)>) -> Seq<Tok> {
    Seq::new(ts.len(), |i: int| ts[i].0)
}

/// The tokens from index `p` on begin with the kinds `ks`.
pub open spec fn tokens_at(ts: Seq<(Tok, nat)>, p: int, ks: Seq<Tok>) -> bool {
    0 <= p && p + ks.len() <= ts.len() && forall|i: int| 0 <= i < ks.len() ==> #[trigger] ts[p + i].0 == ks[i]
}

proof fn lemma_tokens_at_split(ts: Seq<(Tok, nat)>, p: int, a: Seq<Tok>, b: Seq<Tok>)
    requires
        tokens_at(ts, p, a + b),
    ensures
        tokens_at(ts, p, a),
        tokens_at(ts, p + a.len(), b),
{
    assert forall|i: int| 0 <= i < a.len() implies #[trigger] ts[p + i].0 == a[i] by {
        assert((a + b)[i] == a[i]);
    }
    assert forall|i: int| 0 <= i < b.len() implies #[trigger] ts[p + a.len() + i].0 == b[i] by {
        assert((a + b)[a.len() + i] == b[i]);
        assert(ts[p + (a.len() + i)].0 == (a + b)[a.len() + i]);
    }
}

/// One written-out tree parses back to itself, whatever follows it.
proof fn lemma_parse_emit_one(ts: Seq<(Tok, nat)>, p: int, t: Tree, depth: nat, end: nat)
    requires
        tokens_at(ts, p, emit(t)),
        depth + nesting(t) <= MAX_NESTING,
    ensures
        parse_seq(ts, p, depth, end) == prepend_node(seq![t], parse_seq(ts, p + emit(t).len(), depth, end)),
    decreases t,
{
    reveal_strlit("div");
    reveal_strlit("class");
    match t {
        Tree::Text(s) => {
            assert(ts[p + 0].0 == emit(t)[0]);
        },
        Tree::Expr(b) => {
            assert(ts[p + 0].0 == emit(t)[0]);
        },
        Tree::Fragment(ch) => {
            let open = seq![Tok::Lt, Tok::Gt];
            let close = seq![Tok::Lt, Tok::Slash, Tok::Gt];
            let body = emit_seq(ch);
            assert(emit(t) == open + body + close);
            lemma_tokens_at_split(ts, p, open + body, close);
            lemma_tokens_at_split(ts, p, open, body);
            assert(ts[p + 0].0 == open[0]);
            assert(ts[p + 1].0 == open[1]);
            let q = p + 2 + body.len();
            assert(ts[q + 0].0 == close[0]);
            assert(ts[q + 1].0 == close[1]);
            assert(ts[q + 2].0 == close[2]);
            lemma_parse_emit_seq(ts, p + 2, ch, depth + 1, end);
        },
        Tree::Element(ch, class) => {
            let open = seq![Tok::Lt, Tok::Ident("div"@)];
            let attrs = emit_attrs(class);
            let gt = seq![Tok::Gt];
            let body = emit_seq(ch);
            let close = seq![Tok::Lt, Tok::Slash, Tok::Ident("div"@), Tok::Gt];
            assert(emit(t) == open + attrs + gt + body + close);
            lemma_tokens_at_split(ts, p, open + attrs + gt + body, close);
            lemma_tokens_at_split(ts, p, open + attrs + gt, body);
            lemma_tokens_at_split(ts, p, open + attrs, gt);
            lemma_tokens_at_split(ts, p, open, attrs);
            assert(ts[p + 0].0 == open[0]);
            assert(ts[p + 1].0 == open[1]);
            let a = p + 2;
            let q = a + attrs.len();
            assert(ts[q + 0].0 == gt[0]);
            match class {
                Some(c) => {
                    assert(ts[a + 0].0 == attrs[0]);
                    assert(ts[a + 1].0 == attrs[1]);
                    assert(ts[a + 2].0 == attrs[2]);
                    assert(parse_attrs(ts, q, Some(c), end) == Ok::<_, Failure>((Some(c), q)));
                },
                None => {},
            }
            assert(parse_attrs(ts, a, None, end) == Ok::<_, Failure>((class, q)));
            let r = q + 1 + body.len();
            assert(ts[r + 0].0 == close[0]);
            assert(ts[r + 1].0 == close[1]);
            assert(ts[r + 2].0 == close[2]);
            assert(ts[r + 3].0 == close[3]);
            lemma_parse_emit_seq(ts, q + 1, ch, depth + 1, end);
            assert(parse_element(ts, p, depth, end) == Ok::<_, Failure>((t, r + 4)));
        },
    }
}

/// Written-out trees followed by the end or by a closing tag parse back to
/// themselves.
proof fn lemma_parse_emit_seq(ts: Seq<(Tok, nat)>, p: int, ns: Seq<Tree>, depth: nat, end: nat)
    requires
        depth + nesting_seq(ns) <= MAX_NESTING,
        tokens_at(ts, p, emit_seq(ns)),
        p + emit_seq(ns).len() == ts.len() || (is_lt(ts, p + emit_seq(ns).len()) && is_slash(
            ts,
            p + emit_seq(ns).len() + 1,
        )),
    ensures
        parse_seq(ts, p, depth, end) == Ok::<_, Failure>((ns, p + emit_seq(ns).len())),
    decreases ns,
{
    if ns.len() > 0 {
        let rest = ns.subrange(1, ns.len() as int);
        lemma_tokens_at_split(ts, p, emit(ns[0]), emit_seq(rest));
        lemma_parse_emit_one(ts, p, ns[0], depth, end);
        lemma_parse_emit_seq(ts, p + emit(ns[0]).len(), rest, depth, end);
        assert(emit_seq(ns) == emit(ns[0]) + emit_seq(rest));
        assert(seq![ns[0]] + rest == ns);
    } else {
        assert(ns == Seq::<Tree>::empty());
        assert(emit_seq(ns).len() == 0);
    }
}

/// Any sequence of trees nested at most `MAX_NESTING` deep, written out as
/// tokens, parses back to a fragment of exactly those trees: nesting,
/// attributes and text are reproduced.
pub proof fn lemma_parse_round_trip(ts: Seq<(Tok, nat)>, ns: Seq<Tree>, end: nat)
    requires
        kinds(ts) == emit_seq(ns),
        nesting_seq(ns) <= MAX_NESTING,
    ensures
        parse_document(ts, end) == Ok::<_, Failure>(Tree::Fragment(ns)),
{
    assert(tokens_at(ts, 0, emit_seq(ns))) by {
        assert forall|i: int| 0 <= i < emit_seq(ns).len() implies #[trigger] ts[0 + i].0 == emit_seq(ns)[i] by {
            assert(kinds(ts)[i] == ts[i].0);
        }
    }
    lemma_parse_emit_seq(ts, 0, ns, 0, end);
}

/// A closing tag whose name differs from the opening `div` fails the parse
/// with `MismatchedTag` naming both, at the closing name.
pub proof fn lemma_mismatched_close(ts: Seq<(Tok, nat)>, p: int, depth: nat, end: nat)
    requires
        is_lt(ts, p),
        is_ident(ts, p + 1),
        ts[p + 1].0->Ident_0 == "div"@,
        parse_attrs(ts, p + 2, None, end) matches Ok((_, q)) && q >= p + 2 && is_gt(ts, q) && (
        parse_seq(ts, q + 1, depth + 1, end) matches Ok((_, r)) && r >= q + 1 && is_lt(ts, r) && is_slash(ts, r + 1)
            && is_ident(ts, r + 2) && ts[r + 2].0->Ident_0 != "div"@),
    ensures
        parse_element(ts, p, depth, end) matches Err(Failure::MismatchedTag(open, close, _)) && open == "div"@
            && close != open,
{
}

/// An element whose tag is not `div` fails the parse with `UnsupportedTag`
/// naming it.
pub proof fn lemma_unsupported_tag(ts: Seq<(Tok, nat)>, p: int, depth: nat, end: nat)
    requires
        is_lt(ts, p),
        is_ident(ts, p + 1),
        ts[p + 1].0->Ident_0 != "div"@,
    ensures
        parse_element(ts, p, depth, end) == Err::<(Tree, int), _>(
            Failure::UnsupportedTag(ts[p + 1].0->Ident_0, ts[p + 1].1),
        ),
{
}

/// Source whose tokens write out trees nested at most `MAX_NESTING` deep
/// parses, through `rsx`, to a fragment of exactly those trees.
pub proof fn lemma_markup_round_trip(source: Seq<char>, ns: Seq<Tree>)
    requires
        lex_from(source, 0) matches Ok(ts) && kinds(ts) == emit_seq(ns),
        nesting_seq(ns) <= MAX_NESTING,
    ensures
        markup(source) == Ok::<Tree, Failure>(Tree::Fragment(ns)),
{
    lemma_parse_round_trip(lex_from(source, 0)->Ok_0, ns, source.len());
}

/// Source that opens with a tag other than `div` is rejected, through
/// `rsx`, with `UnsupportedTag` naming it at its position.
pub proof fn lemma_markup_unsupported_tag(source: Seq<char>)
    requires
        lex_from(source, 0) matches Ok(ts) && is_lt(ts, 0) && is_ident(ts, 1) && ts[1].0->Ident_0
            != "div"@,
    ensures
        markup(source) == Err::<Tree, Failure>(
            Failure::UnsupportedTag(lex_from(source, 0)->Ok_0[1].0->Ident_0, lex_from(source, 0)->Ok_0[1].1),
        ),
{
    let ts = lex_from(source, 0)->Ok_0;
    lemma_unsupported_tag(ts, 0, 0, source.len());
    assert(!is_gt(ts, 1));
    assert(parse_seq(ts, 0, 0, source.len()) == Err::<(Seq<Tree>, int), Failure>(
        Failure::UnsupportedTag(ts[1].0->Ident_0, ts[1].1),
    ));
}

/// Source that opens with a `div` whose body parses but whose closing tag
/// names something else is rejected, through `rsx`, with `MismatchedTag`
/// naming `div` and that name.
pub proof fn lemma_markup_mismatched_close(source: Seq<char>)
    requires
        lex_from(source, 0) matches Ok(ts) && is_lt(ts, 0) && is_ident(ts, 1) && ts[1].0->Ident_0
            == "div"@ && (parse_attrs(ts, 2, None, source.len()) matches Ok((_, q)) && q >= 2 && is_gt(
            ts,
            q,
        ) && (parse_seq(ts, q + 1, 1, source.len()) matches Ok((_, r)) && r >= q + 1 && is_lt(ts, r)
            && is_slash(ts, r + 1) && is_ident(ts, r + 2) && ts[r + 2].0->Ident_0 != "div"@)),
    ensures
        markup(source) matches Err(Failure::MismatchedTag(open, close, _)) && open == "div"@ && close
            != open,
{
    lemma_mismatched_close(lex_from(source, 0)->Ok_0, 0, 0, source.len());
}

} // verus!
