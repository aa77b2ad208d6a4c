use vstd::prelude::*;

use crate::expressions::{Expr, Path, Predicate};
use crate::template_tokenizer::{token_views, TemplateToken, TokenView};
use crate::text::{quote_list, quoted, quoted_list, str_eq};

verus! {

/// Represents a parse tree of a template file.
#[derive(Debug, PartialEq)]
pub struct TemplateTree<'a> {
    pub root: TemplateNode<'a>,
}

/// Represents a node in a [`TemplateTree`].
#[derive(Debug, PartialEq)]
pub enum TemplateNode<'a> {
    Sequence(Vec<Box<TemplateNode<'a>>>),
    Text(&'a str),
    Var(Path<'a>),
    ForEach(&'a str, Path<'a>, Box<TemplateNode<'a>>),
    If(Expr<'a>, Box<TemplateNode<'a>>),
}

/// The mathematical value of a [`TemplateNode`].
pub enum NodeView {
    Sequence(Seq<NodeView>),
    Text(Seq<char>),
    Var(Seq<Seq<char>>),
    ForEach(Seq<char>, Seq<Seq<char>>, Box<NodeView>),
    If(Predicate, Seq<Seq<char>>, Box<NodeView>),
}

pub open spec fn node_view(n: TemplateNode) -> NodeView
    decreases n, 0int,
{
    match n {
        TemplateNode::Sequence(v) => NodeView::Sequence(nodes_view(v@)),
        TemplateNode::Text(t) => NodeView::Text(t@),
        TemplateNode::Var(p) => NodeView::Var(p@),
        TemplateNode::ForEach(v, p, b) => NodeView::ForEach(v@, p@, Box::new(node_view(*b))),
        TemplateNode::If(e, b) => NodeView::If(e.predicate, e.path@, Box::new(node_view(*b))),
    }
}

pub open spec fn nodes_view(s: Seq<Box<TemplateNode>>) -> Seq<NodeView>
    decreases s, 0int,
{
    if s.len() == 0 {
        seq![]
    } else {
        nodes_view(s.drop_last()) + seq![node_view(*s.last())]
    }
}

impl<'a> View for TemplateNode<'a> {
    type V = NodeView;

    open spec fn view(&self) -> NodeView {
        node_view(*self)
    }
}

impl<'a> View for TemplateTree<'a> {
    type V = NodeView;

    open spec fn view(&self) -> NodeView {
        self.root@
    }
}

/// How a path reads in an error message: `Path { segments: ["a", "b"] }`.
pub open spec fn path_text(p: Seq<Seq<char>>) -> Seq<char> {
    "Path { segments: "@ + quoted_list(p) + " }"@
}

/// How a token reads in an error message, e.g. `EndFor("item")`.
pub open spec fn token_text(t: TokenView) -> Seq<char> {
    match t {
        TokenView::Text(x) => "Text("@ + quoted(x) + ")"@,
        TokenView::Var(p) => "Var("@ + path_text(p) + ")"@,
        TokenView::For(v, p) => "For("@ + quoted(v) + ", "@ + path_text(p) + ")"@,
        TokenView::EndFor(v) => "EndFor("@ + quoted(v) + ")"@,
        TokenView::If(_, p) => "If(Expr { predicate: Exists, path: "@ + path_text(p) + " })"@,
        TokenView::EndIf => "EndIf"@,
    }
}

/// How the enclosing block reads in an error message: `None` at the top
/// level, else `Some(...)` around its opening token.
pub open spec fn context_text(ctx: Option<TokenView>) -> Seq<char> {
    match ctx {
        None => "None"@,
        Some(t) => "Some("@ + token_text(t) + ")"@,
    }
}

/// The error for a closing token that does not close the enclosing block.
pub open spec fn unexpected_msg(t: TokenView, ctx: Option<TokenView>) -> Seq<char> {
    "Unexpected token "@ + token_text(t) + " nested in "@ + context_text(ctx) + "."@
}

/// The error for a block still open at the end of the tokens.
pub open spec fn unclosed_msg(ctx: Option<TokenView>) -> Seq<char> {
    "Unexpected end of template nested in "@ + context_text(ctx) + "."@
}

/// `r` with `front` put before its nodes.
pub open spec fn nodes_after(front: Seq<NodeView>, r: Result<(Seq<NodeView>, int), Seq<char>>) -> Result<
    (Seq<NodeView>, int),
    Seq<char>,
> {
    match r {
        Ok((ns, e)) => Ok((front + ns, e)),
        Err(m) => Err(m),
    }
}

/// Tells whether `t` closes the block that `ctx` opened.
pub open spec fn closes(t: TokenView, ctx: Option<TokenView>) -> bool {
    match t {
        TokenView::EndFor(v) => ctx matches Some(TokenView::For(cv, _)) && cv == v,
        TokenView::EndIf => ctx matches Some(TokenView::If(..)),
        _ => false,
    }
}

/// The nodes from position `pos` on, inside the block that `ctx` opened (or
/// at the top level), with the position after the token that closes the
/// block (or the end).
pub open spec fn parse_level(toks: Seq<TokenView>, pos: int, ctx: Option<TokenView>) -> Result<
    (Seq<NodeView>, int),
    Seq<char>,
>
    decreases toks.len() - pos,
{
    if pos < 0 || pos >= toks.len() {
        match ctx {
            None => Ok((seq![], pos)),
            Some(_) => Err(unclosed_msg(ctx)),
        }
    } else {
        let t = toks[pos];
        match t {
            TokenView::Text(x) => nodes_after(
                seq![NodeView::Text(x)],
                parse_level(toks, pos + 1, ctx),
            ),
            TokenView::Var(p) => nodes_after(
                seq![NodeView::Var(p)],
                parse_level(toks, pos + 1, ctx),
            ),
            TokenView::For(v, p) => match parse_level(toks, pos + 1, Some(t)) {
                Err(m) => Err(m),
                Ok((body, e)) => if pos < e <= toks.len() {
                    nodes_after(
                        seq![NodeView::ForEach(v, p, Box::new(NodeView::Sequence(body)))],
                        parse_level(toks, e, ctx),
                    )
                } else {
                    Err(unclosed_msg(ctx))
                },
            },
            TokenView::If(pred, p) => match parse_level(toks, pos + 1, Some(t)) {
                Err(m) => Err(m),
                Ok((body, e)) => if pos < e <= toks.len() {
                    nodes_after(
                        seq![NodeView::If(pred, p, Box::new(NodeView::Sequence(body)))],
                        parse_level(toks, e, ctx),
                    )
                } else {
                    Err(unclosed_msg(ctx))
                },
            },
            _ => if closes(t, ctx) {
                Ok((seq![], pos + 1))
            } else {
                Err(unexpected_msg(t, ctx))
            },
        }
    }
}

/// The tree of the tokens: a sequence of the top-level nodes.
pub open spec fn parse_tokens(toks: Seq<TokenView>) -> Result<NodeView, Seq<char>> {
    match parse_level(toks, 0, None) {
        Ok((ns, _)) => Ok(NodeView::Sequence(ns)),
        Err(m) => Err(m),
    }
}

/// The view of what [`parse`] returns.
pub open spec fn parsed(r: Result<TemplateTree, String>) -> Result<NodeView, Seq<char>> {
    match r {
        Ok(t) => Ok(t@),
        Err(m) => Err(m@),
    }
}

/// The views of the parsed nodes of a level, with the next position.
pub open spec fn level_view(r: Result<(Vec<Box<TemplateNode>>, usize), String>) -> Result<
    (Seq<NodeView>, int),
    Seq<char>,
> {
    match r {
        Ok((ns, e)) => Ok((nodes_view(ns@), e as int)),
        Err(m) => Err(m@),
    }
}

proof fn lemma_parse_level_ends(toks: Seq<TokenView>, pos: int, ctx: Option<TokenView>)
    requires
        0 <= pos,
    ensures
        parse_level(toks, pos, ctx) matches Ok((_, e)) ==> pos <= e && (ctx is Some ==> pos < e
            <= toks.len()) && (ctx is None ==> e == if pos <= toks.len() {
            toks.len() as int
        } else {
            pos
        }),
    decreases toks.len() - pos,
{
    if pos < toks.len() {
        let t = toks[pos];
        match t {
            TokenView::For(_, _) | TokenView::If(_, _) => {
                lemma_parse_level_ends(toks, pos + 1, Some(t));
                if let Ok((_, e)) = parse_level(toks, pos + 1, Some(t)) {
                    if pos < e <= toks.len() {
                        lemma_parse_level_ends(toks, e, ctx);
                    }
                }
            },
            TokenView::Text(_) | TokenView::Var(_) => {
                lemma_parse_level_ends(toks, pos + 1, ctx);
            },
            _ => {},
        }
    }
}

/// How a path reads in an error message.
fn describe_path(p: &Path) -> (r: String)
    ensures
        r@ == path_text(p@),
{
    let mut r = "Path { segments: ".to_owned();
    let list = quote_list(&p.segments);
    r.append(list.as_str());
    r.append(" }");
    r
}

/// How a token reads in an error message.
fn describe_token(t: &TemplateToken) -> (r: String)
    ensures
        r@ == token_text(t@),
{
    match t {
        TemplateToken::Text(x) => {
            let mut r = "Text(".to_owned();
            r.append("\"");
            r.append(x);
            r.append("\"");
            r.append(")");
            assert(r@ =~= token_text(t@));
            r
        },
        TemplateToken::Var(p) => {
            let mut r = "Var(".to_owned();
            let d = describe_path(p);
            r.append(d.as_str());
            r.append(")");
            r
        },
        TemplateToken::For(v, p) => {
            let mut r = "For(".to_owned();
            r.append("\"");
            r.append(v);
            r.append("\"");
            r.append(", ");
            let d = describe_path(p);
            r.append(d.as_str());
            r.append(")");
            assert(r@ =~= token_text(t@));
            r
        },
        TemplateToken::EndFor(v) => {
            let mut r = "EndFor(".to_owned();
            r.append("\"");
            r.append(v);
            r.append("\"");
            r.append(")");
            assert(r@ =~= token_text(t@));
            r
        },
        TemplateToken::If(e) => {
            let mut r = "If(Expr { predicate: Exists, path: ".to_owned();
            let d = describe_path(&e.path);
            r.append(d.as_str());
            r.append(" })");
            r
        },
        TemplateToken::EndIf => "EndIf".to_owned(),
    }
}

/// How the enclosing block reads in an error message.
fn describe_context(ctx: Option<&TemplateToken>) -> (r: String)
    ensures
        r@ == context_text(
            match ctx {
                Some(t) => Some(t@),
                None => None,
            },
        ),
{
    match ctx {
        None => "None".to_owned(),
        Some(t) => {
            let mut r = "Some(".to_owned();
            let d = describe_token(t);
            r.append(d.as_str());
            r.append(")");
            r
        },
    }
}

/// The error for a closing token that does not close the enclosing block.
fn unexpected(t: &TemplateToken, ctx: Option<&TemplateToken>) -> (r: String)
    ensures
        r@ == unexpected_msg(
            t@,
            match ctx {
                Some(c) => Some(c@),
                None => None,
            },
        ),
{
    let mut r = "Unexpected token ".to_owned();
    let d = describe_token(t);
    r.append(d.as_str());
    r.append(" nested in ");
    let c = describe_context(ctx);
    r.append(c.as_str());
    r.append(".");
    r
}

proof fn lemma_nodes_view_push(s: Seq<Box<TemplateNode>>, n: Box<TemplateNode>)
    ensures
        nodes_view(s.push(n)) == nodes_view(s) + seq![node_view(*n)],
{
    assert(s.push(n).drop_last() =~= s);
}

/// Parses the given sequence of tokens into a parse tree.
pub fn parse<'a>(tokens: &[TemplateToken<'a>]) -> (r: Result<TemplateTree<'a>, String>)
    ensures
        parsed(r) == parse_tokens(token_views(tokens@)),
{
    let (nodes, _) = parse_nodes(tokens, 0, None)?;
    Ok(TemplateTree { root: TemplateNode::Sequence(nodes) })
}

/// Parses the tokens from `start_pos` on, inside the block that `context`
/// opened, into the nodes of that block; returns them with the position
/// after the token that closed the block.
fn parse_nodes<'a>(
    tokens: &[TemplateToken<'a>],
    start_pos: usize,
    context: Option<&TemplateToken<'a>>,
) -> (r: Result<(Vec<Box<TemplateNode<'a>>>, usize), String>)
    requires
        start_pos <= tokens.len(),
    ensures
        level_view(r) == parse_level(
            token_views(tokens@),
            start_pos as int,
            match context {
                Some(c) => Some(c@),
                None => None,
            },
        ),
    decreases tokens.len() - start_pos,
{
    let ghost toks = token_views(tokens@);
    let ghost ctx = match context {
        Some(c) => Some(c@),
        None => None::<TokenView>,
    };
    let mut nodes: Vec<Box<TemplateNode<'a>>> = Vec::new();
    let mut pos = start_pos;
    while pos < tokens.len()
        invariant
            start_pos <= pos <= tokens.len(),
            toks == token_views(tokens@),
            ctx == match context {
                Some(c) => Some(c@),
                None => None::<TokenView>,
            },
            parse_level(toks, start_pos as int, ctx) == nodes_after(
                nodes_view(nodes@),
                parse_level(toks, pos as int, ctx),
            ),
        decreases tokens.len() - pos,
    {
        let token = &tokens[pos];
        let ghost t = toks[pos as int];
        assert(t == token@);
        let ghost old_nodes = nodes@;
        match token {
            TemplateToken::Text(text) => {
                let node = Box::new(TemplateNode::Text(text));
                nodes.push(node);
                proof {
                    lemma_nodes_view_push(old_nodes, node);
                    lemma_after_assoc(
                        nodes_view(old_nodes),
                        node_view(*node),
                        parse_level(toks, pos + 1, ctx),
                    );
                }
                pos = pos + 1;
            },
            TemplateToken::Var(var) => {
                let node = Box::new(TemplateNode::Var(var.duplicate()));
                nodes.push(node);
                proof {
                    lemma_nodes_view_push(old_nodes, node);
                    lemma_after_assoc(
                        nodes_view(old_nodes),
                        node_view(*node),
                        parse_level(toks, pos + 1, ctx),
                    );
                }
                pos = pos + 1;
            },
            TemplateToken::For(var, expr) => {
                let (body, new_start_pos) = parse_nodes(tokens, pos + 1, Some(token))?;
                proof {
                    lemma_parse_level_ends(toks, pos + 1, Some(t));
                }
                let inner = TemplateNode::Sequence(body);
                assert(node_view(inner) == NodeView::Sequence(nodes_view(body@)));
                let node = Box::new(
                    TemplateNode::ForEach(var, expr.duplicate(), Box::new(inner)),
                );
                nodes.push(node);
                proof {
                    lemma_nodes_view_push(old_nodes, node);
                    lemma_after_assoc(
                        nodes_view(old_nodes),
                        node_view(*node),
                        parse_level(toks, new_start_pos as int, ctx),
                    );
                }
                pos = new_start_pos;
            },
            TemplateToken::EndFor(var) => {
                if let Some(TemplateToken::For(ctx_var, _)) = context {
                    if str_eq(ctx_var, var) {
                        assert(nodes_view(nodes@) + seq![] =~= nodes_view(nodes@));
                        return Ok((nodes, pos + 1));
                    }
                }
                return Err(unexpected(token, context));
            },
            TemplateToken::If(cond) => {
                let (body, new_start_pos) = parse_nodes(tokens, pos + 1, Some(token))?;
                proof {
                    lemma_parse_level_ends(toks, pos + 1, Some(t));
                }
                let inner = TemplateNode::Sequence(body);
                assert(node_view(inner) == NodeView::Sequence(nodes_view(body@)));
                let node = Box::new(TemplateNode::If(cond.duplicate(), Box::new(inner)));
                nodes.push(node);
                proof {
                    lemma_nodes_view_push(old_nodes, node);
                    lemma_after_assoc(
                        nodes_view(old_nodes),
                        node_view(*node),
                        parse_level(toks, new_start_pos as int, ctx),
                    );
                }
                pos = new_start_pos;
            },
            TemplateToken::EndIf => {
                if let Some(TemplateToken::If(_)) = context {
                    assert(nodes_view(nodes@) + seq![] =~= nodes_view(nodes@));
                    return Ok((nodes, pos + 1));
                }
                return Err(unexpected(token, context));
            },
        }
    }
    match context {
        None => {
            assert(nodes_view(nodes@) + seq![] =~= nodes_view(nodes@));
            Ok((nodes, pos))
        },
        Some(_) => {
            let mut m = "Unexpected end of template nested in ".to_owned();
            let d = describe_context(context);
            m.append(d.as_str());
            m.append(".");
            Err(m)
        },
    }
}

proof fn lemma_after_assoc(
    front: Seq<NodeView>,
    n: NodeView,
    r: Result<(Seq<NodeView>, int), Seq<char>>,
)
    ensures
        nodes_after(front, nodes_after(seq![n], r)) == nodes_after(front + seq![n], r),
{
    if let Ok((ns, e)) = r {
        assert(front + (seq![n] + ns) =~= front + seq![n] + ns);
    }
}

/// The innermost of the open blocks `st`, if any.
pub open spec fn top(st: Seq<TokenView>) -> Option<TokenView> {
    if st.len() == 0 {
        None
    } else {
        Some(st.last())
    }
}

/// The open blocks after the token `t`, when `st` were open before it: an
/// opening token opens a block, a closing token closes the innermost one;
/// none when `t` does not close the innermost block.
pub open spec fn step(st: Seq<TokenView>, t: TokenView) -> Option<Seq<TokenView>> {
    match t {
        TokenView::For(..) | TokenView::If(..) => Some(st.push(t)),
        TokenView::Text(_) | TokenView::Var(_) => Some(st),
        _ => if closes(t, top(st)) {
            Some(st.drop_last())
        } else {
            None
        },
    }
}

/// Checks the nesting of the blocks from position `pos` on, with the blocks
/// `st` open (innermost last): the first closing token that does not close
/// the innermost open block, or the end with a block still open, is the
/// error.
pub open spec fn check_from(toks: Seq<TokenView>, pos: int, st: Seq<TokenView>) -> Result<
    (),
    Seq<char>,
>
    decreases toks.len() - pos,
{
    if pos < 0 || pos >= toks.len() {
        if st.len() == 0 {
            Ok(())
        } else {
            Err(unclosed_msg(top(st)))
        }
    } else {
        match step(st, toks[pos]) {
            Some(next) => check_from(toks, pos + 1, next),
            None => Err(unexpected_msg(toks[pos], top(st))),
        }
    }
}

/// Tells whether every `for` block is closed by an `endfor` of its variable
/// and every `if` block by an `endif`, properly nested.
pub open spec fn balanced(toks: Seq<TokenView>) -> bool {
    check_from(toks, 0, seq![]) is Ok
}

/// The blocks open after the first `i` tokens, or none when one of them
/// closes no open block.
pub open spec fn stack_after(toks: Seq<TokenView>, i: int) -> Option<Seq<TokenView>>
    decreases i,
{
    if i <= 0 {
        Some(seq![])
    } else {
        match stack_after(toks, i - 1) {
            Some(st) => step(st, toks[i - 1]),
            None => None,
        }
    }
}

/// Tells whether `part` occurs in `s`.
pub open spec fn contains(s: Seq<char>, part: Seq<char>) -> bool {
    exists|k: int|
        0 <= k && k + part.len() <= s.len() && #[trigger] s.subrange(k, k + part.len()) == part
}

proof fn lemma_parse_level_check(toks: Seq<TokenView>, pos: int, st: Seq<TokenView>)
    requires
        0 <= pos,
    ensures
        match parse_level(toks, pos, top(st)) {
            Ok((_, e)) => if st.len() > 0 {
                pos < e <= toks.len() && check_from(toks, pos, st) == check_from(
                    toks,
                    e,
                    st.drop_last(),
                )
            } else {
                check_from(toks, pos, st) == Ok::<(), Seq<char>>(())
            },
            Err(m) => check_from(toks, pos, st) == Err::<(), _>(m),
        },
    decreases toks.len() - pos,
{
    if pos < toks.len() {
        let t = toks[pos];
        match t {
            TokenView::For(..) | TokenView::If(..) => {
                let inner = st.push(t);
                assert(inner.drop_last() =~= st);
                assert(top(inner) == Some(t));
                lemma_parse_level_check(toks, pos + 1, inner);
                if let Ok((_, e)) = parse_level(toks, pos + 1, Some(t)) {
                    lemma_parse_level_check(toks, e, st);
                }
            },
            TokenView::Text(_) | TokenView::Var(_) => {
                lemma_parse_level_check(toks, pos + 1, st);
            },
            _ => {},
        }
    }
}

/// The parser accepts exactly the token streams whose blocks are balanced;
/// otherwise it fails with the error of the nesting check: the first
/// closing token out of place, or the block left open at the end.
pub proof fn lemma_parse_iff_balanced(toks: Seq<TokenView>)
    ensures
        parse_tokens(toks) is Ok <==> balanced(toks),
        parse_tokens(toks) matches Err(m) ==> check_from(toks, 0, seq![]) == Err::<(), _>(m),
{
    lemma_parse_level_check(toks, 0, seq![]);
}

proof fn lemma_check_after(toks: Seq<TokenView>, i: int)
    requires
        0 <= i <= toks.len(),
        stack_after(toks, i) is Some,
    ensures
        check_from(toks, 0, seq![]) == check_from(toks, i, stack_after(toks, i)->Some_0),
    decreases i,
{
    if i > 0 {
        lemma_check_after(toks, i - 1);
    }
}

/// Closing a block with the wrong variable name, or in the wrong order
/// relative to an inner open block, fails parsing with an error that names
/// both the unexpected closing token and the actual enclosing block.
pub proof fn lemma_wrong_closer_fails(toks: Seq<TokenView>, i: int)
    requires
        0 <= i < toks.len(),
        stack_after(toks, i) is Some,
        toks[i] is EndFor || toks[i] is EndIf,
        !closes(toks[i], top(stack_after(toks, i)->Some_0)),
    ensures
        ({
            let ctx = top(stack_after(toks, i)->Some_0);
            &&& parse_tokens(toks) == Err::<NodeView, _>(unexpected_msg(toks[i], ctx))
            &&& contains(unexpected_msg(toks[i], ctx), token_text(toks[i]))
            &&& contains(unexpected_msg(toks[i], ctx), context_text(ctx))
        }),
{
    let st = stack_after(toks, i)->Some_0;
    let ctx = top(st);
    lemma_check_after(toks, i);
    lemma_parse_iff_balanced(toks);
    let m = unexpected_msg(toks[i], ctx);
    let k1 = "Unexpected token "@.len() as int;
    let d1 = token_text(toks[i]);
    assert(m.subrange(k1, k1 + d1.len()) =~= d1);
    let k2 = k1 + d1.len() + " nested in "@.len();
    let d2 = context_text(ctx);
    assert(m.subrange(k2, k2 + d2.len()) =~= d2);
}

} // verus!
