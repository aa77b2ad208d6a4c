use vstd::prelude::*;

use crate::expressions::{expr_of, Expr, Path, Predicate};
use crate::text::{
    chars_of, find_char, find_from, lemma_find_from, quote_list, quoted_list, split_dots,
    split_words, str_eq, str_views, words,
};

verus! {

/// A lexical unit of a template.
#[derive(Debug, PartialEq)]
pub enum TemplateToken<'a> {
    Text(&'a str),
    Var(Path<'a>),
    For(&'a str, Path<'a>),
    EndFor(&'a str),
    If(Expr<'a>),
    EndIf,
}

/// The mathematical value of a [`TemplateToken`]: text as characters, paths
/// as sequences of segments.
pub enum TokenView {
    Text(Seq<char>),
    Var(Seq<Seq<char>>),
    For(Seq<char>, Seq<Seq<char>>),
    EndFor(Seq<char>),
    If(Predicate, Seq<Seq<char>>),
    EndIf,
}

impl<'a> View for TemplateToken<'a> {
    type V = TokenView;

    open spec fn view(&self) -> TokenView {
        match self {
            TemplateToken::Text(t) => TokenView::Text(t@),
            TemplateToken::Var(p) => TokenView::Var(p@),
            TemplateToken::For(v, p) => TokenView::For(v@, p@),
            TemplateToken::EndFor(v) => TokenView::EndFor(v@),
            TemplateToken::If(e) => TokenView::If(e.predicate, e.path@),
            TemplateToken::EndIf => TokenView::EndIf,
        }
    }
}

/// The views of a sequence of tokens.
pub open spec fn token_views(ts: Seq<TemplateToken>) -> Seq<TokenView> {
    ts.map_values(|t: TemplateToken| t@)
}

pub open spec fn empty_tag_msg() -> Seq<char> {
    "Tags cannot be empty."@
}

pub open spec fn missing_bracket_msg() -> Seq<char> {
    "Missing closing bracket."@
}

pub open spec fn var_tag_msg() -> Seq<char> {
    "Invalid var syntax - no parameters expected."@
}

pub open spec fn endif_tag_msg() -> Seq<char> {
    "Invalid endif tag syntax. No parameters expected."@
}

pub open spec fn missing_in_msg() -> Seq<char> {
    "Invalid for tag syntax. Missing 'in' keyword."@
}

pub open spec fn for_arity_msg(words: Seq<Seq<char>>) -> Seq<char> {
    "Invalid for tag syntax. Incorrect number of parts - expected 4 (for, var, in, expression), got "@
        + quoted_list(words) + "."@
}

pub open spec fn endfor_arity_msg(words: Seq<Seq<char>>) -> Seq<char> {
    "Invalid endfor tag syntax. Incorrect number of parts - expected 2 (endfor, var), got "@
        + quoted_list(words) + "."@
}

pub open spec fn if_tag_msg(inner: Seq<char>) -> Seq<char> {
    "Invalid if tag syntax: "@ + inner
}

/// The token of a tag whose words are `ws`, the first being `for`.
pub open spec fn for_tag(ws: Seq<Seq<char>>) -> Result<TokenView, Seq<char>> {
    if ws.len() != 4 {
        Err(for_arity_msg(ws))
    } else if ws[2] == "in"@ {
        Ok(TokenView::For(ws[1], split_dots(ws[3])))
    } else {
        Err(missing_in_msg())
    }
}

/// The token of a tag whose words are `ws`, the first being `endfor`.
pub open spec fn endfor_tag(ws: Seq<Seq<char>>) -> Result<TokenView, Seq<char>> {
    if ws.len() == 2 {
        Ok(TokenView::EndFor(ws[1]))
    } else {
        Err(endfor_arity_msg(ws))
    }
}

/// The token of a tag whose words are `ws`, the first being `if`.
pub open spec fn if_tag(ws: Seq<Seq<char>>) -> Result<TokenView, Seq<char>> {
    match expr_of(ws.drop_first()) {
        Ok((p, path)) => Ok(TokenView::If(p, path)),
        Err(m) => Err(if_tag_msg(m)),
    }
}

/// The token of a tag whose words are `ws`, the first being `endif`.
pub open spec fn endif_tag(ws: Seq<Seq<char>>) -> Result<TokenView, Seq<char>> {
    if ws.len() == 1 {
        Ok(TokenView::EndIf)
    } else {
        Err(endif_tag_msg())
    }
}

/// The token of a tag whose words are `ws`, the first being no keyword.
pub open spec fn var_tag(ws: Seq<Seq<char>>) -> Result<TokenView, Seq<char>> {
    if ws.len() == 1 {
        Ok(TokenView::Var(split_dots(ws[0])))
    } else {
        Err(var_tag_msg())
    }
}

/// The token of the tag with the body `body`, the text between the brackets;
/// it is classified by its first word.
pub open spec fn tag_of(body: Seq<char>) -> Result<TokenView, Seq<char>> {
    let ws = words(body);
    if ws.len() == 0 {
        Err(empty_tag_msg())
    } else if ws[0] == "for"@ {
        for_tag(ws)
    } else if ws[0] == "endfor"@ {
        endfor_tag(ws)
    } else if ws[0] == "if"@ {
        if_tag(ws)
    } else if ws[0] == "endif"@ {
        endif_tag(ws)
    } else {
        var_tag(ws)
    }
}

/// The text token for `t`, or none when `t` is empty.
pub open spec fn text_tokens(t: Seq<char>) -> Seq<TokenView> {
    if t.len() == 0 {
        seq![]
    } else {
        seq![TokenView::Text(t)]
    }
}

/// `r` with `front` put before its tokens.
pub open spec fn after(front: Seq<TokenView>, r: Result<Seq<TokenView>, Seq<char>>) -> Result<
    Seq<TokenView>,
    Seq<char>,
> {
    match r {
        Ok(ts) => Ok(front + ts),
        Err(m) => Err(m),
    }
}

/// The tokens of `s` from position `i` on: text up to the next `[`, then
/// the tag up to the next `]`, and so on.
pub open spec fn lex_from(s: Seq<char>, i: int) -> Result<Seq<TokenView>, Seq<char>>
    decreases s.len() - i,
{
    if 0 <= i < s.len() {
        let from = find_from(s, '[', i);
        let text = text_tokens(s.subrange(i, from));
        if from >= s.len() {
            Ok(text)
        } else {
            let to = find_from(s, ']', from + 1);
            if to >= s.len() {
                Err(missing_bracket_msg())
            } else {
                proof {
                    lemma_find_from(s, '[', i);
                    lemma_find_from(s, ']', from + 1);
                }
                match tag_of(s.subrange(from + 1, to)) {
                    Err(m) => Err(m),
                    Ok(t) => after(text + seq![t], lex_from(s, to + 1)),
                }
            }
        }
    } else {
        Ok(seq![])
    }
}

/// The tokens of the template text `s`.
pub open spec fn lex(s: Seq<char>) -> Result<Seq<TokenView>, Seq<char>> {
    lex_from(s, 0)
}

/// The view of what [`tokenize`] returns.
pub open spec fn lexed(r: Result<Vec<TemplateToken>, String>) -> Result<Seq<TokenView>, Seq<char>> {
    match r {
        Ok(ts) => Ok(token_views(ts@)),
        Err(m) => Err(m@),
    }
}

/// Splits the template text into tokens.
pub fn tokenize<'a>(input: &'a str) -> (r: Result<Vec<TemplateToken<'a>>, String>)
    ensures
        lexed(r) == lex(input@),
{
    let v = chars_of(input);
    let n = v.len();
    let mut tokens: Vec<TemplateToken<'a>> = Vec::new();
    let mut i: usize = 0;
    while i < n
        invariant
            v@ == input@,
            n == v.len(),
            0 <= i <= n,
            lex(input@) == after(token_views(tokens@), lex_from(input@, i as int)),
        ensures
            lex(input@) == Ok::<_, Seq<char>>(token_views(tokens@)),
        decreases n - i,
    {
        let from = find_char(&v, '[', i);
        let ghost before = token_views(tokens@);
        if from > i {
            tokens.push(TemplateToken::Text(input.substring_char(i, from)));
        }
        assert(token_views(tokens@) =~= before + text_tokens(
            input@.subrange(i as int, from as int),
        ));
        if from == n {
            assert(lex_from(input@, n as int) == Ok::<Seq<TokenView>, Seq<char>>(seq![]));
            assert(token_views(tokens@) + seq![] =~= token_views(tokens@));
            i = n;
            break;
        }
        let to = find_char(&v, ']', from + 1);
        if to == n {
            return Err("Missing closing bracket.".to_owned());
        }
        let tag = TemplateToken::parse_tag(input.substring_char(from + 1, to));
        match tag {
            Err(m) => {
                return Err(m);
            },
            Ok(t) => {
                let ghost mid = token_views(tokens@);
                tokens.push(t);
                assert(token_views(tokens@) =~= mid + seq![t@]);
                proof {
                    let rest = lex_from(input@, to + 1);
                    match rest {
                        Ok(ts) => {
                            assert(token_views(tokens@) + ts =~= before + (text_tokens(
                                input@.subrange(i as int, from as int),
                            ) + seq![t@] + ts));
                        },
                        Err(_) => {},
                    }
                }
                i = to + 1;
            },
        }
        if i == n {
            assert(lex_from(input@, n as int) == Ok::<Seq<TokenView>, Seq<char>>(seq![]));
            assert(token_views(tokens@) + seq![] =~= token_views(tokens@));
        }
    }
    Ok(tokens)
}

proof fn lemma_find_from_at(s: Seq<char>, c: char, i: int, j: int)
    requires
        0 <= i <= j <= s.len(),
        forall|k: int| i <= k < j ==> s[k] != c,
        j < s.len() ==> s[j] == c,
    ensures
        find_from(s, c, i) == j,
    decreases j - i,
{
    if i < j {
        lemma_find_from_at(s, c, i + 1, j);
    }
}

/// Lexing is a left inverse of concatenation: text `a` without `[`, a tag
/// whose body `body` holds no `]`, then text `b` without `[` give the token
/// of `a`, the tag's token and the token of `b` (an empty text gives no
/// token); a malformed tag gives its error.
pub proof fn lemma_lex_text_tag_text(a: Seq<char>, body: Seq<char>, b: Seq<char>)
    requires
        forall|k: int| 0 <= k < a.len() ==> a[k] != '[',
        forall|k: int| 0 <= k < body.len() ==> body[k] != ']',
        forall|k: int| 0 <= k < b.len() ==> b[k] != '[',
    ensures
        match tag_of(body) {
            Ok(t) => lex(a + seq!['['] + body + seq![']'] + b) == Ok::<_, Seq<char>>(
                text_tokens(a) + seq![t] + text_tokens(b),
            ),
            Err(m) => lex(a + seq!['['] + body + seq![']'] + b) == Err::<Seq<TokenView>, _>(m),
        },
{
    let s = a + seq!['['] + body + seq![']'] + b;
    let from = a.len() as int;
    let to = from + 1 + body.len();
    assert(s[from] == '[');
    assert(s[to] == ']');
    assert forall|k: int| 0 <= k < from implies s[k] != '[' by {
        assert(s[k] == a[k]);
    }
    lemma_find_from_at(s, '[', 0, from);
    assert forall|k: int| from + 1 <= k < to implies s[k] != ']' by {
        assert(s[k] == body[k - from - 1]);
    }
    lemma_find_from_at(s, ']', from + 1, to);
    assert(s.subrange(0, from) =~= a);
    assert(s.subrange(from + 1, to) =~= body);
    let rest = lex_from(s, to + 1);
    if b.len() == 0 {
        assert(rest == Ok::<Seq<TokenView>, Seq<char>>(seq![]));
        assert(text_tokens(a) + seq![tag_of(body)->Ok_0] + seq![] =~= text_tokens(a) + seq![
            tag_of(body)->Ok_0,
        ] + text_tokens(b));
    } else {
        assert forall|k: int| to + 1 <= k < s.len() implies s[k] != '[' by {
            assert(s[k] == b[k - to - 1]);
        }
        lemma_find_from_at(s, '[', to + 1, s.len() as int);
        assert(s.subrange(to + 1, s.len() as int) =~= b);
        assert(rest == Ok::<Seq<TokenView>, Seq<char>>(text_tokens(b)));
    }
}

impl<'a> TemplateToken<'a> {
    /// Parses the body of a tag, the text between its brackets.
    fn parse_tag(input: &'a str) -> (r: Result<Self, String>)
        ensures
            match r {
                Ok(t) => tag_of(input@) == Ok::<_, Seq<char>>(t@),
                Err(m) => tag_of(input@) == Err::<TokenView, _>(m@),
            },
    {
        let parts = split_words(input);
        if parts.len() == 0 {
            return Err("Tags cannot be empty.".to_owned());
        }
        if str_eq(parts[0], "for") {
            Self::parse_for_tag(parts)
        } else if str_eq(parts[0], "endfor") {
            Self::parse_endfor_tag(parts)
        } else if str_eq(parts[0], "if") {
            Self::parse_if_tag(parts)
        } else if str_eq(parts[0], "endif") {
            Self::parse_endif_tag(parts)
        } else {
            Self::parse_var_tag(parts)
        }
    }

    fn parse_var_tag(parts: Vec<&'a str>) -> (r: Result<Self, String>)
        requires
            parts.len() >= 1,
        ensures
            match r {
                Ok(t) => var_tag(str_views(parts@)) == Ok::<_, Seq<char>>(t@),
                Err(m) => var_tag(str_views(parts@)) == Err::<TokenView, _>(m@),
            },
    {
        if parts.len() == 1 {
            Ok(TemplateToken::Var(Path::parse(parts[0])))
        } else {
            Err("Invalid var syntax - no parameters expected.".to_owned())
        }
    }

    fn parse_endif_tag(parts: Vec<&'a str>) -> (r: Result<Self, String>)
        requires
            parts.len() >= 1,
        ensures
            match r {
                Ok(t) => endif_tag(str_views(parts@)) == Ok::<_, Seq<char>>(t@),
                Err(m) => endif_tag(str_views(parts@)) == Err::<TokenView, _>(m@),
            },
    {
        if parts.len() == 1 {
            Ok(TemplateToken::EndIf)
        } else {
            Err("Invalid endif tag syntax. No parameters expected.".to_owned())
        }
    }

    fn parse_if_tag(parts: Vec<&'a str>) -> (r: Result<Self, String>)
        requires
            parts.len() >= 1,
        ensures
            match r {
                Ok(t) => if_tag(str_views(parts@)) == Ok::<_, Seq<char>>(t@),
                Err(m) => if_tag(str_views(parts@)) == Err::<TokenView, _>(m@),
            },
    {
        let mut rest: Vec<&'a str> = Vec::new();
        let mut i: usize = 1;
        while i < parts.len()
            invariant
                1 <= i <= parts.len(),
                rest@ == parts@.subrange(1, i as int),
            decreases parts.len() - i,
        {
            rest.push(parts[i]);
            assert(rest@ =~= parts@.subrange(1, i + 1));
            i = i + 1;
        }
        assert(str_views(rest@) =~= str_views(parts@).drop_first());
        match Expr::parse(rest) {
            Ok(e) => Ok(TemplateToken::If(e)),
            Err(m) => {
                let mut msg = "Invalid if tag syntax: ".to_owned();
                msg.append(m.as_str());
                Err(msg)
            },
        }
    }

    fn parse_for_tag(parts: Vec<&'a str>) -> (r: Result<Self, String>)
        requires
            parts.len() >= 1,
        ensures
            match r {
                Ok(t) => for_tag(str_views(parts@)) == Ok::<_, Seq<char>>(t@),
                Err(m) => for_tag(str_views(parts@)) == Err::<TokenView, _>(m@),
            },
    {
        if parts.len() == 4 {
            if str_eq(parts[2], "in") {
                Ok(TemplateToken::For(parts[1], Path::parse(parts[3])))
            } else {
                Err("Invalid for tag syntax. Missing 'in' keyword.".to_owned())
            }
        } else {
            let mut m =
                "Invalid for tag syntax. Incorrect number of parts - expected 4 (for, var, in, expression), got ".to_owned();
            let list = quote_list(&parts);
            m.append(list.as_str());
            m.append(".");
            Err(m)
        }
    }

    fn parse_endfor_tag(parts: Vec<&'a str>) -> (r: Result<Self, String>)
        requires
            parts.len() >= 1,
        ensures
            match r {
                Ok(t) => endfor_tag(str_views(parts@)) == Ok::<_, Seq<char>>(t@),
                Err(m) => endfor_tag(str_views(parts@)) == Err::<TokenView, _>(m@),
            },
    {
        if parts.len() == 2 {
            Ok(TemplateToken::EndFor(parts[1]))
        } else {
            let mut m =
                "Invalid endfor tag syntax. Incorrect number of parts - expected 2 (endfor, var), got ".to_owned();
            let list = quote_list(&parts);
            m.append(list.as_str());
            m.append(".");
            Err(m)
        }
    }
}

} // verus!
