use vstd::prelude::*;

verus! {

/// Characters with the Unicode `White_Space` property, the separators of
/// the words inside a tag.
pub open spec fn is_space(c: char) -> bool {
    ||| '\u{9}' <= c <= '\u{d}'
    ||| c == ' '
    ||| c == '\u{85}'
    ||| c == '\u{a0}'
    ||| c == '\u{1680}'
    ||| '\u{2000}' <= c <= '\u{200a}'
    ||| c == '\u{2028}'
    ||| c == '\u{2029}'
    ||| c == '\u{202f}'
    ||| c == '\u{205f}'
    ||| c == '\u{3000}'
}

/// The views of a sequence of string slices.
pub open spec fn str_views(v: Seq<&str>) -> Seq<Seq<char>> {
    v.map_values(|w: &str| w@)
}

/// The first position at or after `i` that holds `c`, or the length of `s`
/// when there is none.
pub open spec fn find_from(s: Seq<char>, c: char, i: int) -> int
    decreases s.len() - i,
{
    if 0 <= i < s.len() && s[i] != c {
        find_from(s, c, i + 1)
    } else {
        i
    }
}

/// The first position at or after `i` that holds no white space.
pub open spec fn skip_spaces(s: Seq<char>, i: int) -> int
    decreases s.len() - i,
{
    if 0 <= i < s.len() && is_space(s[i]) {
        skip_spaces(s, i + 1)
    } else {
        i
    }
}

/// The first position at or after `i` that holds white space.
pub open spec fn skip_word(s: Seq<char>, i: int) -> int
    decreases s.len() - i,
{
    if 0 <= i < s.len() && !is_space(s[i]) {
        skip_word(s, i + 1)
    } else {
        i
    }
}

/// The white-space separated words of `s` from position `i` on.
pub open spec fn words_from(s: Seq<char>, i: int) -> Seq<Seq<char>>
    decreases s.len() - i,
{
    let start = skip_spaces(s, i);
    if 0 <= i <= s.len() && start < s.len() {
        let end = skip_word(s, start);
        proof {
            lemma_skip_spaces(s, i);
            lemma_skip_word(s, start);
        }
        seq![s.subrange(start, end)] + words_from(s, end)
    } else {
        seq![]
    }
}

/// The white-space separated words of `s`, without empty words.
pub open spec fn words(s: Seq<char>) -> Seq<Seq<char>> {
    words_from(s, 0)
}

/// The pieces of `s` between the dots, from position `i` on.
pub open spec fn pieces_from(s: Seq<char>, i: int) -> Seq<Seq<char>>
    decreases s.len() - i,
{
    let end = find_from(s, '.', i);
    if 0 <= i <= s.len() && end < s.len() {
        proof {
            lemma_find_from(s, '.', i);
        }
        seq![s.subrange(i, end)] + pieces_from(s, end + 1)
    } else {
        seq![s.subrange(i, s.len() as int)]
    }
}

/// The pieces of `s` between the dots: one more than there are dots, some
/// of them possibly empty.
pub open spec fn split_dots(s: Seq<char>) -> Seq<Seq<char>> {
    pieces_from(s, 0)
}

/// The pieces joined with `sep` between each two of them.
pub open spec fn joined(pieces: Seq<Seq<char>>, sep: Seq<char>) -> Seq<char>
    decreases pieces.len(),
{
    if pieces.len() == 0 {
        seq![]
    } else if pieces.len() == 1 {
        pieces[0]
    } else {
        joined(pieces.drop_last(), sep) + sep + pieces.last()
    }
}

/// The word in double quotes.
pub open spec fn quoted(w: Seq<char>) -> Seq<char> {
    "\""@ + w + "\""@
}

/// The words as a bracketed list of quoted words: `["a", "b"]`.
pub open spec fn quoted_list(ws: Seq<Seq<char>>) -> Seq<char> {
    "["@ + joined(ws.map_values(|w: Seq<char>| quoted(w)), ", "@) + "]"@
}

/// The search stays in bounds, stops at `c` if anywhere, and passes no `c`.
pub proof fn lemma_find_from(s: Seq<char>, c: char, i: int)
    requires
        0 <= i <= s.len(),
    ensures
        i <= find_from(s, c, i) <= s.len(),
        find_from(s, c, i) < s.len() ==> s[find_from(s, c, i)] == c,
        forall|k: int| i <= k < find_from(s, c, i) ==> s[k] != c,
    decreases s.len() - i,
{
    if i < s.len() && s[i] != c {
        lemma_find_from(s, c, i + 1);
    }
}

/// Skipping white space stays in bounds and stops at a non-space.
pub proof fn lemma_skip_spaces(s: Seq<char>, i: int)
    requires
        0 <= i <= s.len(),
    ensures
        i <= skip_spaces(s, i) <= s.len(),
        skip_spaces(s, i) < s.len() ==> !is_space(s[skip_spaces(s, i)]),
    decreases s.len() - i,
{
    if i < s.len() && is_space(s[i]) {
        lemma_skip_spaces(s, i + 1);
    }
}

/// Skipping a word stays in bounds and moves past a non-space.
pub proof fn lemma_skip_word(s: Seq<char>, i: int)
    requires
        0 <= i <= s.len(),
    ensures
        i <= skip_word(s, i) <= s.len(),
        i < s.len() && !is_space(s[i]) ==> i < skip_word(s, i),
    decreases s.len() - i,
{
    if i < s.len() && !is_space(s[i]) {
        lemma_skip_word(s, i + 1);
    }
}

/// Tells whether `c` separates words.
pub fn is_space_char(c: char) -> (r: bool)
    ensures
        r == is_space(c),
{
    ('\u{9}' <= c && c <= '\u{d}') || c == ' ' || c == '\u{85}' || c == '\u{a0}' || c == '\u{1680}'
        || ('\u{2000}' <= c && c <= '\u{200a}') || c == '\u{2028}' || c == '\u{2029}' || c
        == '\u{202f}' || c == '\u{205f}' || c == '\u{3000}'
}

/// The characters of `s`, one by one.
pub fn chars_of(s: &str) -> (r: Vec<char>)
    ensures
        r@ == s@,
{
    let mut r: Vec<char> = Vec::new();
    for c in it: s.chars()
        invariant
            r@ == it.seq().take(it.index() as int),
            it.seq() == s@,
    {
        r.push(c);
    }
    r
}

/// Tells whether two strings hold the same characters.
pub fn str_eq(a: &str, b: &str) -> (r: bool)
    ensures
        r == (a@ == b@),
{
    let x = chars_of(a);
    let y = chars_of(b);
    if x.len() != y.len() {
        return false;
    }
    let mut i: usize = 0;
    while i < x.len()
        invariant
            x@ == a@,
            y@ == b@,
            x.len() == y.len(),
            0 <= i <= x.len(),
            forall|k: int| 0 <= k < i ==> x@[k] == y@[k],
        decreases x.len() - i,
    {
        if x[i] != y[i] {
            return false;
        }
        i = i + 1;
    }
    assert(a@ =~= b@);
    true
}

/// The first position at or after `from` that holds `c`, or the length of
/// `v` when there is none.
pub fn find_char(v: &Vec<char>, c: char, from: usize) -> (r: usize)
    requires
        from <= v.len(),
    ensures
        r == find_from(v@, c, from as int),
        from <= r <= v.len(),
{
    let mut i = from;
    while i < v.len() && v[i] != c
        invariant
            from <= i <= v.len(),
            find_from(v@, c, i as int) == find_from(v@, c, from as int),
        decreases v.len() - i,
    {
        i = i + 1;
    }
    i
}

/// The white-space separated words of `s`, as slices of it.
pub fn split_words<'a>(s: &'a str) -> (r: Vec<&'a str>)
    ensures
        str_views(r@) == words(s@),
{
    let v = chars_of(s);
    let n = v.len();
    let mut r: Vec<&'a str> = Vec::new();
    let mut i: usize = 0;
    while i < n
        invariant
            v@ == s@,
            n == v.len(),
            0 <= i <= n,
            str_views(r@) + words_from(s@, i as int) == words(s@),
        ensures
            str_views(r@) == words(s@),
        decreases n - i,
    {
        let ghost i0 = i as int;
        while i < n && is_space_char(v[i])
            invariant
                v@ == s@,
                n == v.len(),
                i0 <= i <= n,
                skip_spaces(s@, i as int) == skip_spaces(s@, i0),
            decreases n - i,
        {
            i = i + 1;
        }
        if i == n {
            assert(words_from(s@, i0) == Seq::<Seq<char>>::empty());
            assert(str_views(r@) + words_from(s@, n as int) =~= str_views(r@));
            assert(str_views(r@) =~= str_views(r@) + words_from(s@, i0));
            break;
        }
        let start = i;
        while i < n && !is_space_char(v[i])
            invariant
                v@ == s@,
                n == v.len(),
                start <= i <= n,
                skip_word(s@, i as int) == skip_word(s@, start as int),
            decreases n - i,
        {
            i = i + 1;
        }
        let w = s.substring_char(start, i);
        let ghost old_r = r@;
        r.push(w);
        assert(str_views(r@) =~= str_views(old_r) + seq![s@.subrange(start as int, i as int)]);
        assert(str_views(r@) + words_from(s@, i as int) =~= str_views(old_r) + words_from(
            s@,
            i0,
        ));
        if i == n {
            assert(words_from(s@, n as int) =~= Seq::<Seq<char>>::empty());
            assert(str_views(r@) + words_from(s@, n as int) =~= str_views(r@));
        }
    }
    r
}

/// The pieces of `s` between the dots, as slices of it.
pub fn split_on_dots<'a>(s: &'a str) -> (r: Vec<&'a str>)
    ensures
        str_views(r@) == split_dots(s@),
        r.len() >= 1,
{
    let v = chars_of(s);
    let n = v.len();
    let mut r: Vec<&'a str> = Vec::new();
    let mut i: usize = 0;
    loop
        invariant
            v@ == s@,
            n == v.len(),
            0 <= i <= n,
            str_views(r@) + pieces_from(s@, i as int) == split_dots(s@),
        decreases n - i,
    {
        let end = find_char(&v, '.', i);
        proof {
            lemma_find_from(s@, '.', i as int);
        }
        let w = s.substring_char(i, end);
        let ghost old_r = r@;
        r.push(w);
        assert(str_views(r@) =~= str_views(old_r) + seq![s@.subrange(i as int, end as int)]);
        if end == n {
            assert(str_views(r@) =~= str_views(old_r) + pieces_from(s@, i as int));
            return r;
        }
        assert(str_views(r@) + pieces_from(s@, end + 1) =~= str_views(old_r) + pieces_from(
            s@,
            i as int,
        ));
        i = end + 1;
    }
}

/// The slices joined with `sep` between each two of them.
pub fn join_strs(ws: &Vec<&str>, sep: &str) -> (r: String)
    ensures
        r@ == joined(str_views(ws@), sep@),
{
    let mut r = String::new();
    let mut i: usize = 0;
    while i < ws.len()
        invariant
            0 <= i <= ws.len(),
            r@ == joined(str_views(ws@).take(i as int), sep@),
        decreases ws.len() - i,
    {
        let ghost old_r = r@;
        if i > 0 {
            r.append(sep);
        }
        r.append(ws[i]);
        proof {
            let vs = str_views(ws@);
            assert(vs.take(i + 1).drop_last() =~= vs.take(i as int));
            if i == 0 {
                assert(r@ =~= vs.take(1)[0]);
            }
        }
        i = i + 1;
    }
    assert(str_views(ws@).take(ws.len() as int) =~= str_views(ws@));
    r
}

/// The slices as a bracketed list of quoted words: `["a", "b"]`.
pub fn quote_list(ws: &Vec<&str>) -> (r: String)
    ensures
        r@ == quoted_list(str_views(ws@)),
{
    let ghost qs = str_views(ws@).map_values(|w: Seq<char>| quoted(w));
    let mut r = String::new();
    let mut i: usize = 0;
    while i < ws.len()
        invariant
            0 <= i <= ws.len(),
            qs == str_views(ws@).map_values(|w: Seq<char>| quoted(w)),
            r@ == joined(qs.take(i as int), ", "@),
        decreases ws.len() - i,
    {
        let ghost old_r = r@;
        if i > 0 {
            r.append(", ");
        }
        r.append("\"");
        r.append(ws[i]);
        r.append("\"");
        proof {
            assert(qs.take(i + 1).drop_last() =~= qs.take(i as int));
            assert(qs[i as int] == quoted(ws@[i as int]@));
            if i == 0 {
                assert(r@ =~= qs.take(1)[0]);
            } else {
                assert(r@ =~= old_r + ", "@ + qs[i as int]);
            }
        }
        i = i + 1;
    }
    assert(qs.take(ws.len() as int) =~= qs);
    let mut out = "[".to_owned();
    out.append(r.as_str());
    out.append("]");
    out
}

} // verus!
