use vstd::prelude::*;

use crate::text::{quote_list, quoted_list, split_dots, split_on_dots, str_eq, str_views};

verus! {

/// Represents a path in a tree and is used for lookups into a
/// [`crate::data_file_parser::DataSet`].
#[derive(Debug, PartialEq, Clone)]
pub struct Path<'a> {
    pub segments: Vec<&'a str>,
}

/// Represents a boolean expression, which are used as conditions in templates.
#[derive(Debug, PartialEq, Clone)]
pub struct Expr<'a> {
    pub predicate: Predicate,
    pub path: Path<'a>,
}

/// Represents a predicate of a boolean expression.
#[derive(Debug, PartialEq, Eq, Structural, Clone, Copy)]
pub enum Predicate {
    Exists,
}

impl<'a> View for Path<'a> {
    type V = Seq<Seq<char>>;

    open spec fn view(&self) -> Seq<Seq<char>> {
        str_views(self.segments@)
    }
}

impl<'a> View for Expr<'a> {
    type V = (Predicate, Seq<Seq<char>>);

    open spec fn view(&self) -> (Predicate, Seq<Seq<char>>) {
        (self.predicate, self.path@)
    }
}

/// The error for an expression that is not a predicate followed by a path.
pub open spec fn expr_arity_msg(words: Seq<Seq<char>>) -> Seq<char> {
    "Invalid expression syntax - expected a predicate and a path, got: '"@ + quoted_list(words)
        + "'."@
}

/// The error for a predicate keyword that is not known.
pub open spec fn unknown_predicate_msg(word: Seq<char>) -> Seq<char> {
    "Unknown predicate: '"@ + word + "'."@
}

/// What [`Expr::parse`] makes of the given words.
pub open spec fn expr_of(words: Seq<Seq<char>>) -> Result<(Predicate, Seq<Seq<char>>), Seq<char>> {
    if words.len() != 2 {
        Err(expr_arity_msg(words))
    } else if words[0] == "exists"@ {
        Ok((Predicate::Exists, split_dots(words[1])))
    } else {
        Err(unknown_predicate_msg(words[0]))
    }
}

impl<'a> Path<'a> {
    /// Parses a given string into a [`Path`]. Segments are separated by dots.
    pub fn parse(input: &'a str) -> (r: Self)
        ensures
            r@ == split_dots(input@),
    {
        Path { segments: split_on_dots(input) }
    }

    /// Helper function to instantiate a [`Path`] from a vector of segments.
    pub fn from_segments(segments: Vec<&'a str>) -> (r: Self)
        ensures
            r.segments == segments,
    {
        Path { segments }
    }

    /// Helper function to instantiate a [`Path`] from a single segment.
    pub fn from_segment(segment: &'a str) -> (r: Self)
        ensures
            r@ == seq![segment@],
    {
        let r = Self::from_segments(vec![segment]);
        assert(r@ =~= seq![segment@]);
        r
    }

    /// A path with the same segments.
    pub fn duplicate(&self) -> (r: Self)
        ensures
            r@ == self@,
    {
        let mut segments: Vec<&'a str> = Vec::new();
        let mut i: usize = 0;
        while i < self.segments.len()
            invariant
                0 <= i <= self.segments.len(),
                segments@ == self.segments@.take(i as int),
            decreases self.segments.len() - i,
        {
            segments.push(self.segments[i]);
            assert(segments@ =~= self.segments@.take(i + 1));
            i = i + 1;
        }
        assert(segments@ =~= self.segments@);
        Path { segments }
    }
}

impl<'a> Expr<'a> {
    /// Parses the given words, a predicate and a path, into an [`Expr`].
    pub fn parse(parts: Vec<&'a str>) -> (r: Result<Self, String>)
        ensures
            match r {
                Ok(e) => expr_of(str_views(parts@)) == Ok::<_, Seq<char>>(e@),
                Err(m) => expr_of(str_views(parts@)) == Err::<(Predicate, Seq<Seq<char>>), _>(m@),
            },
    {
        if parts.len() != 2 {
            let mut m = "Invalid expression syntax - expected a predicate and a path, got: '".to_owned();
            let list = quote_list(&parts);
            m.append(list.as_str());
            m.append("'.");
            return Err(m);
        }
        if !str_eq(parts[0], "exists") {
            let mut m = "Unknown predicate: '".to_owned();
            m.append(parts[0]);
            m.append("'.");
            return Err(m);
        }
        let path = Path::parse(parts[1]);
        Ok(Expr { predicate: Predicate::Exists, path })
    }

    /// Helper function to instantiate an [`Expr`] from a predicate and path segments.
    pub fn from(predicate: Predicate, segments: Vec<&'a str>) -> (r: Self)
        ensures
            r.predicate == predicate,
            r.path.segments == segments,
    {
        Expr { predicate, path: Path::from_segments(segments) }
    }

    /// An expression with the same predicate and path.
    pub fn duplicate(&self) -> (r: Self)
        ensures
            r@ == self@,
    {
        Expr { predicate: self.predicate, path: self.path.duplicate() }
    }
}

} // verus!
