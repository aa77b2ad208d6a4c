use vstd::prelude::*;

pub mod config;
pub mod data_file_parser;
pub mod expressions;
pub mod template_parser;
pub mod template_tokenizer;
pub mod text;
pub mod visitor;

use crate::data_file_parser::{is_data_error, DataNode, DataSet};
use crate::template_parser::{balanced, lemma_parse_iff_balanced, parse, parse_tokens};
use crate::template_tokenizer::{lex, tokenize};
use crate::visitor::{eval, lemma_eval_errors_are_data_errors, visit};

verus! {

/// Why a template could not be populated: the template itself is malformed
/// (a lexical or a nesting error), or the data lacks what it refers to.
#[derive(Debug, PartialEq)]
pub enum PopulateError {
    Template(String),
    Data(String),
}

/// The mathematical value of a [`PopulateError`].
pub enum Failure {
    Template(Seq<char>),
    Data(Seq<char>),
}

impl View for PopulateError {
    type V = Failure;

    open spec fn view(&self) -> Failure {
        match self {
            PopulateError::Template(m) => Failure::Template(m@),
            PopulateError::Data(m) => Failure::Data(m@),
        }
    }
}

/// The text of the template `template` populated with the data set of the
/// given context and root: its tokens, parsed into a tree, rendered.
pub open spec fn populated(template: Seq<char>, context: Seq<char>, root: DataNode) -> Result<
    Seq<char>,
    Failure,
> {
    match lex(template) {
        Err(m) => Err(Failure::Template(m)),
        Ok(toks) => match parse_tokens(toks) {
            Err(m) => Err(Failure::Template(m)),
            Ok(tree) => match eval(tree, context, root) {
                Ok(t) => Ok(t),
                Err(m) => Err(Failure::Data(m)),
            },
        },
    }
}

/// Populates the template text with the data set: tokenizes it, parses the
/// tokens into a tree and renders the tree.
pub fn populate_template(template: &str, data: &DataSet) -> (r: Result<String, PopulateError>)
    ensures
        match r {
            Ok(t) => populated(template@, data.context@, *data.root) == Ok::<_, Failure>(t@),
            Err(e) => populated(template@, data.context@, *data.root) == Err::<Seq<char>, _>(e@),
        },
{
    let tokens = match tokenize(template) {
        Ok(t) => t,
        Err(m) => {
            return Err(PopulateError::Template(m));
        },
    };
    let tree = match parse(tokens.as_slice()) {
        Ok(t) => t,
        Err(m) => {
            return Err(PopulateError::Template(m));
        },
    };
    match visit(&tree, data) {
        Ok(t) => Ok(t),
        Err(m) => Err(PopulateError::Data(m)),
    }
}

/// A template whose tags are well formed and whose `for` and `if` blocks are
/// balanced, with matching loop variables, parses; populating it succeeds or
/// fails only because of the data, with a data resolution error, never
/// because of its structure.
pub proof fn lemma_balanced_template_fails_only_on_data(
    template: Seq<char>,
    context: Seq<char>,
    root: DataNode,
)
    requires
        lex(template) is Ok,
        balanced(lex(template)->Ok_0),
    ensures
        parse_tokens(lex(template)->Ok_0) is Ok,
        populated(template, context, root) matches Err(f) ==> f is Data && is_data_error(
            f->Data_0,
        ),
{
    let toks = lex(template)->Ok_0;
    lemma_parse_iff_balanced(toks);
    lemma_eval_errors_are_data_errors(parse_tokens(toks)->Ok_0, context, root);
}

} // verus!
