use vstd::prelude::*;

use crate::expressions::Path;
use crate::text::{join_strs, joined, str_eq};

verus! {

/// A node of a data document: null (or any scalar that is no string), a
/// string, a sequence of nodes, or a mapping from string keys to nodes.
#[derive(Debug, PartialEq)]
pub enum DataNode {
    Null,
    Str(String),
    Sequence(Vec<DataNode>),
    Mapping(Vec<(String, DataNode)>),
}

/// Represents a data document, or a part of it seen from inside a loop.
#[derive(Debug)]
pub struct DataSet<'a> {
    /// Context is used to offset paths in the represented tree, in cases when
    /// the dataset is referenced in the context of a variable in the template,
    /// such as within foreach loops. Otherwise, it is an empty string.
    pub context: &'a str,
    /// Root node of the tree.
    pub root: &'a DataNode,
}

/// The node under `key` among the entries from position `i` on: the first
/// entry with that key.
pub open spec fn entry_from(entries: Seq<(String, DataNode)>, key: Seq<char>, i: int) -> Option<
    DataNode,
>
    decreases entries.len() - i,
{
    if 0 <= i < entries.len() {
        if entries[i].0@ == key {
            Some(entries[i].1)
        } else {
            entry_from(entries, key, i + 1)
        }
    } else {
        None
    }
}

/// The child of `node` under `key`; only a mapping has children by key.
pub open spec fn child(node: DataNode, key: Seq<char>) -> Option<DataNode> {
    match node {
        DataNode::Mapping(entries) => entry_from(entries@, key, 0),
        _ => None,
    }
}

/// The node reached from `node` through the segments of `path` from
/// position `i` on, by successive mapping lookups.
pub open spec fn resolve_from(node: DataNode, path: Seq<Seq<char>>, i: int) -> Option<DataNode>
    decreases path.len() - i,
{
    if 0 <= i < path.len() {
        match child(node, path[i]) {
            Some(c) => resolve_from(c, path, i + 1),
            None => None,
        }
    } else {
        Some(node)
    }
}

/// The node that `path` addresses in a data set with the given context and
/// root. A non-empty context must be the first segment, which is consumed;
/// any other path addresses nothing.
pub open spec fn locate_in(context: Seq<char>, root: DataNode, path: Seq<Seq<char>>) -> Option<
    DataNode,
> {
    if context.len() == 0 {
        resolve_from(root, path, 0)
    } else if path.len() > 0 && path[0] == context {
        resolve_from(root, path, 1)
    } else {
        None
    }
}

pub open spec fn not_defined_msg(path: Seq<Seq<char>>) -> Seq<char> {
    "Path ["@ + joined(path, "."@) + "] is not defined in data file."@
}

pub open spec fn not_string_msg(path: Seq<Seq<char>>) -> Seq<char> {
    "Path ["@ + joined(path, "."@) + "] does not reference a string in data file."@
}

pub open spec fn not_sequence_msg(path: Seq<Seq<char>>) -> Seq<char> {
    "Path ["@ + joined(path, "."@) + "] does not reference a sequence in data file."@
}

/// The string that `path` addresses, or why there is none.
pub open spec fn string_at(context: Seq<char>, root: DataNode, path: Seq<Seq<char>>) -> Result<
    Seq<char>,
    Seq<char>,
> {
    match locate_in(context, root, path) {
        Some(DataNode::Str(s)) => Ok(s@),
        Some(_) => Err(not_string_msg(path)),
        None => Err(not_defined_msg(path)),
    }
}

/// The items of the sequence that `path` addresses, or why there are none.
pub open spec fn items_at(context: Seq<char>, root: DataNode, path: Seq<Seq<char>>) -> Result<
    Seq<DataNode>,
    Seq<char>,
> {
    match locate_in(context, root, path) {
        Some(DataNode::Sequence(items)) => Ok(items@),
        Some(_) => Err(not_sequence_msg(path)),
        None => Err(not_defined_msg(path)),
    }
}

/// Tells whether an error message is one of the three of data resolution.
pub open spec fn is_data_error(m: Seq<char>) -> bool {
    exists|p: Seq<Seq<char>>|
        m == not_defined_msg(p) || m == not_string_msg(p) || m == not_sequence_msg(p)
}

/// The same node, as an optional value.
pub open spec fn deref_opt(r: Option<&DataNode>) -> Option<DataNode> {
    match r {
        Some(n) => Some(*n),
        None => None,
    }
}

/// The node under `key` in the entries of a mapping.
fn find_entry<'a>(entries: &'a Vec<(String, DataNode)>, key: &str) -> (r: Option<&'a DataNode>)
    ensures
        deref_opt(r) == entry_from(entries@, key@, 0),
{
    let mut i: usize = 0;
    while i < entries.len()
        invariant
            0 <= i <= entries.len(),
            entry_from(entries@, key@, i as int) == entry_from(entries@, key@, 0),
        decreases entries.len() - i,
    {
        if str_eq(entries[i].0.as_str(), key) {
            return Some(&entries[i].1);
        }
        i = i + 1;
    }
    None
}

proof fn lemma_resolve_shift(node: DataNode, path: Seq<Seq<char>>, i: int)
    requires
        0 <= i,
        path.len() > 0,
    ensures
        resolve_from(node, path, i + 1) == resolve_from(node, path.drop_first(), i),
    decreases path.len() - i,
{
    if i + 1 < path.len() {
        assert(path.drop_first()[i] == path[i + 1]);
        if let Some(c) = child(node, path[i + 1]) {
            lemma_resolve_shift(c, path, i + 1);
        }
    }
}

/// In a data set with a non-empty context, a path whose first segment is the
/// context addresses what the rest of it addresses from the root without
/// context; any other path addresses nothing, so its string is "not
/// defined" whatever the root holds.
pub proof fn lemma_context_consumes_first_segment(
    context: Seq<char>,
    root: DataNode,
    path: Seq<Seq<char>>,
)
    requires
        context.len() > 0,
    ensures
        path.len() > 0 && path[0] == context ==> locate_in(context, root, path) == locate_in(
            seq![],
            root,
            path.drop_first(),
        ),
        !(path.len() > 0 && path[0] == context) ==> locate_in(context, root, path) is None
            && string_at(context, root, path) == Err::<Seq<char>, _>(not_defined_msg(path)),
{
    if path.len() > 0 && path[0] == context {
        lemma_resolve_shift(root, path, 0);
    }
}

impl<'a> DataSet<'a> {
    /// Creates a new DataSet with empty context.
    pub fn from(root: &'a DataNode) -> (r: Self)
        ensures
            r.context@.len() == 0,
            *r.root == *root,
    {
        proof {
            reveal_strlit("");
        }
        DataSet { context: "", root }
    }

    /// Gets a string value from the represented tree at the given path.
    /// Returns an error if the path is not defined in the tree
    /// or if it does not reference a string.
    pub fn get_str(&self, path: &Path) -> (r: Result<&'a str, String>)
        ensures
            match r {
                Ok(s) => string_at(self.context@, *self.root, path@) == Ok::<_, Seq<char>>(s@),
                Err(m) => string_at(self.context@, *self.root, path@) == Err::<Seq<char>, _>(m@),
            },
    {
        match self.locate(path) {
            Some(DataNode::Str(s)) => Ok(s.as_str()),
            Some(_) => Err(path_error(path, "] does not reference a string in data file.")),
            None => Err(path_error(path, "] is not defined in data file.")),
        }
    }

    /// Lists all child datasets which are located at the given path in the
    /// represented tree: one for each item of the sequence there, in order,
    /// each with the given context. Returns an error if the path is not
    /// defined in the tree or if it does not reference a sequence.
    pub fn list(&self, context: &'a str, path: &Path) -> (r: Result<Vec<DataSet<'a>>, String>)
        ensures
            match r {
                Ok(v) => items_at(self.context@, *self.root, path@) matches Ok(items) && v.len()
                    == items.len() && forall|i: int|
                    0 <= i < v.len() ==> v@[i].context == context && *v@[i].root == items[i],
                Err(m) => items_at(self.context@, *self.root, path@) == Err::<Seq<DataNode>, _>(
                    m@,
                ),
            },
    {
        match self.locate(path) {
            Some(DataNode::Sequence(items)) => {
                let mut v: Vec<DataSet<'a>> = Vec::new();
                let mut i: usize = 0;
                while i < items.len()
                    invariant
                        0 <= i <= items.len(),
                        v.len() == i,
                        forall|k: int|
                            0 <= k < i ==> v@[k].context == context && *v@[k].root == items@[k],
                    decreases items.len() - i,
                {
                    v.push(DataSet { context, root: &items[i] });
                    i = i + 1;
                }
                Ok(v)
            },
            Some(_) => Err(path_error(path, "] does not reference a sequence in data file.")),
            None => Err(path_error(path, "] is not defined in data file.")),
        }
    }

    /// Checks if a node exists in the represented tree at the given path.
    pub fn path_exists(&self, path: &Path) -> (r: bool)
        ensures
            r == locate_in(self.context@, *self.root, path@) is Some,
    {
        self.locate(path).is_some()
    }

    /// Locates a node in the represented tree by the given path.
    fn locate(&self, path: &Path) -> (r: Option<&'a DataNode>)
        ensures
            deref_opt(r) == locate_in(self.context@, *self.root, path@),
    {
        let n = path.segments.len();
        let mut i: usize = 0;
        // offset path by dataset context, if exists
        if !self.context.is_empty() {
            if n > 0 && str_eq(self.context, path.segments[0]) {
                i = 1;
            } else {
                return None;
            }
        }
        let mut node: &'a DataNode = self.root;
        while i < n
            invariant
                0 <= i <= n,
                n == path.segments.len(),
                resolve_from(*node, path@, i as int) == locate_in(
                    self.context@,
                    *self.root,
                    path@,
                ),
            decreases n - i,
        {
            match node {
                DataNode::Mapping(entries) => {
                    match find_entry(entries, path.segments[i]) {
                        Some(c) => {
                            node = c;
                        },
                        None => {
                            return None;
                        },
                    }
                },
                _ => {
                    return None;
                },
            }
            i = i + 1;
        }
        Some(node)
    }
}

/// `Path [` + the dotted path + `tail`.
fn path_error(path: &Path, tail: &str) -> (r: String)
    ensures
        r@ == "Path ["@ + joined(path@, "."@) + tail@,
{
    let mut m = "Path [".to_owned();
    let dotted = join_strs(&path.segments, ".");
    m.append(dotted.as_str());
    m.append(tail);
    m
}

} // verus!
