use vstd::prelude::*;

use crate::data_file_parser::{
    is_data_error, items_at, locate_in, not_defined_msg, not_sequence_msg, not_string_msg,
    string_at, DataNode, DataSet,
};
use crate::expressions::Predicate;
use crate::template_parser::{node_view, nodes_view, NodeView, TemplateNode, TemplateTree};

verus! {

/// `r` with `front` put before its text.
pub open spec fn text_after(front: Seq<char>, r: Result<Seq<char>, Seq<char>>) -> Result<
    Seq<char>,
    Seq<char>,
> {
    match r {
        Ok(t) => Ok(front + t),
        Err(m) => Err(m),
    }
}

/// The rendering of a node against the data set with the given context
/// and root.
pub open spec fn eval(n: NodeView, context: Seq<char>, root: DataNode) -> Result<
    Seq<char>,
    Seq<char>,
>
    decreases n, 0int,
{
    match n {
        NodeView::Sequence(ns) => eval_all(ns, 0, context, root),
        NodeView::Text(t) => Ok(t),
        NodeView::Var(p) => string_at(context, root, p),
        NodeView::ForEach(var, p, body) => match items_at(context, root, p) {
            Ok(items) => eval_each(*body, var, items, 0),
            Err(m) => Err(m),
        },
        NodeView::If(_, p, body) => if locate_in(context, root, p) is Some {
            eval(*body, context, root)
        } else {
            Ok(seq![])
        },
    }
}

/// The renderings of the nodes from position `i` on, one after the other;
/// the first error stops it.
pub open spec fn eval_all(ns: Seq<NodeView>, i: int, context: Seq<char>, root: DataNode) -> Result<
    Seq<char>,
    Seq<char>,
>
    decreases ns, ns.len() - i,
{
    if 0 <= i < ns.len() {
        match eval(ns[i], context, root) {
            Ok(t) => text_after(t, eval_all(ns, i + 1, context, root)),
            Err(m) => Err(m),
        }
    } else {
        Ok(seq![])
    }
}

/// The renderings of `body` against each of the items from position `i`
/// on, each item seen under the loop variable `var`.
pub open spec fn eval_each(body: NodeView, var: Seq<char>, items: Seq<DataNode>, i: int) -> Result<
    Seq<char>,
    Seq<char>,
>
    decreases body, items.len() - i,
{
    if 0 <= i < items.len() {
        match eval(body, var, items[i]) {
            Ok(t) => text_after(t, eval_each(body, var, items, i + 1)),
            Err(m) => Err(m),
        }
    } else {
        Ok(seq![])
    }
}

/// The view of a rendering.
pub open spec fn rendered(r: Result<String, String>) -> Result<Seq<char>, Seq<char>> {
    match r {
        Ok(t) => Ok(t@),
        Err(m) => Err(m@),
    }
}

proof fn lemma_nodes_view_index(s: Seq<Box<TemplateNode>>, i: int)
    requires
        0 <= i < s.len(),
    ensures
        nodes_view(s).len() == s.len(),
        nodes_view(s)[i] == node_view(*s[i]),
    decreases s.len(),
{
    lemma_nodes_view_len(s);
    if i < s.len() - 1 {
        lemma_nodes_view_index(s.drop_last(), i);
    }
}

proof fn lemma_nodes_view_len(s: Seq<Box<TemplateNode>>)
    ensures
        nodes_view(s).len() == s.len(),
    decreases s.len(),
{
    if s.len() > 0 {
        lemma_nodes_view_len(s.drop_last());
    }
}

proof fn lemma_text_after_assoc(a: Seq<char>, b: Seq<char>, r: Result<Seq<char>, Seq<char>>)
    ensures
        text_after(a, text_after(b, r)) == text_after(a + b, r),
{
    if let Ok(t) = r {
        assert(a + (b + t) =~= a + b + t);
    }
}

proof fn lemma_sequence_child(n: TemplateNode, i: int)
    requires
        n is Sequence,
        0 <= i < n->Sequence_0.len(),
    ensures
        decreases_to!(n => n->Sequence_0[i]),
{
    let v = n->Sequence_0;
    assert(decreases_to!(n => v));
    assert(decreases_to!(v => v[i]));
}

/// Rendering fails only when the data lacks what the tree refers to: every
/// error of it is one of the data resolution errors.
pub proof fn lemma_eval_errors_are_data_errors(n: NodeView, context: Seq<char>, root: DataNode)
    ensures
        eval(n, context, root) matches Err(m) ==> is_data_error(m),
    decreases n, 0int,
{
    match n {
        NodeView::Sequence(ns) => lemma_eval_all_errors(ns, 0, context, root),
        NodeView::Var(p) => {
            if let Err(m) = eval(n, context, root) {
                assert(m == not_defined_msg(p) || m == not_string_msg(p));
            }
        },
        NodeView::ForEach(var, p, body) => match items_at(context, root, p) {
            Ok(items) => lemma_eval_each_errors(*body, var, items, 0),
            Err(m) => {
                assert(m == not_defined_msg(p) || m == not_sequence_msg(p));
            },
        },
        NodeView::If(_, p, body) => lemma_eval_errors_are_data_errors(*body, context, root),
        NodeView::Text(_) => {},
    }
}

proof fn lemma_eval_all_errors(ns: Seq<NodeView>, i: int, context: Seq<char>, root: DataNode)
    ensures
        eval_all(ns, i, context, root) matches Err(m) ==> is_data_error(m),
    decreases ns, ns.len() - i,
{
    if 0 <= i < ns.len() {
        lemma_eval_errors_are_data_errors(ns[i], context, root);
        lemma_eval_all_errors(ns, i + 1, context, root);
    }
}

proof fn lemma_eval_each_errors(body: NodeView, var: Seq<char>, items: Seq<DataNode>, i: int)
    ensures
        eval_each(body, var, items, i) matches Err(m) ==> is_data_error(m),
    decreases body, items.len() - i,
{
    if 0 <= i < items.len() {
        lemma_eval_errors_are_data_errors(body, var, items[i]);
        lemma_eval_each_errors(body, var, items, i + 1);
    }
}

/// Renders the tree against the data set.
pub fn visit(tree: &TemplateTree, data: &DataSet) -> (r: Result<String, String>)
    ensures
        rendered(r) == eval(tree@, data.context@, *data.root),
{
    visit_node(&tree.root, data)
}

fn visit_node(node: &TemplateNode, data: &DataSet) -> (r: Result<String, String>)
    ensures
        rendered(r) == eval(node@, data.context@, *data.root),
    decreases node,
{
    match node {
        TemplateNode::Sequence(nodes) => {
            let ghost ns = nodes_view(nodes@);
            proof {
                lemma_nodes_view_len(nodes@);
            }
            let mut output = String::new();
            let mut i: usize = 0;
            while i < nodes.len()
                invariant
                    0 <= i <= nodes.len(),
                    *node == TemplateNode::Sequence(*nodes),
                    ns == nodes_view(nodes@),
                    ns.len() == nodes.len(),
                    eval_all(ns, 0, data.context@, *data.root) == text_after(
                        output@,
                        eval_all(ns, i as int, data.context@, *data.root),
                    ),
                decreases nodes.len() - i,
            {
                proof {
                    lemma_sequence_child(*node, i as int);
                    lemma_nodes_view_index(nodes@, i as int);
                }
                let text = visit_node(&nodes[i], data)?;
                let ghost before = output@;
                output.append(text.as_str());
                proof {
                    lemma_text_after_assoc(
                        before,
                        text@,
                        eval_all(ns, i + 1, data.context@, *data.root),
                    );
                }
                i = i + 1;
            }
            assert(output@ + seq![] =~= output@);
            Ok(output)
        },
        TemplateNode::Var(path) => {
            let s = data.get_str(path)?;
            Ok(s.to_owned())
        },
        TemplateNode::Text(text) => Ok((*text).to_owned()),
        TemplateNode::ForEach(var, path, body) => {
            let items = data.list(var, path)?;
            let ghost seq_items = items_at(data.context@, *data.root, path@)->Ok_0;
            assert(eval(node@, data.context@, *data.root) == eval_each(
                node_view(**body),
                var@,
                seq_items,
                0,
            ));
            let mut output = String::new();
            let mut i: usize = 0;
            while i < items.len()
                invariant
                    0 <= i <= items.len(),
                    *node == TemplateNode::ForEach(*var, *path, *body),
                    eval(node@, data.context@, *data.root) == eval_each(
                        node_view(**body),
                        var@,
                        seq_items,
                        0,
                    ),
                    items.len() == seq_items.len(),
                    forall|k: int|
                        0 <= k < items.len() ==> items@[k].context == *var && *items@[k].root
                            == seq_items[k],
                    eval_each(node_view(**body), var@, seq_items, 0) == text_after(
                        output@,
                        eval_each(node_view(**body), var@, seq_items, i as int),
                    ),
                decreases items.len() - i,
            {
                proof {
                    assert(decreases_to!(*node => (*node)->ForEach_2));
                }
                let text = visit_node(body, &items[i])?;
                let ghost before = output@;
                output.append(text.as_str());
                proof {
                    lemma_text_after_assoc(
                        before,
                        text@,
                        eval_each(node_view(**body), var@, seq_items, i + 1),
                    );
                }
                i = i + 1;
            }
            assert(output@ + seq![] =~= output@);
            Ok(output)
        },
        TemplateNode::If(expr, body) => {
            match expr.predicate {
                Predicate::Exists => {
                    if data.path_exists(&expr.path) {
                        visit_node(body, data)
                    } else {
                        Ok(String::new())
                    }
                },
            }
        },
    }
}

} // verus!
