//! The graph: nodes that hold an operator and name the nodes that produce
//! their inputs.

use vstd::prelude::*;
use vstd::string::*;
use crate::errors::Error;



use crate::ops::Op;
use crate::plan::{planned, Plan};
use crate::state::{
    fed, fed_by_name, lemma_named_fails, named, outcome, ran, ran_somewhere, ModelState,
};
use crate::tensor::{Tensor, TensorModel};
use crate::tensor::DataType;

verus! {

/// The value of an attribute of a node definition.
#[derive(Debug, Clone, Copy, PartialEq, Eq, Structural)]
pub enum AttrValue {
    Type(DataType),
    Int(i64),
}

/// The definition of a node, as a serialized graph holds it.
pub struct NodeDef {
    pub name: String,
    pub op: String,
    pub input: Vec<String>,
    pub attr: Vec<(String, AttrValue)>,
}

/// The definition of a graph, as a serialized graph holds it.
pub struct GraphDef {
    pub node: Vec<NodeDef>,
}

/// The first attribute of the list that has this name.
pub open spec fn find_attr(attrs: Seq<(String, AttrValue)>, name: Seq<char>) -> Option<AttrValue>
    decreases attrs.len(),
{
    if attrs.len() == 0 {
        None
    } else if attrs[0].0@ == name {
        Some(attrs[0].1)
    } else {
        find_attr(attrs.skip(1), name)
    }
}

impl NodeDef {
    /// The attribute with this name, if the definition has one.
    pub fn get_attr(&self, name: &str) -> (r: Option<AttrValue>)
        ensures
            r == find_attr(self.attr@, name@),
    {
        let wanted = String::from_str(name);
        let mut i: usize = 0;
        assert(self.attr@.skip(0) =~= self.attr@);
        while i < self.attr.len()
            invariant
                0 <= i <= self.attr@.len(),
                wanted@ == name@,
                find_attr(self.attr@, name@) == find_attr(self.attr@.skip(i as int), name@),
            decreases self.attr@.len() - i,
        {
            assert(self.attr@.skip(i as int).skip(1) =~= self.attr@.skip(i + 1));
            if self.attr[i].0 == wanted {
                return Some(self.attr[i].1);
            }
            i += 1;
        }
        None
    }

    /// The datatype that the attribute with this name holds; `Attribute`
    /// where there is none or it holds something else.
    pub fn get_attr_datatype(&self, name: &str) -> (r: Result<DataType, Error>)
        ensures
            r == match find_attr(self.attr@, name@) {
                Some(AttrValue::Type(t)) => Ok::<DataType, Error>(t),
                _ => Err(Error::Attribute),
            },
    {
        match self.get_attr(name) {
            Some(AttrValue::Type(t)) => Ok(t),
            _ => Err(Error::Attribute),
        }
    }

    /// The integer that the attribute with this name holds; `Attribute`
    /// where there is none or it holds something else.
    pub fn get_attr_int(&self, name: &str) -> (r: Result<i64, Error>)
        ensures
            r == match find_attr(self.attr@, name@) {
                Some(AttrValue::Int(v)) => Ok::<i64, Error>(v),
                _ => Err(Error::Attribute),
            },
    {
        match self.get_attr(name) {
            Some(AttrValue::Int(v)) => Ok(v),
            _ => Err(Error::Attribute),
        }
    }
}

/// The number that a decimal digit stands for.
pub open spec fn digit_of(c: char) -> Option<nat> {
    if '0' <= c <= '9' {
        Some((c as nat - '0' as nat) as nat)
    } else {
        None
    }
}

/// The number that a string of decimal digits stands for.
pub open spec fn decimal(s: Seq<char>) -> Option<nat>
    decreases s.len(),
{
    if s.len() == 0 {
        Some(0)
    } else {
        match (decimal(s.drop_last()), digit_of(s.last())) {
            (Some(high), Some(digit)) => Some(10 * high + digit),
            _ => None,
        }
    }
}

/// The index that a string writes: an optional `+`, then one decimal digit
/// or more, standing for a number that fits a `usize`.
pub open spec fn parse_usize(s: Seq<char>) -> Option<usize> {
    let digits = if s.len() > 0 && s[0] == '+' {
        s.skip(1)
    } else {
        s
    };
    if digits.len() == 0 {
        None
    } else {
        match decimal(digits) {
            Some(v) => if v <= usize::MAX {
                Some(v as usize)
            } else {
                None
            },
            None => None,
        }
    }
}

/// A string of digits stands for no smaller a number than any of its prefixes.
pub proof fn lemma_decimal_grows(s: Seq<char>, i: int)
    requires
        0 <= i <= s.len(),
        decimal(s) is Some,
    ensures
        decimal(s.take(i)) is Some,
        decimal(s.take(i)).unwrap() <= decimal(s).unwrap(),
    decreases s.len(),
{
    if i == s.len() {
        assert(s.take(i) =~= s);
    } else {
        assert(s.drop_last().take(i) =~= s.take(i));
        lemma_decimal_grows(s.drop_last(), i);
    }
}

/// Reads the index that a string writes.
pub fn read_usize(s: &str) -> (r: Option<usize>)
    ensures
        r == parse_usize(s@),
{
    let n = s.unicode_len();
    let start: usize = if n > 0 && s.get_char(0) == '+' {
        1
    } else {
        0
    };
    if start == n {
        return None;
    }
    let ghost digits = s@.skip(start as int);
    assert(s@.skip(0) =~= s@);
    assert(digits == if s@.len() > 0 && s@[0] == '+' {
        s@.skip(1)
    } else {
        s@
    });
    let mut acc: usize = 0;
    let mut i: usize = start;
    assert(digits.take(0) =~= Seq::<char>::empty());
    while i < n
        invariant
            n == s@.len(),
            start <= i <= n,
            digits == s@.skip(start as int),
            parse_usize(s@) == match decimal(digits) {
                Some(v) => if v <= usize::MAX {
                    Some(v as usize)
                } else {
                    None
                },
                None => None,
            },
            decimal(digits.take(i - start)) == Some(acc as nat),
        decreases n - i,
    {
        let c = s.get_char(i);
        assert(digits.take(i - start + 1).drop_last() =~= digits.take(i - start));
        assert(digits.take(i - start + 1).last() == c);
        assert(decimal(digits.take(i - start + 1)) == match digit_of(c) {
            Some(d) => Some(10 * (acc as nat) + d),
            None => None,
        });
        if c < '0' || c > '9' {
            proof {
                if decimal(digits) is Some {
                    lemma_decimal_grows(digits, i - start + 1);
                }
            }
            return None;
        }
        let digit: usize = (c as u32 - '0' as u32) as usize;
        let next = match acc.checked_mul(10) {
            Some(v) => v.checked_add(digit),
            None => None,
        };
        match next {
            Some(v) => {
                acc = v;
            },
            None => {
                proof {
                    if decimal(digits) is Some {
                        lemma_decimal_grows(digits, i - start + 1);
                    }
                }
                return None;
            },
        }
        i += 1;
    }
    assert(digits.take(n - start) =~= digits);
    Some(acc)
}

/// A string without the carets that it holds.
pub open spec fn without_carets(s: Seq<char>) -> Seq<char>
    decreases s.len(),
{
    if s.len() == 0 {
        s
    } else if s.last() == '^' {
        without_carets(s.drop_last())
    } else {
        without_carets(s.drop_last()).push(s.last())
    }
}

/// Whether the first colon of a string stands at `i`.
pub open spec fn first_colon_at(s: Seq<char>, i: int) -> bool {
    &&& 0 <= i < s.len()
    &&& s[i] == ':'
    &&& forall|j: int| 0 <= j < i ==> s[j] != ':'
}

/// What an input of a node names: a node, and which of its outputs. A
/// leading caret marks a control input, which names no output; `name` is
/// the first output of the node, and `name:k` its output `k`.
pub open spec fn parse_input(s: Seq<char>) -> (Seq<char>, Option<Option<usize>>) {
    if s.len() > 0 && s[0] == '^' {
        (without_carets(s), Some(None))
    } else if exists|i: int| first_colon_at(s, i) {
        let i = choose|i: int| first_colon_at(s, i);
        (s.take(i), match parse_usize(s.skip(i + 1)) {
            Some(k) => Some(Some(k)),
            None => None,
        })
    } else {
        (s, Some(Some(0usize)))
    }
}

/// The last position in a list of names that holds `name`.
pub open spec fn find_last(names: Seq<Seq<char>>, name: Seq<char>) -> Option<int>
    decreases names.len(),
{
    if names.len() == 0 {
        None
    } else if names.last() == name {
        Some(names.len() - 1)
    } else {
        find_last(names.drop_last(), name)
    }
}

/// The input that a string names among the nodes with these names:
/// `UnknownNode` where no node has the name, and `InvalidInput` where the
/// index of the output is not a number.
pub open spec fn resolve_input(names: Seq<Seq<char>>, s: Seq<char>) -> Result<
    (usize, Option<usize>),
    Error,
> {
    let (name, output) = parse_input(s);
    match (find_last(names, name), output) {
        (None, _) => Err(Error::UnknownNode),
        (Some(id), None) => Err(Error::InvalidInput),
        (Some(id), Some(k)) => Ok((id as usize, k)),
    }
}

/// The inputs that a list of strings names, or the error of the first that names none.
pub open spec fn resolve_inputs(names: Seq<Seq<char>>, inputs: Seq<Seq<char>>) -> Result<
    Seq<(usize, Option<usize>)>,
    Error,
>
    decreases inputs.len(),
{
    if inputs.len() == 0 {
        Ok(Seq::empty())
    } else {
        match resolve_inputs(names, inputs.drop_last()) {
            Err(e) => Err(e),
            Ok(head) => match resolve_input(names, inputs.last()) {
                Err(e) => Err(e),
                Ok(input) => Ok(head.push(input)),
            },
        }
    }
}

/// A string without the carets that it holds.
fn strip_carets(s: &str) -> (r: String)
    ensures
        r@ == without_carets(s@),
{
    let n = s.unicode_len();
    let mut out = String::new();
    let mut i: usize = 0;
    assert(s@.take(0) =~= Seq::<char>::empty());
    while i < n
        invariant
            n == s@.len(),
            0 <= i <= n,
            out@ == without_carets(s@.take(i as int)),
        decreases n - i,
    {
        assert(s@.take(i + 1).drop_last() =~= s@.take(i as int));
        if s.get_char(i) != '^' {
            let piece = s.substring_char(i, i + 1);
            assert(piece@ =~= seq![s@[i as int]]);
            out.append(piece);
            assert(out@ =~= without_carets(s@.take(i as int)).push(s@[i as int]));
        }
        i += 1;
    }
    assert(s@.take(n as int) =~= s@);
    out
}

/// The position of the first colon of a string.
fn first_colon(s: &str) -> (r: Option<usize>)
    ensures
        match r {
            Some(i) => first_colon_at(s@, i as int),
            None => forall|i: int| !first_colon_at(s@, i),
        },
{
    let n = s.unicode_len();
    let mut i: usize = 0;
    while i < n
        invariant
            n == s@.len(),
            0 <= i <= n,
            forall|j: int| 0 <= j < i ==> s@[j] != ':',
        decreases n - i,
    {
        if s.get_char(i) == ':' {
            return Some(i);
        }
        i += 1;
    }
    None
}

/// Splits an input of a node into the name of the node and the index of its
/// output: `Some(None)` for a control input, `None` where the index is not a
/// number.
fn split_input(s: &str) -> (r: (String, Option<Option<usize>>))
    ensures
        (r.0@, r.1) == parse_input(s@),
{
    let n = s.unicode_len();
    if n > 0 && s.get_char(0) == '^' {
        return (strip_carets(s), Some(None));
    }
    match first_colon(s) {
        None => (String::from_str(s), Some(Some(0))),
        Some(i) => {
            proof {
                let c = choose|c: int| first_colon_at(s@, c);
                assert(first_colon_at(s@, i as int));
                assert(c == i) by {
                    if c < i {
                        assert(s@[c] != ':');
                    }
                    if i < c {
                        assert(s@[i as int] != ':');
                    }
                }
            }
            let name = String::from_str(s.substring_char(0, i));
            assert(s@.subrange(0, i as int) =~= s@.take(i as int));
            let rest = s.substring_char(i + 1, n);
            assert(s@.subrange(i + 1, n as int) =~= s@.skip(i + 1));
            match read_usize(rest) {
                Some(k) => (name, Some(Some(k))),
                None => (name, None),
            }
        },
    }
}

/// A node of a graph, with an operator of type `O`.
pub struct Node<O> {
    /// The position of the node in its model.
    pub id: usize,
    pub name: String,
    /// The name of the node's operator.
    pub op_name: String,
    /// For each input, the id of the node that produces it and the index of
    /// that node's output; a control input has no such index.
    pub inputs: Vec<(usize, Option<usize>)>,
    pub op: O,
}

/// A graph: its nodes, each at the position that is its id.
pub struct Model<O> {
    pub nodes: Vec<Node<O>>,
}

/// What makes the operator of a node definition.
pub trait OpBuilder<O> {
    /// The operator of a node definition, or why there is none. A builder
    /// that does not say what it builds still builds one thing for each definition.
    open spec fn build_spec(&self, pb: NodeDef) -> Result<O, Error> {
        arbitrary()
    }

    /// Makes the operator of a node definition.
    fn build(&self, pb: &NodeDef) -> (r: Result<O, Error>)
        ensures
            r == self.build_spec(*pb),
    ;
}

/// The names of the nodes of a model.
pub open spec fn names_of<O>(nodes: Seq<Node<O>>) -> Seq<Seq<char>> {
    nodes.map_values(|n: Node<O>| n.name@)
}

/// The names of the first `n` node definitions.
pub open spec fn names_before(defs: Seq<NodeDef>, n: int) -> Seq<Seq<char>> {
    defs.take(n).map_values(|d: NodeDef| d.name@)
}

/// The texts of the inputs of a node definition.
pub open spec fn input_texts(def: NodeDef) -> Seq<Seq<char>> {
    def.input@.map_values(|s: String| s@)
}

/// Whether `node` is what the definition at position `i` builds, where the
/// builder gives `built` for it: its inputs name nodes that were defined
/// before it, and its operator is the one that was built.
pub open spec fn node_built<O>(
    defs: Seq<NodeDef>,
    built: Result<O, Error>,
    i: int,
    node: Node<O>,
) -> bool {
    &&& node.id == i
    &&& node.name@ == defs[i].name@
    &&& node.op_name@ == defs[i].op@
    &&& resolve_inputs(names_before(defs, i), input_texts(defs[i])) == Ok::<_, Error>(node.inputs@)
    &&& built == Ok::<_, Error>(node.op)
}

/// Why the definition at position `i` builds no node, if it builds none,
/// where the builder gives `built` for it: the error of its first input that
/// names no node, or else the error of the builder.
pub open spec fn node_error<O>(defs: Seq<NodeDef>, built: Result<O, Error>, i: int) -> Option<
    Error,
> {
    match resolve_inputs(names_before(defs, i), input_texts(defs[i])) {
        Err(e) => Some(e),
        Ok(_) => match built {
            Err(e) => Some(e),
            Ok(_) => None,
        },
    }
}

/// The last node of a list that has this name.
fn find_node<O>(nodes: &Vec<Node<O>>, name: &String) -> (r: Option<usize>)
    ensures
        match r {
            Some(i) => find_last(names_of(nodes@), name@) == Some(i as int) && i < nodes@.len(),
            None => find_last(names_of(nodes@), name@) is None,
        },
{
    let ghost names = names_of(nodes@);
    let mut i: usize = nodes.len();
    assert(names.take(i as int) =~= names);
    while i > 0
        invariant
            0 <= i <= nodes@.len(),
            names == names_of(nodes@),
            find_last(names, name@) == find_last(names.take(i as int), name@),
        decreases i,
    {
        i -= 1;
        assert(names.take(i + 1).drop_last() =~= names.take(i as int));
        if nodes[i].name == *name {
            return Some(i);
        }
    }
    None
}

/// The inputs that the strings of a node definition name among `nodes`.
fn resolve<O>(nodes: &Vec<Node<O>>, inputs: &Vec<String>) -> (r: Result<Vec<(usize, Option<usize>)>, Error>)
    ensures
        match r {
            Ok(v) => resolve_inputs(names_of(nodes@), inputs@.map_values(|s: String| s@)) == Ok::<
                _,
                Error,
            >(v@),
            Err(e) => resolve_inputs(names_of(nodes@), inputs@.map_values(|s: String| s@)) == Err::<
                Seq<(usize, Option<usize>)>,
                _,
            >(e),
        },
{
    let ghost texts = inputs@.map_values(|s: String| s@);
    let mut out: Vec<(usize, Option<usize>)> = Vec::new();
    let mut i: usize = 0;
    assert(texts.take(0) =~= Seq::<Seq<char>>::empty());
    while i < inputs.len()
        invariant
            0 <= i <= inputs@.len(),
            texts == inputs@.map_values(|s: String| s@),
            resolve_inputs(names_of(nodes@), texts.take(i as int)) == Ok::<_, Error>(out@),
        decreases inputs@.len() - i,
    {
        assert(texts.take(i + 1).drop_last() =~= texts.take(i as int));
        assert(texts.take(i + 1).last() == inputs@[i as int]@);
        let (name, output) = split_input(inputs[i].as_str());
        let input = match (find_node(nodes, &name), output) {
            (None, _) => Err(Error::UnknownNode),
            (Some(id), None) => Err(Error::InvalidInput),
            (Some(id), Some(k)) => Ok((id, k)),
        };
        match input {
            Ok(x) => {
                out.push(x);
            },
            Err(e) => {
                proof {
                    lemma_resolve_fails(names_of(nodes@), texts, i + 1);
                }
                return Err(e);
            },
        }
        i += 1;
    }
    assert(texts.take(inputs@.len() as int) =~= texts);
    Ok(out)
}

/// Where a prefix of a list of inputs fails to resolve, the whole list fails with the same error.
pub proof fn lemma_resolve_fails(names: Seq<Seq<char>>, inputs: Seq<Seq<char>>, i: int)
    requires
        0 <= i <= inputs.len(),
        resolve_inputs(names, inputs.take(i)) is Err,
    ensures
        resolve_inputs(names, inputs) == resolve_inputs(names, inputs.take(i)),
    decreases inputs.len(),
{
    if i == inputs.len() {
        assert(inputs.take(i) =~= inputs);
    } else {
        assert(inputs.drop_last().take(i) =~= inputs.take(i));
        lemma_resolve_fails(names, inputs.drop_last(), i);
    }
}

impl<O: Op> Node<O> {
    /// The operator of the node.
    pub fn op(&self) -> (r: &O)
        ensures
            *r == self.op,
    {
        &self.op
    }
}

impl<O: Op> Model<O> {
    /// Builds the model of a graph definition: one node for each node
    /// definition, in their order. An input may only name a node that was
    /// defined before the node that holds it. The first definition that
    /// builds no node gives the error.
    pub fn new<B: OpBuilder<O>>(graph: &GraphDef, builder: &B) -> (r: Result<Model<O>, Error>)
        ensures
            match r {
                Ok(m) => m.nodes@.len() == graph.node@.len() && forall|i: int|
                    0 <= i < graph.node@.len() ==> node_built(
                        graph.node@,
                        builder.build_spec(graph.node@[i]),
                        i,
                        #[trigger] m.nodes@[i],
                    ),
                Err(e) => exists|i: int|
                    0 <= i < graph.node@.len() && #[trigger] node_error(
                        graph.node@,
                        builder.build_spec(graph.node@[i]),
                        i,
                    ) == Some(e) && forall|j: int|
                        0 <= j < i ==> (#[trigger] node_error(
                            graph.node@,
                            builder.build_spec(graph.node@[j]),
                            j,
                        )) is None,
            },
    {
        let mut nodes: Vec<Node<O>> = Vec::new();
        let mut i: usize = 0;
        while i < graph.node.len()
            invariant
                0 <= i <= graph.node@.len(),
                nodes@.len() == i,
                forall|j: int|
                    0 <= j < i ==> node_built(
                        graph.node@,
                        builder.build_spec(graph.node@[j]),
                        j,
                        #[trigger] nodes@[j],
                    ),
            decreases graph.node@.len() - i,
        {
            let pbnode = &graph.node[i];
            assert(names_of(nodes@) =~= names_before(graph.node@, i as int));
            assert(pbnode.input@.map_values(|s: String| s@) =~= input_texts(graph.node@[i as int]));
            proof {
                assert forall|j: int| 0 <= j < i implies (#[trigger] node_error(
                    graph.node@,
                    builder.build_spec(graph.node@[j]),
                    j,
                )) is None by {
                    assert(node_built(
                        graph.node@,
                        builder.build_spec(graph.node@[j]),
                        j,
                        nodes@[j],
                    ));
                }
            }
            let inputs = match resolve(&nodes, &pbnode.input) {
                Ok(v) => v,
                Err(e) => {
                    assert(node_error(
                        graph.node@,
                        builder.build_spec(graph.node@[i as int]),
                        i as int,
                    ) == Some(e));
                    return Err(e);
                },
            };
            let op = match builder.build(pbnode) {
                Ok(op) => op,
                Err(e) => {
                    assert(node_error(
                        graph.node@,
                        builder.build_spec(graph.node@[i as int]),
                        i as int,
                    ) == Some(e));
                    return Err(e);
                },
            };
            let node = Node {
                id: i,
                name: pbnode.name.clone(),
                op_name: pbnode.op.clone(),
                inputs,
                op,
            };
            assert(node_built(
                graph.node@,
                builder.build_spec(graph.node@[i as int]),
                i as int,
                node,
            ));
            nodes.push(node);
            i += 1;
        }
        Ok(Model { nodes })
    }

    /// The id of the node with this name: of the last one, where several
    /// nodes have it. `UnknownNode` where none has it.
    pub fn node_id_by_name(&self, name: &str) -> (r: Result<usize, Error>)
        ensures
            match r {
                Ok(id) => find_last(names_of(self.nodes@), name@) == Some(id as int) && id
                    < self.nodes@.len(),
                Err(e) => e == Error::UnknownNode && find_last(names_of(self.nodes@), name@)
                    is None,
            },
    {
        match find_node(&self.nodes, &String::from_str(name)) {
            Some(id) => Ok(id),
            None => Err(Error::UnknownNode),
        }
    }

    /// The names of the nodes, in the order of their ids.
    pub fn node_names(&self) -> (r: Vec<&str>)
        ensures
            r@.len() == self.nodes@.len(),
            forall|i: int| 0 <= i < r@.len() ==> r@[i]@ == self.nodes@[i].name@,
    {
        let mut out: Vec<&str> = Vec::new();
        let mut i: usize = 0;
        while i < self.nodes.len()
            invariant
                0 <= i <= self.nodes@.len(),
                out@.len() == i,
                forall|j: int| 0 <= j < i ==> out@[j]@ == self.nodes@[j].name@,
            decreases self.nodes@.len() - i,
        {
            out.push(self.nodes[i].name.as_str());
            i += 1;
        }
        out
    }

    /// The node with this name: the last one, where several nodes have it.
    pub fn get_node(&self, name: &str) -> (r: Result<&Node<O>, Error>)
        ensures
            match r {
                Ok(node) => exists|id: int|
                    find_last(names_of(self.nodes@), name@) == Some(id) && *node
                        == #[trigger] self.nodes@[id],
                Err(e) => e == Error::UnknownNode && find_last(names_of(self.nodes@), name@)
                    is None,
            },
    {
        match self.node_id_by_name(name) {
            Ok(id) => Ok(&self.nodes[id]),
            Err(e) => Err(e),
        }
    }

    /// The node with this id, or `InvalidNode` where the model has none.
    pub fn get_node_by_id(&self, id: usize) -> (r: Result<&Node<O>, Error>)
        ensures
            match r {
                Ok(node) => id < self.nodes@.len() && *node == self.nodes@[id as int],
                Err(e) => e == Error::InvalidNode(id) && id >= self.nodes@.len(),
            },
    {
        if id >= self.nodes.len() {
            Err(Error::InvalidNode(id))
        } else {
            Ok(&self.nodes[id])
        }
    }

    /// The nodes of the model.
    pub fn nodes(&self) -> (r: &[Node<O>])
        ensures
            r@ == self.nodes@,
    {
        self.nodes.as_slice()
    }
}

/// The lines of the nodes that `inputs` name, each followed by the lines of
/// its own inputs with a longer indent. An input counts only where it names a
/// node with an id below `bound`; below a node the bound is the node's id.
pub open spec fn dump_inputs<O>(
    nodes: Seq<Node<O>>,
    inputs: Seq<(usize, Option<usize>)>,
    pad: Seq<char>,
    bound: nat,
) -> Seq<char>
    decreases bound, inputs.len(),
{
    if inputs.len() == 0 {
        Seq::empty()
    } else {
        let p = inputs.last().0;
        dump_inputs(nodes, inputs.drop_last(), pad, bound) + if p < bound && p < nodes.len() {
            pad + nodes[p as int].name@ + seq!['\n'] + dump_inputs(
                nodes,
                nodes[p as int].inputs@,
                pad + seq![' ', ' '],
                p as nat,
            )
        } else {
            Seq::empty()
        }
    }
}

impl<O: Op> Node<O> {
    /// The node's name on a line, and below it, indented by two more spaces
    /// at each level, the nodes that produce its inputs, each with its own.
    pub fn dump_eval_tree(&self, model: &Model<O>) -> (r: String)
        ensures
            r@ == self.name@ + seq!['\n'] + dump_inputs(
                model.nodes@,
                self.inputs@,
                seq![' ', ' '],
                model.nodes@.len(),
            ),
    {
        let mut out = String::new();
        let pad = String::new();
        self._dump_eval_tree(model, &pad, model.nodes.len(), &mut out);
        assert(out@ =~= self.name@ + seq!['\n'] + dump_inputs(
            model.nodes@,
            self.inputs@,
            seq![' ', ' '],
            model.nodes@.len(),
        ));
        out
    }

    /// Appends to `out` the node's line, indented by `pad`, and the lines of
    /// its inputs that name nodes below `bound`.
    fn _dump_eval_tree(&self, model: &Model<O>, pad: &String, bound: usize, out: &mut String)
        ensures
            final(out)@ == old(out)@ + (pad@ + self.name@ + seq!['\n'] + dump_inputs(
                model.nodes@,
                self.inputs@,
                pad@ + seq![' ', ' '],
                bound as nat,
            )),
        decreases bound,
    {
        proof {
            reveal_strlit("\n");
            reveal_strlit("  ");
        }
        out.append(pad.as_str());
        out.append(self.name.as_str());
        out.append("\n");
        let deeper = pad.clone().concat("  ");
        assert("\n"@ =~= seq!['\n']);
        assert(deeper@ =~= pad@ + seq![' ', ' ']);
        let ghost line = old(out)@ + (pad@ + self.name@ + seq!['\n']);
        assert(out@ =~= line);
        let mut i: usize = 0;
        assert(self.inputs@.take(0) =~= Seq::<(usize, Option<usize>)>::empty());
        assert(out@ =~= line + Seq::<char>::empty());
        while i < self.inputs.len()
            invariant
                0 <= i <= self.inputs@.len(),
                deeper@ == pad@ + seq![' ', ' '],
                out@ == line + dump_inputs(
                    model.nodes@,
                    self.inputs@.take(i as int),
                    deeper@,
                    bound as nat,
                ),
            decreases self.inputs@.len() - i,
        {
            let p = self.inputs[i].0;
            let ghost head = dump_inputs(
                model.nodes@,
                self.inputs@.take(i as int),
                deeper@,
                bound as nat,
            );
            proof {
                assert(self.inputs@.take(i + 1).drop_last() =~= self.inputs@.take(i as int));
                assert(self.inputs@.take(i + 1).last().0 == p);
            }
            if p < bound && p < model.nodes.len() {
                let node = &model.nodes[p];
                node._dump_eval_tree(model, &deeper, p, out);
                assert(out@ =~= line + (head + (deeper@ + node.name@ + seq!['\n'] + dump_inputs(
                    model.nodes@,
                    node.inputs@,
                    deeper@ + seq![' ', ' '],
                    p as nat,
                ))));
            } else {
                assert(out@ =~= line + (head + Seq::<char>::empty()));
            }
            i += 1;
        }
        assert(self.inputs@.take(self.inputs@.len() as int) =~= self.inputs@);
        assert(out@ =~= old(out)@ + (pad@ + self.name@ + seq!['\n'] + dump_inputs(
            model.nodes@,
            self.inputs@,
            pad@ + seq![' ', ' '],
            bound as nat,
        )));
    }

    /// An order in which the node can be evaluated: a plan for it.
    pub fn eval_order(&self, model: &Model<O>) -> (r: Result<Vec<usize>, Error>)
        ensures
            planned(
                model.nodes@,
                seq![self.id],
                match r {
                    Ok(order) => Ok(Plan { order }),
                    Err(e) => Err(e),
                },
            ),
    {
        let mut targets: Vec<usize> = Vec::new();
        targets.push(self.id);
        assert(targets@ =~= seq![self.id]);
        match Plan::for_model(model, targets.as_slice()) {
            Ok(plan) => Ok(plan.order),
            Err(e) => Err(e),
        }
    }
}

impl<O: Op> Model<O> {
    /// The state of an execution of the model in which no node has produced anything.
    pub fn state(&self) -> (r: ModelState<'_, O>)
        ensures
            r.graph() == *self,
            r.slots() == Seq::new(self.nodes@.len(), |i: int| None::<Seq<TensorModel>>),
    {
        ModelState::new(self)
    }

    /// A plan for the node `node`.
    pub fn plan_for_one(&self, node: usize) -> (r: Result<Plan, Error>)
        ensures
            planned(self.nodes@, seq![node], r),
    {
        let mut targets: Vec<usize> = Vec::new();
        targets.push(node);
        assert(targets@ =~= seq![node]);
        Plan::for_model(self, targets.as_slice())
    }

    /// Runs the model for the node `output` on `inputs`, from a state in
    /// which no node has produced anything.
    pub fn run(&self, inputs: Vec<(usize, Tensor)>, output: usize) -> (r: Result<Vec<Tensor>, Error>)
        ensures
            ran_somewhere(self.nodes@, fed(inputs@), output, outcome(r)),
    {
        let mut state = self.state();
        let r = state.run(inputs, output);
        assert(ran(self.nodes@, fed(inputs@), output, outcome(r), state.slots()));
        r
    }

    /// Runs the model for the node named `output` on inputs that are given
    /// by the names of their nodes. `UnknownNode` where a name is that of no node.
    pub fn run_with_names(&self, inputs: Vec<(&str, Tensor)>, output: &str) -> (r: Result<
        Vec<Tensor>,
        Error,
    >)
        ensures
            match named(names_of(self.nodes@), fed_by_name(inputs@)) {
                Err(e) => r == Err::<Vec<Tensor>, _>(e),
                Ok(pairs) => match find_last(names_of(self.nodes@), output@) {
                    None => r == Err::<Vec<Tensor>, _>(Error::UnknownNode),
                    Some(id) => ran_somewhere(self.nodes@, pairs, id as usize, outcome(r)),
                },
            },
    {
        let ghost names = names_of(self.nodes@);
        let ghost given = fed_by_name(inputs@);
        let mut pairs: Vec<(usize, Tensor)> = Vec::new();
        let mut i: usize = 0;
        assert(given.take(0) =~= Seq::<(Seq<char>, TensorModel)>::empty());
        assert(fed(pairs@) =~= Seq::<(usize, TensorModel)>::empty());
        while i < inputs.len()
            invariant
                0 <= i <= inputs@.len(),
                given == fed_by_name(inputs@),
                names == names_of(self.nodes@),
                named(names, given.take(i as int)) == Ok::<_, Error>(fed(pairs@)),
            decreases inputs@.len() - i,
        {
            proof {
                assert(given.take(i + 1).drop_last() =~= given.take(i as int));
                assert(given.take(i + 1).last() == (inputs@[i as int].0@, inputs@[i as int].1@));
            }
            let ghost before = pairs@;
            match self.node_id_by_name(inputs[i].0) {
                Ok(id) => {
                    pairs.push((id, inputs[i].1.duplicate()));
                    assert(fed(pairs@) =~= fed(before).push((id, inputs@[i as int].1@)));
                },
                Err(e) => {
                    proof {
                        lemma_named_fails(names, given, i + 1);
                    }
                    return Err(e);
                },
            }
            i += 1;
        }
        assert(given.take(inputs@.len() as int) =~= given);
        let id = match self.node_id_by_name(output) {
            Ok(id) => id,
            Err(e) => {
                return Err(e);
            },
        };
        let r = self.run(pairs, id);
        assert(named(names, given) == Ok::<_, Error>(fed(pairs@)));
        assert(find_last(names, output@) == Some(id as int));
        r
    }
}

} // verus!