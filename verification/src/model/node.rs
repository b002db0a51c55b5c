//! The tree of values a model is made of: null, booleans, integers, numbers
//! with a fraction, strings, byte strings, arrays and objects with ordered
//! properties, each node with the key it is filed under and the file it was
//! read from.
use vstd::prelude::*;
use crate::text::{signed_decimal, push_signed_decimal, push_str, str_equal};

verus! {

/// The kind of a value.
#[derive(Debug, Clone, Copy, PartialEq, Eq, Structural)]
pub enum Kind {
    Null,
    Boolean,
    Integer,
    Float,
    String,
    Binary,
    Array,
    Object,
}

impl Kind {
    /// The kind's name, as the model's messages show it.
    pub fn as_str(&self) -> (s: &'static str)
        ensures
            s@ == kind_name(*self),
    {
        match self {
            Kind::Null => "null",
            Kind::Boolean => "boolean",
            Kind::Integer => "integer",
            Kind::Float => "float",
            Kind::String => "string",
            Kind::Binary => "binary",
            Kind::Array => "array",
            Kind::Object => "object",
        }
    }
}

/// The name of a kind.
pub open spec fn kind_name(k: Kind) -> Seq<char> {
    match k {
        Kind::Null => "null"@,
        Kind::Boolean => "boolean"@,
        Kind::Integer => "integer"@,
        Kind::Float => "float"@,
        Kind::String => "string"@,
        Kind::Binary => "binary"@,
        Kind::Array => "array"@,
        Kind::Object => "object"@,
    }
}

/// A value of the model tree.
#[derive(Debug)]
pub enum Value {
    Null,
    Boolean(bool),
    Integer(i64),
    /// A number with a fraction, held as its decimal text and whether it is
    /// a normal number (neither zero, subnormal, infinite nor NaN).
    Float { text: String, normal: bool },
    String(String),
    Binary(Vec<u8>),
    Array(Vec<Node>),
    /// Properties in order.
    Object(Vec<(String, Node)>),
}

/// A node of the model tree: its value, the key it is filed under in its
/// parent, and the absolute path of the file it was read from and of that
/// file's directory (empty where it was not read from a file).
#[derive(Debug)]
pub struct Node {
    pub value: Value,
    pub key: String,
    pub file_path_abs: String,
    pub dir_abs: String,
}

/// A value, as mathematics sees it.
pub enum ValueV {
    Null,
    Boolean(bool),
    Integer(i64),
    Float { text: Seq<char>, normal: bool },
    String(Seq<char>),
    Binary(Seq<u8>),
    Array(Seq<NodeV>),
    Object(Seq<(Seq<char>, NodeV)>),
}

/// A node, as mathematics sees it.
pub struct NodeV {
    pub value: ValueV,
    pub key: Seq<char>,
    pub file_path_abs: Seq<char>,
    pub dir_abs: Seq<char>,
}

/// The view of a node.
pub open spec fn node_view(n: Node) -> NodeV
    decreases n, 0int,
{
    NodeV {
        value: match n.value {
            Value::Null => ValueV::Null,
            Value::Boolean(b) => ValueV::Boolean(b),
            Value::Integer(i) => ValueV::Integer(i),
            Value::Float { text, normal } => ValueV::Float { text: text@, normal },
            Value::String(s) => ValueV::String(s@),
            Value::Binary(b) => ValueV::Binary(b@),
            Value::Array(items) => ValueV::Array(nodes_view(items@, items@.len() as int)),
            Value::Object(props) => ValueV::Object(props_view(props@, props@.len() as int)),
        },
        key: n.key@,
        file_path_abs: n.file_path_abs@,
        dir_abs: n.dir_abs@,
    }
}

/// The views of the first `k` of `items`.
pub open spec fn nodes_view(items: Seq<Node>, k: int) -> Seq<NodeV>
    decreases items, k,
{
    if k <= 0 || k > items.len() {
        Seq::empty()
    } else {
        nodes_view(items, k - 1).push(node_view(items[k - 1]))
    }
}

/// The views of the first `k` of `props`.
pub open spec fn props_view(props: Seq<(String, Node)>, k: int) -> Seq<(Seq<char>, NodeV)>
    decreases props, k,
{
    if k <= 0 || k > props.len() {
        Seq::empty()
    } else {
        props_view(props, k - 1).push((props[k - 1].0@, node_view(props[k - 1].1)))
    }
}

impl View for Node {
    type V = NodeV;

    open spec fn view(&self) -> NodeV {
        node_view(*self)
    }
}

/// The view of `nodes_view` has one element per node, each the node's view.
pub proof fn lemma_nodes_view(items: Seq<Node>, k: int)
    requires
        0 <= k <= items.len(),
    ensures
        nodes_view(items, k).len() == k,
        forall|i: int| 0 <= i < k ==> #[trigger] nodes_view(items, k)[i] == node_view(items[i]),
    decreases k,
{
    if k > 0 {
        lemma_nodes_view(items, k - 1);
    }
}

/// The view of `props_view` has one element per property, each the key's
/// text and the node's view.
pub proof fn lemma_props_view(props: Seq<(String, Node)>, k: int)
    requires
        0 <= k <= props.len(),
    ensures
        props_view(props, k).len() == k,
        forall|i: int|
            0 <= i < k ==> #[trigger] props_view(props, k)[i] == (props[i].0@, node_view(props[i].1)),
    decreases k,
{
    if k > 0 {
        lemma_props_view(props, k - 1);
    }
}

/// The kind of a value.
pub open spec fn kind_of(n: NodeV) -> Kind {
    match n.value {
        ValueV::Null => Kind::Null,
        ValueV::Boolean(_) => Kind::Boolean,
        ValueV::Integer(_) => Kind::Integer,
        ValueV::Float { .. } => Kind::Float,
        ValueV::String(_) => Kind::String,
        ValueV::Binary(_) => Kind::Binary,
        ValueV::Array(_) => Kind::Array,
        ValueV::Object(_) => Kind::Object,
    }
}

/// The truth of a value: false for null, false, zero, numbers that are not
/// normal, and empty strings and byte strings; true otherwise.
pub open spec fn truth_of(n: NodeV) -> bool {
    match n.value {
        ValueV::Null => false,
        ValueV::Boolean(b) => b,
        ValueV::Integer(i) => i != 0,
        ValueV::Float { normal, .. } => normal,
        ValueV::String(s) => s.len() > 0,
        ValueV::Binary(b) => b.len() > 0,
        ValueV::Array(_) => true,
        ValueV::Object(_) => true,
    }
}

/// The text of a value: `null`, `true`/`false`, the decimal number, the
/// number's text, the string itself, `[binary]`, the texts of an array's
/// elements separated by commas, or `[object]`.
pub open spec fn text_of(n: NodeV) -> Seq<char>
    decreases n, 0int,
{
    match n.value {
        ValueV::Null => "null"@,
        ValueV::Boolean(b) => if b { "true"@ } else { "false"@ },
        ValueV::Integer(i) => signed_decimal(i as int),
        ValueV::Float { text, .. } => text,
        ValueV::String(s) => s,
        ValueV::Binary(_) => "[binary]"@,
        ValueV::Array(items) => texts_joined(items, items.len() as int),
        ValueV::Object(_) => "[object]"@,
    }
}

/// The texts of the first `k` of `items`, separated by commas.
pub open spec fn texts_joined(items: Seq<NodeV>, k: int) -> Seq<char>
    decreases items, k,
{
    if k <= 0 || k > items.len() {
        Seq::empty()
    } else if k == 1 {
        text_of(items[0])
    } else {
        texts_joined(items, k - 1) + ","@ + text_of(items[k - 1])
    }
}

/// The index of the first property named `key`, if any.
pub open spec fn prop_index(props: Seq<(Seq<char>, NodeV)>, key: Seq<char>) -> Option<int>
    decreases props.len(),
{
    if props.len() == 0 {
        None
    } else if props.last().0 == key {
        match prop_index(props.drop_last(), key) {
            Some(i) => Some(i),
            None => Some(props.len() - 1),
        }
    } else {
        prop_index(props.drop_last(), key)
    }
}

/// The value of property `key` of a value: none where the value is no
/// object or has no such property; the first where several are so named.
pub open spec fn child_of(n: NodeV, key: Seq<char>) -> Option<NodeV> {
    match n.value {
        ValueV::Object(props) => match prop_index(props, key) {
            Some(i) => Some(props[i].1),
            None => None,
        },
        _ => None,
    }
}

/// What `prop_index` finds is a property so named, and none before it is.
pub proof fn lemma_prop_index(props: Seq<(Seq<char>, NodeV)>, key: Seq<char>)
    ensures
        match prop_index(props, key) {
            Some(i) => 0 <= i < props.len() && props[i].0 == key && forall|j: int|
                0 <= j < i ==> #[trigger] props[j].0 != key,
            None => forall|j: int| 0 <= j < props.len() ==> #[trigger] props[j].0 != key,
        },
    decreases props.len(),
{
    if props.len() > 0 {
        lemma_prop_index(props.drop_last(), key);
        match prop_index(props.drop_last(), key) {
            Some(i) => {
                assert forall|j: int| 0 <= j < i implies #[trigger] props[j].0 != key by {
                    assert(props.drop_last()[j] == props[j]);
                }
            },
            None => {
                assert forall|j: int| 0 <= j < props.len() - 1 implies #[trigger] props[j].0 != key by {
                    assert(props.drop_last()[j] == props[j]);
                }
            },
        }
    }
}

/// The text of property `a` where it is present and true, else of property
/// `b` where present, else nothing: what the expression `a or b` gives.
pub open spec fn first_true_text(n: NodeV, a: Seq<char>, b: Seq<char>) -> Seq<char> {
    match child_of(n, a) {
        Some(x) if truth_of(x) => text_of(x),
        _ => match child_of(n, b) {
            Some(y) => text_of(y),
            None => Seq::empty(),
        },
    }
}

/// The text of property `a` where present, else nothing.
pub open spec fn prop_text(n: NodeV, a: Seq<char>) -> Seq<char> {
    match child_of(n, a) {
        Some(x) => text_of(x),
        None => Seq::empty(),
    }
}

impl Node {
    /// A node holding `value`, with no key and read from no file.
    pub fn new(value: Value) -> (n: Node)
        ensures
            n.value == value,
            n.key@ == Seq::<char>::empty(),
            n.file_path_abs@ == Seq::<char>::empty(),
            n.dir_abs@ == Seq::<char>::empty(),
    {
        Node { value, key: String::new(), file_path_abs: String::new(), dir_abs: String::new() }
    }

    /// A copy of this node and everything under it.
    pub fn deep_copy(&self) -> (r: Node)
        ensures
            r@ == self@,
        decreases self,
    {
        let value = match &self.value {
            Value::Null => Value::Null,
            Value::Boolean(b) => Value::Boolean(*b),
            Value::Integer(i) => Value::Integer(*i),
            Value::Float { text, normal } => Value::Float { text: text.clone(), normal: *normal },
            Value::String(s) => Value::String(s.clone()),
            Value::Binary(b) => Value::Binary(b.clone()),
            Value::Array(items) => {
                proof {
                    lemma_nodes_view(items@, items@.len() as int);
                    assert forall|j: int| 0 <= j < items@.len() implies decreases_to!(*self => #[trigger] items@[j]) by {
                        assert(decreases_to!(*self => self.value));
                        assert(decreases_to!(self.value => self.value->Array_0));
                        assert(decreases_to!(*items => items[j]));
                    }
                }
                let mut copies: Vec<Node> = Vec::new();
                let mut k: usize = 0;
                while k < items.len()
                    invariant
                        k <= items@.len(),
                        copies@.len() == k,
                        forall|j: int| 0 <= j < k ==> #[trigger] copies@[j]@ == items@[j]@,
                        forall|j: int| 0 <= j < items@.len() ==> decreases_to!(*self => #[trigger] items@[j]),
                    decreases items@.len() - k,
                {
                    let c = items[k].deep_copy();
                    copies.push(c);
                    k = k + 1;
                }
                proof {
                    lemma_nodes_view(copies@, copies@.len() as int);
                    lemma_nodes_view(items@, items@.len() as int);
                    assert forall|j: int| 0 <= j < items@.len() implies #[trigger] nodes_view(copies@, copies@.len() as int)[j]
                        == nodes_view(items@, items@.len() as int)[j] by {
                        assert(copies@[j]@ == items@[j]@);
                    }
                    assert(nodes_view(copies@, copies@.len() as int) =~= nodes_view(items@, items@.len() as int));
                }
                Value::Array(copies)
            },
            Value::Object(props) => {
                proof {
                    lemma_props_view(props@, props@.len() as int);
                    assert forall|j: int| 0 <= j < props@.len() implies decreases_to!(*self => #[trigger] props@[j].1) by {
                        assert(decreases_to!(*self => self.value));
                        assert(decreases_to!(self.value => self.value->Object_0));
                        assert(decreases_to!(*props => props[j]));
                        assert(decreases_to!(props[j] => props[j].1));
                    }
                }
                let mut copies: Vec<(String, Node)> = Vec::new();
                let mut k: usize = 0;
                while k < props.len()
                    invariant
                        k <= props@.len(),
                        copies@.len() == k,
                        forall|j: int| 0 <= j < k ==> #[trigger] copies@[j].0@ == props@[j].0@ && copies@[j].1@ == props@[j].1@,
                        forall|j: int| 0 <= j < props@.len() ==> decreases_to!(*self => #[trigger] props@[j].1),
                    decreases props@.len() - k,
                {
                    let c = props[k].1.deep_copy();
                    let name = props[k].0.clone();
                    copies.push((name, c));
                    k = k + 1;
                }
                proof {
                    lemma_props_view(copies@, copies@.len() as int);
                    assert(props_view(copies@, copies@.len() as int) =~= props_view(props@, props@.len() as int));
                }
                Value::Object(copies)
            },
        };
        Node {
            value,
            key: self.key.clone(),
            file_path_abs: self.file_path_abs.clone(),
            dir_abs: self.dir_abs.clone(),
        }
    }

    /// The kind of this node's value.
    pub fn kind(&self) -> (k: Kind)
        ensures
            k == kind_of(self@),
    {
        match &self.value {
            Value::Null => Kind::Null,
            Value::Boolean(_) => Kind::Boolean,
            Value::Integer(_) => Kind::Integer,
            Value::Float { .. } => Kind::Float,
            Value::String(_) => Kind::String,
            Value::Binary(_) => Kind::Binary,
            Value::Array(_) => Kind::Array,
            Value::Object(_) => Kind::Object,
        }
    }

    /// The truth of this node's value.
    pub fn as_boolean(&self) -> (b: bool)
        ensures
            b == truth_of(self@),
    {
        match &self.value {
            Value::Null => false,
            Value::Boolean(b) => *b,
            Value::Integer(i) => *i != 0,
            Value::Float { normal, .. } => *normal,
            Value::String(s) => !s.as_str().is_empty(),
            Value::Binary(b) => b.len() > 0,
            Value::Array(_) => true,
            Value::Object(_) => true,
        }
    }

    /// Appends the text of this node's value to `out`.
    pub fn push_text(&self, out: &mut String)
        ensures
            final(out)@ == old(out)@ + text_of(self@),
        decreases self,
    {
        match &self.value {
            Value::Null => push_str(out, "null"),
            Value::Boolean(b) => {
                if *b {
                    push_str(out, "true")
                } else {
                    push_str(out, "false")
                }
            },
            Value::Integer(i) => push_signed_decimal(out, *i),
            Value::Float { text, .. } => push_str(out, text.as_str()),
            Value::String(s) => push_str(out, s.as_str()),
            Value::Binary(_) => push_str(out, "[binary]"),
            Value::Array(items) => {
                let ghost vs = nodes_view(items@, items@.len() as int);
                proof {
                    lemma_nodes_view(items@, items@.len() as int);
                    assert forall|j: int| 0 <= j < items@.len() implies decreases_to!(*self => #[trigger] items@[j]) by {
                        assert(decreases_to!(*self => self.value));
                        assert(decreases_to!(self.value => self.value->Array_0));
                        assert(decreases_to!(*items => items[j]));
                    }
                }
                let mut k: usize = 0;
                while k < items.len()
                    invariant
                        k <= items@.len(),
                        vs == nodes_view(items@, items@.len() as int),
                        vs.len() == items@.len(),
                        forall|j: int| 0 <= j < items@.len() ==> #[trigger] vs[j] == node_view(items@[j]),
                        forall|j: int| 0 <= j < items@.len() ==> decreases_to!(*self => #[trigger] items@[j]),
                        out@ == old(out)@ + texts_joined(vs, k as int),
                    decreases items@.len() - k,
                {
                    if k > 0 {
                        push_str(out, ",");
                    }
                    items[k].push_text(out);
                    assert(vs[k as int] == items@[k as int]@);
                    k = k + 1;
                }
            },
            Value::Object(_) => push_str(out, "[object]"),
        }
    }

    /// The text of this node's value.
    pub fn as_string(&self) -> (s: String)
        ensures
            s@ == text_of(self@),
    {
        let mut s = String::new();
        self.push_text(&mut s);
        s
    }

    /// The value of property `key`, the first one so named, where this is
    /// an object.
    pub fn get_child_key(&self, key: &str) -> (c: Option<&Node>)
        ensures
            c matches Some(x) ==> child_of(self@, key@) == Some(x@),
            c is None ==> child_of(self@, key@) is None,
    {
        match &self.value {
            Value::Object(props) => {
                let ghost pv = props_view(props@, props@.len() as int);
                proof {
                    lemma_props_view(props@, props@.len() as int);
                    lemma_prop_index(pv, key@);
                }
                let mut i: usize = 0;
                while i < props.len()
                    invariant
                        i <= props@.len(),
                        pv.len() == props@.len(),
                        forall|j: int| 0 <= j < props@.len() ==> #[trigger] pv[j] == (props@[j].0@, node_view(props@[j].1)),
                        forall|j: int| 0 <= j < i ==> #[trigger] pv[j].0 != key@,
                        child_of(self@, key@) == match prop_index(pv, key@) {
                            Some(i) => Some(pv[i].1),
                            None => None,
                        },
                        match prop_index(pv, key@) {
                            Some(i) => 0 <= i < pv.len() && pv[i].0 == key@ && forall|j: int|
                                0 <= j < i ==> #[trigger] pv[j].0 != key@,
                            None => forall|j: int| 0 <= j < pv.len() ==> #[trigger] pv[j].0 != key@,
                        },
                    decreases props@.len() - i,
                {
                    assert(pv[i as int] == (props@[i as int].0@, node_view(props@[i as int].1)));
                    if str_equal(props[i].0.as_str(), key) {
                        proof {
                            match prop_index(pv, key@) {
                                Some(i0) => {
                                    if i0 < i {
                                        assert(pv[i0].0 != key@);
                                    }
                                    if i0 > i {
                                        assert(pv[i as int].0 != key@);
                                    }
                                },
                                None => {
                                    assert(pv[i as int].0 != key@);
                                },
                            }
                        }
                        return Some(&props[i].1);
                    }
                    i = i + 1;
                }
                None
            },
            _ => None,
        }
    }
}

/// The text of property `a` where it is present and true, else of property
/// `b` where present, else the empty text.
pub fn first_true_prop_text(n: &Node, a: &str, b: &str) -> (s: String)
    ensures
        s@ == first_true_text(n@, a@, b@),
{
    match n.get_child_key(a) {
        Some(x) => {
            if x.as_boolean() {
                return x.as_string();
            }
        },
        None => {},
    }
    match n.get_child_key(b) {
        Some(y) => y.as_string(),
        None => String::new(),
    }
}

/// The text of property `a` where present, else the empty text.
pub fn prop_text_of(n: &Node, a: &str) -> (s: String)
    ensures
        s@ == prop_text(n@, a@),
{
    match n.get_child_key(a) {
        Some(x) => x.as_string(),
        None => String::new(),
    }
}

} // verus!
