//! A read-only tree mirroring the shape of the parsed document, every node
//! carrying the byte range it occupies in the original text.  Validators
//! resolve the location of a value through this tree by the same key path
//! they used to read the value from the typed model.

use vstd::prelude::*;
use crate::text::str_eq;

verus! {

/// A byte range into the original document text.
#[derive(Clone, Copy, PartialEq, Eq, Structural)]
pub struct Span {
    /// The first byte of the range.
    pub start: usize,
    /// One past the last byte of the range.
    pub end: usize,
}

/// What a node of the span tree holds.
pub enum SpanKind {
    /// A string value.
    Str(String),
    /// An integer value.
    Int(i64),
    /// A boolean value.
    Bool(bool),
    /// A floating-point value; only its location is kept.
    Float,
    /// A datetime value; only its location is kept.
    Datetime,
    /// An array of values.
    Arr(Vec<SpanNode>),
    /// A table: key-value pairs with distinct keys.
    Tab(Vec<(String, SpanNode)>),
}

/// A node of the span tree.
pub struct SpanNode {
    /// The first byte the value occupies in the document.
    pub start: usize,
    /// One past the last byte the value occupies.
    pub end: usize,
    /// The value itself.
    pub kind: SpanKind,
}

/// The view of [`SpanKind`].
#[verifier::ext_equal]
pub enum SpanKindV {
    Str(Seq<char>),
    Int(i64),
    Bool(bool),
    Float,
    Datetime,
    Arr(Seq<SpanNodeV>),
    Tab(Seq<(Seq<char>, SpanNodeV)>),
}

/// The view of [`SpanNode`].
#[verifier::ext_equal]
pub struct SpanNodeV {
    pub start: usize,
    pub end: usize,
    pub kind: SpanKindV,
}

/// The view of a span-tree node.
pub open spec fn node_view(n: SpanNode) -> SpanNodeV
    decreases n,
{
    SpanNodeV { start: n.start, end: n.end, kind: kind_view(n.kind) }
}

/// The view of what a node holds.
pub open spec fn kind_view(k: SpanKind) -> SpanKindV
    decreases k,
{
    match k {
        SpanKind::Str(s) => SpanKindV::Str(s@),
        SpanKind::Int(i) => SpanKindV::Int(i),
        SpanKind::Bool(b) => SpanKindV::Bool(b),
        SpanKind::Float => SpanKindV::Float,
        SpanKind::Datetime => SpanKindV::Datetime,
        SpanKind::Arr(cs) => SpanKindV::Arr(nodes_view(cs@)),
        SpanKind::Tab(ps) => SpanKindV::Tab(pairs_view(ps@)),
    }
}

/// The views of the elements of an array node.
pub open spec fn nodes_view(cs: Seq<SpanNode>) -> Seq<SpanNodeV>
    decreases cs,
{
    if cs.len() == 0 {
        Seq::empty()
    } else {
        seq![node_view(cs[0])] + nodes_view(cs.drop_first())
    }
}

/// The views of the pairs of a table node.
pub open spec fn pairs_view(ps: Seq<(String, SpanNode)>) -> Seq<(Seq<char>, SpanNodeV)>
    decreases ps,
{
    if ps.len() == 0 {
        Seq::empty()
    } else {
        seq![(ps[0].0@, node_view(ps[0].1))] + pairs_view(ps.drop_first())
    }
}

/// [`nodes_view`] maps the elements one for one.
pub proof fn lemma_nodes_view(cs: Seq<SpanNode>)
    ensures
        nodes_view(cs).len() == cs.len(),
        forall|i: int| 0 <= i < cs.len() ==> nodes_view(cs)[i] == node_view(cs[i]),
    decreases cs.len(),
{
    if cs.len() > 0 {
        lemma_nodes_view(cs.drop_first());
    }
}

/// [`pairs_view`] maps the pairs one for one.
pub proof fn lemma_pairs_view(ps: Seq<(String, SpanNode)>)
    ensures
        pairs_view(ps).len() == ps.len(),
        forall|i: int|
            0 <= i < ps.len() ==> pairs_view(ps)[i] == (ps[i].0@, node_view(ps[i].1)),
    decreases ps.len(),
{
    if ps.len() > 0 {
        lemma_pairs_view(ps.drop_first());
    }
}

impl View for SpanNode {
    type V = SpanNodeV;

    open spec fn view(&self) -> SpanNodeV {
        node_view(*self)
    }
}

impl SpanNodeV {
    /// The byte range of the node.
    pub open spec fn span(self) -> Span {
        Span { start: self.start, end: self.end }
    }
}

/// Every byte range of the tree lies within a document of `len` bytes.
pub open spec fn wf_node(n: SpanNodeV, len: nat) -> bool
    decreases n,
{
    &&& n.start <= n.end <= len
    &&& match n.kind {
        SpanKindV::Arr(cs) => forall|i: int| 0 <= i < cs.len() ==> wf_node(#[trigger] cs[i], len),
        SpanKindV::Tab(ps) => forall|i: int|
            0 <= i < ps.len() ==> wf_node(#[trigger] ps[i].1, len),
        _ => true,
    }
}

/// The value of the first pair of `ps` whose key is `key`.
pub open spec fn tab_lookup(ps: Seq<(Seq<char>, SpanNodeV)>, key: Seq<char>) -> Option<SpanNodeV>
    decreases ps.len(),
{
    if ps.len() == 0 {
        None
    } else if ps[0].0 == key {
        Some(ps[0].1)
    } else {
        tab_lookup(ps.drop_first(), key)
    }
}

/// If the first `i` keys differ from `key` and the key of pair `i` is
/// `key`, the lookup finds pair `i`.
pub proof fn lemma_tab_lookup_found(ps: Seq<(Seq<char>, SpanNodeV)>, key: Seq<char>, i: int)
    requires
        0 <= i < ps.len(),
        ps[i].0 == key,
        forall|j: int| 0 <= j < i ==> ps[j].0 != key,
    ensures
        tab_lookup(ps, key) == Some(ps[i].1),
    decreases i,
{
    if i > 0 {
        lemma_tab_lookup_found(ps.drop_first(), key, i - 1);
    }
}

/// If no key equals `key`, the lookup finds nothing.
pub proof fn lemma_tab_lookup_none(ps: Seq<(Seq<char>, SpanNodeV)>, key: Seq<char>)
    requires
        forall|j: int| 0 <= j < ps.len() ==> ps[j].0 != key,
    ensures
        tab_lookup(ps, key) is None,
    decreases ps.len(),
{
    if ps.len() > 0 {
        lemma_tab_lookup_none(ps.drop_first(), key);
    }
}

/// What a failed typed access expected to find.  Such a fault marks a
/// defect in the caller, not in the document: a document that matches the
/// quiz schema is only ever accessed at nodes of the right shape.
pub enum ShapeFault {
    /// The node is not a table.
    NotTable,
    /// The node is not an array.
    NotArray,
    /// The node is not a string.
    NotString,
    /// The node is not an integer.
    NotInteger,
    /// The node is not a boolean.
    NotBoolean,
    /// The table has no pair under the requested key.
    MissingField(String),
}

impl SpanNode {
    /// The byte range of this node.
    pub fn span(&self) -> (s: Span)
        ensures
            s == self@.span(),
    {
        Span { start: self.start, end: self.end }
    }

    /// The pairs of this node if it is a table.
    pub fn as_table(&self) -> (r: Result<&Vec<(String, SpanNode)>, ShapeFault>)
        ensures
            match r {
                Ok(ps) => self@.kind == SpanKindV::Tab(pairs_view(ps@)),
                Err(f) => !(self@.kind is Tab) && f is NotTable,
            },
    {
        match &self.kind {
            SpanKind::Tab(ps) => Ok(ps),
            _ => Err(ShapeFault::NotTable),
        }
    }

    /// The elements of this node if it is an array.
    pub fn as_array(&self) -> (r: Result<&Vec<SpanNode>, ShapeFault>)
        ensures
            match r {
                Ok(cs) => self@.kind == SpanKindV::Arr(nodes_view(cs@)),
                Err(f) => !(self@.kind is Arr) && f is NotArray,
            },
    {
        match &self.kind {
            SpanKind::Arr(cs) => Ok(cs),
            _ => Err(ShapeFault::NotArray),
        }
    }

    /// The string this node holds, if it is a string.
    pub fn as_str(&self) -> (r: Result<&String, ShapeFault>)
        ensures
            match r {
                Ok(s) => self@.kind == SpanKindV::Str(s@),
                Err(f) => !(self@.kind is Str) && f is NotString,
            },
    {
        match &self.kind {
            SpanKind::Str(s) => Ok(s),
            _ => Err(ShapeFault::NotString),
        }
    }

    /// The integer this node holds, if it is an integer.
    pub fn as_int(&self) -> (r: Result<i64, ShapeFault>)
        ensures
            match r {
                Ok(i) => self@.kind == SpanKindV::Int(i),
                Err(f) => !(self@.kind is Int) && f is NotInteger,
            },
    {
        match &self.kind {
            SpanKind::Int(i) => Ok(*i),
            _ => Err(ShapeFault::NotInteger),
        }
    }

    /// The boolean this node holds, if it is a boolean.
    pub fn as_bool(&self) -> (r: Result<bool, ShapeFault>)
        ensures
            match r {
                Ok(b) => self@.kind == SpanKindV::Bool(b),
                Err(f) => !(self@.kind is Bool) && f is NotBoolean,
            },
    {
        match &self.kind {
            SpanKind::Bool(b) => Ok(*b),
            _ => Err(ShapeFault::NotBoolean),
        }
    }

    /// The value under `key` if this node is a table holding that key.
    pub fn field(&self, key: &str) -> (r: Result<&SpanNode, ShapeFault>)
        ensures
            match r {
                Ok(n) => self@.kind is Tab && tab_lookup(self@.kind->Tab_0, key@) == Some(n@),
                Err(f) => match f {
                    ShapeFault::NotTable => !(self@.kind is Tab),
                    ShapeFault::MissingField(k) => k@ == key@ && self@.kind is Tab
                        && tab_lookup(self@.kind->Tab_0, key@) is None,
                    _ => false,
                },
            },
    {
        let ps = match &self.kind {
            SpanKind::Tab(ps) => ps,
            _ => {
                return Err(ShapeFault::NotTable);
            },
        };
        let ghost psv = self@.kind->Tab_0;
        proof {
            lemma_pairs_view(ps@);
        }
        let mut i: usize = 0;
        while i < ps.len()
            invariant
                i <= ps@.len(),
                psv == pairs_view(ps@),
                psv.len() == ps@.len(),
                forall|j: int| 0 <= j < psv.len() ==> psv[j] == (ps@[j].0@, node_view(ps@[j].1)),
                self@.kind == SpanKindV::Tab(psv),
                forall|j: int| 0 <= j < i ==> psv[j].0 != key@,
            decreases ps@.len() - i,
        {
            if str_eq(ps[i].0.as_str(), key) {
                proof {
                    lemma_tab_lookup_found(psv, key@, i as int);
                }
                return Ok(&ps[i].1);
            }
            i += 1;
        }
        proof {
            lemma_tab_lookup_none(psv, key@);
        }
        Err(ShapeFault::MissingField(key.to_owned()))
    }

    /// The value under `key`, if present in this table node.
    pub fn field_opt(&self, key: &str) -> (r: Result<Option<&SpanNode>, ShapeFault>)
        ensures
            match r {
                Ok(o) => self@.kind is Tab && match o {
                    Some(n) => tab_lookup(self@.kind->Tab_0, key@) == Some(n@),
                    None => tab_lookup(self@.kind->Tab_0, key@) is None,
                },
                Err(f) => !(self@.kind is Tab) && f is NotTable,
            },
    {
        if !matches!(&self.kind, SpanKind::Tab(_)) {
            return Err(ShapeFault::NotTable);
        }
        match self.field(key) {
            Ok(n) => Ok(Some(n)),
            Err(_) => Ok(None),
        }
    }
}

} // verus!
