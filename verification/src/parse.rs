//! The trusted boundary to the TOML parser.  The document text is parsed
//! once, by an outside crate, into a span-preserving value; that value is
//! carried over, node for node, into the crate's own [`SpanNode`] tree.
//! Everything downstream of this boundary is verified.

use vstd::prelude::*;
use vstd::string::StringSliceAdditionalSpecFns;
use toml_spanned_value::spanned_value::ValueKind;
use crate::span_tree::{SpanKind, SpanNode, SpanNodeV, wf_node};

verus! {

#[verifier::external_type_specification]
#[verifier::external_body]
#[verifier::reject_recursive_types(T)]
pub struct ExSpanned<T>(toml::Spanned<T>);

#[verifier::external_type_specification]
#[verifier::external_body]
pub struct ExValueKind(ValueKind);

/// The outcome of parsing a text as TOML: the span tree of the document,
/// or the parser's account of why the text is not TOML.  The outcome is a
/// function of the text alone.
pub uninterp spec fn toml_outcome_of(s: Seq<char>) -> Result<SpanNodeV, Seq<char>>;

/// The view of a parse outcome.
pub open spec fn outcome_view(r: Result<SpanNode, String>) -> Result<SpanNodeV, Seq<char>> {
    match r {
        Ok(n) => Ok(n@),
        Err(e) => Err(e@),
    }
}

/// Relies on `toml::from_str` with the span-preserving value type of
/// `toml_spanned_value`: the outcome is a function of the text alone, and
/// every recorded span is a byte range within the text.
#[verifier::external_body]
pub fn parse_toml(contents: &str) -> (r: Result<SpanNode, String>)
    ensures
        outcome_view(r) == toml_outcome_of(contents@),
        r is Ok ==> wf_node(r->Ok_0@, contents.spec_bytes().len()),
{
    match toml::from_str::<toml_spanned_value::SpannedValue>(contents) {
        Ok(v) => Ok(spanned_node(v)),
        Err(e) => Err(e.to_string()),
    }
}

/// The conversion half of [`parse_toml`]: relies on the accessors of
/// `toml::Spanned` to move each span and value, node for node, into the
/// crate's own tree.
#[verifier::external_body]
fn spanned_node(v: toml_spanned_value::SpannedValue) -> SpanNode {
    let (start, end) = (v.start(), v.end());
    let kind = match v.into_inner() {
        ValueKind::String(s) => SpanKind::Str(s),
        ValueKind::Integer(i) => SpanKind::Int(i),
        ValueKind::Float(_) => SpanKind::Float,
        ValueKind::Boolean(b) => SpanKind::Bool(b),
        ValueKind::Datetime(_) => SpanKind::Datetime,
        ValueKind::Array(a) => SpanKind::Arr(a.into_iter().map(spanned_node).collect()),
        ValueKind::Table(t) => SpanKind::Tab(
            t.into_iter().map(|(k, n)| (k.into_inner(), spanned_node(n))).collect(),
        ),
    };
    SpanNode { start, end, kind }
}

} // verus!
