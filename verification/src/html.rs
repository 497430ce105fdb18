//! A small builder for HTML elements with escaped attribute values.

use vstd::prelude::*;
use vstd::string::StringExecFns;

verus! {

/// What one character of a double-quoted attribute value becomes.
pub open spec fn escape_piece(c: char) -> Seq<char> {
    if c == '&' {
        "&amp;"@
    } else if c == '<' {
        "&lt;"@
    } else if c == '>' {
        "&gt;"@
    } else if c == '"' {
        "&quot;"@
    } else {
        seq![c]
    }
}

/// Text made safe for a double-quoted attribute: `&`, `<`, `>` and `"`
/// written as entities.
pub open spec fn escape_dq(s: Seq<char>) -> Seq<char>
    decreases s.len(),
{
    if s.len() == 0 {
        Seq::empty()
    } else {
        escape_piece(s[0]) + escape_dq(s.drop_first())
    }
}

/// Relies on `html_escape::encode_double_quoted_attribute`: the text with
/// exactly `&`, `<`, `>` and `"` written as entities.
#[verifier::external_body]
fn escape_attr(s: &str) -> (r: String)
    ensures
        r@ == escape_dq(s@),
{
    html_escape::encode_double_quoted_attribute(s).into_owned()
}

/// Builder for an HTML `div` element with attributes and data attributes.
pub struct HtmlElementBuilder {
    html: String,
}

impl View for HtmlElementBuilder {
    type V = Seq<char>;

    closed spec fn view(&self) -> Seq<char> {
        self.html@
    }
}

impl HtmlElementBuilder {
    /// An open `div` element.
    pub fn new() -> (r: HtmlElementBuilder)
        ensures
            r@ == "<div"@,
    {
        HtmlElementBuilder { html: String::from_str("<div") }
    }

    /// Adds an attribute; the value is escaped.
    pub fn attr(&mut self, key: &str, value: &str)
        ensures
            final(self)@ == old(self)@ + " "@ + key@ + "=\""@ + escape_dq(value@) + "\""@,
    {
        self.html.append(" ");
        self.html.append(key);
        self.html.append("=\"");
        let escaped = escape_attr(value);
        self.html.append(escaped.as_str());
        self.html.append("\"");
    }

    /// Adds a data attribute holding an already-serialized value; the
    /// value is escaped.
    pub fn data(&mut self, key: &str, value: &str)
        ensures
            final(self)@ == old(self)@ + " data-"@ + key@ + "=\""@ + escape_dq(value@) + "\""@,
    {
        self.html.append(" data-");
        self.html.append(key);
        self.html.append("=\"");
        let escaped = escape_attr(value);
        self.html.append(escaped.as_str());
        self.html.append("\"");
    }

    /// Finishes building and returns the element's HTML.
    pub fn finish(self) -> (r: String)
        ensures
            r@ == self@ + "></div>"@,
    {
        let mut html = self.html;
        html.append("></div>");
        html
    }
}

} // verus!
