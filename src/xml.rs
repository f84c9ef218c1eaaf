//! Structural events of a markup document, as handed over by a streaming
//! reader, and attribute lookup on them.

use vstd::prelude::*;
use crate::text::same_text;

verus! {

/// One `key="value"` attribute of an element.
pub struct Attribute {
    pub key: String,
    pub value: String,
}

/// An element's name and its attributes, in document order.
pub struct Element {
    pub name: String,
    pub attributes: Vec<Attribute>,
}

/// One structural event of a streamed markup document.
pub enum XmlEvent {
    /// An opening tag.
    Start(Element),
    /// A self-closing tag; no `End` follows it.
    Empty(Element),
    /// A closing tag, with the element's name.
    End(String),
    /// Character data.
    Text(String),
    /// A malformed piece that the reader skipped.
    Malformed,
    /// Anything else (declarations, comments, processing instructions).
    Other,
}

/// The value of the first attribute named `key`.
pub open spec fn attr_of(attrs: Seq<Attribute>, key: Seq<char>) -> Option<Seq<char>>
    decreases attrs.len(),
{
    if attrs.len() == 0 {
        None
    } else if attrs[0].key@ == key {
        Some(attrs[0].value@)
    } else {
        attr_of(attrs.drop_first(), key)
    }
}

/// The text of an optional value, or the empty text.
pub open spec fn or_empty(o: Option<Seq<char>>) -> Seq<char> {
    match o {
        Some(v) => v,
        None => Seq::empty(),
    }
}

pub open spec fn opt_view(o: Option<String>) -> Option<Seq<char>> {
    match o {
        Some(s) => Some(s@),
        None => None,
    }
}

/// The value of the first attribute of `e` named `key`.
pub fn attr_value(e: &Element, key: &str) -> (r: Option<String>)
    ensures
        opt_view(r) == attr_of(e.attributes@, key@),
{
    let n = e.attributes.len();
    let mut i: usize = 0;
    assert(e.attributes@.subrange(0, n as int) =~= e.attributes@);
    while i < n
        invariant
            n == e.attributes@.len(),
            i <= n,
            attr_of(e.attributes@, key@) == attr_of(e.attributes@.subrange(i as int, n as int), key@),
        decreases n - i,
    {
        proof {
            assert(e.attributes@.subrange(i as int, n as int).drop_first() =~= e.attributes@.subrange(
                i + 1,
                n as int,
            ));
        }
        let a = &e.attributes[i];
        if same_text(a.key.as_str(), key) {
            return Some(a.value.clone());
        }
        i = i + 1;
    }
    None
}

/// The text of an optional value, or the empty text.
pub fn text_or_empty(o: &Option<String>) -> (r: &str)
    ensures
        r@ == or_empty(opt_view(*o)),
{
    proof {
        reveal_strlit("");
    }
    match o {
        Some(s) => s.as_str(),
        None => "",
    }
}

/// The value of the first attribute of `e` named `key`, or the empty text.
pub fn attr_or_empty(e: &Element, key: &str) -> (r: String)
    ensures
        r@ == or_empty(attr_of(e.attributes@, key@)),
{
    match attr_value(e, key) {
        Some(v) => v,
        None => {
            proof {
                reveal_strlit("");
            }
            String::from_str("")
        },
    }
}

} // verus!
