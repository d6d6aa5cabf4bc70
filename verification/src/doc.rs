//! A structured document tree as the resolver reads it.
//!
//! Advisory payloads and lock manifests arrive as JSON or TOML documents.
//! The resolver only ever inspects strings, arrays and key/value tables, so
//! a document is held as a `DocValue`: any other scalar (a number, a
//! boolean, a null, a datetime) collapses to `DocValue::Scalar`. Every
//! accessor degrades to `None` instead of failing when a field is absent or
//! of an unexpected shape.

use vstd::prelude::*;

use crate::strutil::str_eq;

verus! {

pub enum DocValue {
    /// A string value.
    Text(String),
    /// An ordered list of values.
    Array(Vec<DocValue>),
    /// A table of key/value pairs, in document order.
    Object(Vec<(String, DocValue)>),
    /// Any other scalar; the resolver never reads one.
    Scalar,
}

/// The value under the first pair of `pairs` at or after `i` whose key is
/// `key`, if any.
pub open spec fn field_from(pairs: Seq<(String, DocValue)>, key: Seq<char>, i: int) -> Option<
    DocValue,
>
    decreases pairs.len() - i,
{
    if i < 0 || i >= pairs.len() {
        None
    } else if pairs[i].0@ == key {
        Some(pairs[i].1)
    } else {
        field_from(pairs, key, i + 1)
    }
}

impl DocValue {
    /// The value under `key` when `self` is an object holding that key.
    pub open spec fn spec_field(&self, key: Seq<char>) -> Option<DocValue> {
        match self {
            DocValue::Object(pairs) => field_from(pairs@, key, 0),
            _ => None,
        }
    }

    /// The characters of `self` when it is text.
    pub open spec fn spec_text(&self) -> Option<Seq<char>> {
        match self {
            DocValue::Text(s) => Some(s@),
            _ => None,
        }
    }

    /// The elements of `self` when it is an array.
    pub open spec fn spec_items(&self) -> Option<Seq<DocValue>> {
        match self {
            DocValue::Array(v) => Some(v@),
            _ => None,
        }
    }

    pub fn field<'a>(&'a self, key: &str) -> (r: Option<&'a DocValue>)
        ensures
            match r {
                Some(v) => self.spec_field(key@) == Some(*v),
                None => self.spec_field(key@) is None,
            },
    {
        match self {
            DocValue::Object(pairs) => {
                let n = pairs.len();
                let mut i: usize = 0;
                while i < n
                    invariant
                        n == pairs@.len(),
                        i <= n,
                        self.spec_field(key@) == field_from(pairs@, key@, i as int),
                    decreases n - i,
                {
                    let pair = &pairs[i];
                    if str_eq(pair.0.as_str(), key) {
                        proof {
                            assert(field_from(pairs@, key@, i as int) == Some(pairs@[i as int].1));
                        }
                        return Some(&pair.1);
                    }
                    i += 1;
                }
                None
            },
            _ => None,
        }
    }

    pub fn text(&self) -> (r: Option<&String>)
        ensures
            match r {
                Some(s) => self.spec_text() == Some(s@),
                None => self.spec_text() is None,
            },
    {
        match self {
            DocValue::Text(s) => Some(s),
            _ => None,
        }
    }

    pub fn items(&self) -> (r: Option<&Vec<DocValue>>)
        ensures
            match r {
                Some(v) => self.spec_items() == Some(v@),
                None => self.spec_items() is None,
            },
    {
        match self {
            DocValue::Array(v) => Some(v),
            _ => None,
        }
    }

    /// The text under `key`, or `dflt` when the field is absent or not text.
    pub open spec fn spec_text_field_or(&self, key: Seq<char>, dflt: Seq<char>) -> Seq<char> {
        match self.spec_field(key) {
            Some(v) => match v.spec_text() {
                Some(t) => t,
                None => dflt,
            },
            None => dflt,
        }
    }

    pub fn text_field_or(&self, key: &str, dflt: &str) -> (r: String)
        ensures
            r@ == self.spec_text_field_or(key@, dflt@),
    {
        match self.field(key) {
            Some(v) => match v.text() {
                Some(t) => t.clone(),
                None => dflt.to_owned(),
            },
            None => dflt.to_owned(),
        }
    }
}

/// The texts among `items` from index `i` on, in order; non-text elements
/// are passed over.
pub open spec fn texts_from(items: Seq<DocValue>, i: int) -> Seq<Seq<char>>
    decreases items.len() - i,
{
    if i < 0 || i >= items.len() {
        Seq::empty()
    } else {
        match items[i].spec_text() {
            Some(t) => seq![t] + texts_from(items, i + 1),
            None => texts_from(items, i + 1),
        }
    }
}

/// Collects the texts of an array of values, passing over the rest.
pub fn collect_texts(items: &Vec<DocValue>) -> (r: Vec<String>)
    ensures
        r.deep_view() == texts_from(items@, 0),
{
    let n = items.len();
    let mut r: Vec<String> = Vec::new();
    let mut i: usize = 0;
    while i < n
        invariant
            n == items@.len(),
            i <= n,
            r.deep_view() + texts_from(items@, i as int) == texts_from(items@, 0),
        decreases n - i,
    {
        match items[i].text() {
            Some(t) => {
                let t = t.clone();
                r.push(t);
                proof {
                    assert(r.deep_view() + texts_from(items@, i + 1) =~= texts_from(items@, 0));
                }
            },
            None => {},
        }
        i += 1;
    }
    proof {
        assert(r.deep_view() =~= texts_from(items@, 0));
    }
    r
}

} // verus!
