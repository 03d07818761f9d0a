//! The values of a TOML document, as far as a manifest is read.

use vstd::prelude::*;
use crate::text::same_text;
use crate::workspace_dependency::{Error, ErrorView};

verus! {

/// One value of a TOML document.
#[derive(Debug, PartialEq)]
pub enum Toml {
    String(String),
    Integer(i64),
    /// A float, held as its IEEE 754 bits.
    Float(u64),
    Boolean(bool),
    /// A date-time, held as its TOML text.
    Datetime(String),
    Array(Vec<Toml>),
    /// A table: its keys, each with its value. Where a key stands twice, the
    /// later entry is the one that counts.
    Table(Vec<(String, Toml)>),
}

/// What a [`Toml`] holds.
pub enum TomlView {
    String(Seq<char>),
    Integer(i64),
    Float(u64),
    Boolean(bool),
    Datetime(Seq<char>),
    Array(Seq<TomlView>),
    Table(Seq<(Seq<char>, TomlView)>),
}

/// The value that a table's entries give to `key`: that of the last entry
/// with this key.
pub open spec fn lookup(entries: Seq<(Seq<char>, TomlView)>, key: Seq<char>) -> Option<TomlView>
    decreases entries.len(),
{
    if entries.len() == 0 {
        None
    } else if entries.last().0 == key {
        Some(entries.last().1)
    } else {
        lookup(entries.drop_last(), key)
    }
}

impl TomlView {
    /// The value under `key`, where `self` is a table that has the key.
    pub open spec fn get(self, key: Seq<char>) -> Option<TomlView> {
        match self {
            TomlView::Table(entries) => lookup(entries, key),
            _ => None,
        }
    }

    /// The string under `key`, where `self` is a table that holds one there.
    pub open spec fn get_string(self, key: Seq<char>) -> Option<Seq<char>> {
        match self.get(key) {
            Some(TomlView::String(s)) => Some(s),
            _ => None,
        }
    }
}

/// What `value` holds, entry by entry.
pub open spec fn contents(value: Toml) -> TomlView
    decreases value,
{
    match value {
        Toml::String(s) => TomlView::String(s@),
        Toml::Integer(n) => TomlView::Integer(n),
        Toml::Float(bits) => TomlView::Float(bits),
        Toml::Boolean(b) => TomlView::Boolean(b),
        Toml::Datetime(s) => TomlView::Datetime(s@),
        Toml::Array(items) => TomlView::Array(
            Seq::new(
                items@.len(),
                |i: int|
                    if 0 <= i < items@.len() {
                        contents(items@[i])
                    } else {
                        TomlView::Boolean(false)
                    },
            ),
        ),
        Toml::Table(entries) => TomlView::Table(
            Seq::new(
                entries@.len(),
                |i: int|
                    if 0 <= i < entries@.len() {
                        (entries@[i].0@, contents(entries@[i].1))
                    } else {
                        (Seq::empty(), TomlView::Boolean(false))
                    },
            ),
        ),
    }
}

impl View for Toml {
    type V = TomlView;

    open spec fn view(&self) -> TomlView {
        contents(*self)
    }
}

impl Clone for Toml {
    fn clone(&self) -> (r: Self)
        ensures
            r@ == self@,
        decreases self,
    {
        match self {
            Toml::String(s) => Toml::String(s.clone()),
            Toml::Integer(n) => Toml::Integer(*n),
            Toml::Float(bits) => Toml::Float(*bits),
            Toml::Boolean(b) => Toml::Boolean(*b),
            Toml::Datetime(s) => Toml::Datetime(s.clone()),
            Toml::Array(items) => {
                let mut copy: Vec<Toml> = Vec::new();
                let mut i: usize = 0;
                while i < items.len()
                    invariant
                        i <= items.len(),
                        copy.len() == i,
                        *self == Toml::Array(*items),
                        forall|k: int| 0 <= k < i ==> copy@[k]@ == items@[k]@,
                    decreases items.len() - i,
                {
                    assert(decreases_to!(*self => self->Array_0@[i as int]));
                    let item = items[i].clone();
                    copy.push(item);
                    i += 1;
                }
                let r = Toml::Array(copy);
                assert(r@->Array_0 =~= self@->Array_0);
                r
            },
            Toml::Table(entries) => {
                let mut copy: Vec<(String, Toml)> = Vec::new();
                let mut i: usize = 0;
                while i < entries.len()
                    invariant
                        i <= entries.len(),
                        copy.len() == i,
                        *self == Toml::Table(*entries),
                        forall|k: int|
                            0 <= k < i ==> copy@[k].0@ == entries@[k].0@ && copy@[k].1@
                                == entries@[k].1@,
                    decreases entries.len() - i,
                {
                    let key = entries[i].0.clone();
                    assert(decreases_to!(*self => self->Table_0@[i as int].1));
                    let value = entries[i].1.clone();
                    copy.push((key, value));
                    i += 1;
                }
                let r = Toml::Table(copy);
                assert(r@->Table_0 =~= self@->Table_0);
                r
            },
        }
    }
}

/// The value type of the `toml` crate, of which nothing is known here but
/// what [`toml_contents`] names.
#[verifier::external_type_specification]
#[verifier::external_body]
pub struct ExTomlValue(toml::Value);

/// What the `toml` crate reads from a text: the document as a value, or, where
/// the text is no TOML document, the crate's message.
pub uninterp spec fn toml_document(text: Seq<char>) -> Result<TomlView, Seq<char>>;

/// What a value of the `toml` crate holds.
pub uninterp spec fn toml_contents(value: toml::Value) -> TomlView;

/// Parses a text with `toml`'s `FromStr` for `toml::Value`, which reads a
/// whole document. The result is what [`toml_document`] names: the document,
/// or the message of the crate's error.
#[verifier::external_body]
fn parse_toml(text: &str) -> (r: Result<toml::Value, String>)
    ensures
        match r {
            Ok(v) => toml_document(text@) == Ok::<TomlView, Seq<char>>(toml_contents(v)),
            Err(m) => toml_document(text@) == Err::<TomlView, Seq<char>>(m@),
        },
{
    match text.parse::<toml::Value>() {
        Ok(v) => Ok(v),
        Err(e) => Err(e.to_string()),
    }
}

/// Copies a value of the `toml` crate, variant by variant: a float as its
/// bits, a date-time as its text, a table as its entries in the crate's
/// order. The copy holds what the value holds.
#[verifier::external_body]
fn from_toml(value: &toml::Value) -> (r: Toml)
    ensures
        r@ == toml_contents(*value),
{
    match value {
        toml::Value::String(s) => Toml::String(s.clone()),
        toml::Value::Integer(n) => Toml::Integer(*n),
        toml::Value::Float(x) => Toml::Float(x.to_bits()),
        toml::Value::Boolean(b) => Toml::Boolean(*b),
        toml::Value::Datetime(d) => Toml::Datetime(d.to_string()),
        toml::Value::Array(a) => Toml::Array(a.iter().map(from_toml).collect()),
        toml::Value::Table(t) => Toml::Table(
            t.iter().map(|(k, v)| (k.clone(), from_toml(v))).collect(),
        ),
    }
}

/// What [`Toml::parse`] returns for a text.
pub open spec fn parsed(text: Seq<char>) -> Result<TomlView, ErrorView> {
    match toml_document(text) {
        Ok(document) => Ok(document),
        Err(message) => Err(ErrorView::TomlParse(message)),
    }
}

impl Toml {
    /// Reads a TOML document.
    pub fn parse(text: &str) -> (r: Result<Toml, Error>)
        ensures
            match parsed(text@) {
                Ok(document) => r matches Ok(v) && v@ == document,
                Err(e) => r matches Err(x) && x@ == e,
            },
    {
        match parse_toml(text) {
            Ok(document) => Ok(from_toml(&document)),
            Err(message) => Err(Error::TomlParse(message)),
        }
    }

    /// The value under `key`, where `self` is a table that has the key.
    pub fn get(&self, key: &str) -> (r: Option<&Toml>)
        ensures
            match self@.get(key@) {
                Some(v) => r matches Some(x) && x@ == v,
                None => r is None,
            },
    {
        match self {
            Toml::Table(entries) => {
                let ghost all = self@->Table_0;
                let mut i: usize = entries.len();
                assert(all.take(i as int) =~= all);
                while i > 0
                    invariant
                        i <= entries.len(),
                        *self == Toml::Table(*entries),
                        all == self@->Table_0,
                        all.len() == entries.len(),
                        lookup(all, key@) == lookup(all.take(i as int), key@),
                    decreases i,
                {
                    i -= 1;
                    assert(all.take(i + 1).drop_last() =~= all.take(i as int));
                    if same_text(entries[i].0.as_str(), key) {
                        return Some(&entries[i].1);
                    }
                }
                None
            },
            _ => None,
        }
    }

    /// The string under `key`, where `self` is a table that holds one there.
    pub fn get_string(&self, key: &str) -> (r: Option<&String>)
        ensures
            match self@.get_string(key@) {
                Some(s) => r matches Some(x) && x@ == s,
                None => r is None,
            },
    {
        match self.get(key) {
            Some(Toml::String(s)) => Some(s),
            _ => None,
        }
    }
}

} // verus!
