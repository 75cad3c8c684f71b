//! What the configuration's check for unknown keys reads of a TOML document:
//! its tables, their keys, and strings.

use vstd::prelude::*;

use crate::text::same;

verus! {

/// `toml::Value`, between its parser and a `TomlItem`.
#[verifier::external_type_specification]
#[verifier::external_body]
pub struct ExTomlValue(toml::Value);

/// A TOML value.
pub enum TomlItem {
    Table(Vec<(String, TomlItem)>),
    Text(String),
    /// A value that is neither a table nor a string.
    Other,
}

/// A TOML value of the model.
pub ghost enum TomlView {
    Table(Seq<(Seq<char>, TomlView)>),
    Text(Seq<char>),
    Other,
}

impl View for TomlItem {
    type V = TomlView;

    open spec fn view(&self) -> TomlView
        decreases self,
    {
        match self {
            TomlItem::Table(t) => TomlView::Table(
                Seq::new(
                    t@.len(),
                    |i: int|
                        if 0 <= i < t@.len() {
                            (t@[i].0@, t@[i].1.view())
                        } else {
                            (Seq::empty(), TomlView::Other)
                        },
                ),
            ),
            TomlItem::Text(s) => TomlView::Text(s@),
            TomlItem::Other => TomlView::Other,
        }
    }
}

/// The keys and values of a table.
pub open spec fn entries_of(t: Seq<(String, TomlItem)>) -> Seq<(Seq<char>, TomlView)> {
    t.map_values(|e: (String, TomlItem)| (e.0@, e.1@))
}

/// What a value looks like from outside, where it is a table.
pub proof fn lemma_table(t: Vec<(String, TomlItem)>)
    ensures
        TomlItem::Table(t)@ == TomlView::Table(entries_of(t@)),
{
    reveal_with_fuel(<TomlItem as View>::view, 2);
    let v = TomlItem::Table(t)@->Table_0;
    assert forall|i: int| 0 <= i < t@.len() implies #[trigger] v[i] == entries_of(t@)[i] by {
        assert(v[i].1 == t@[i].1.view());
    }
    assert(v =~= entries_of(t@));
}

/// The value of a key.
pub open spec fn value_of(t: Seq<(Seq<char>, TomlView)>, k: Seq<char>) -> Option<TomlView>
    decreases t.len(),
{
    if t.len() == 0 {
        None
    } else if t[0].0 == k {
        Some(t[0].1)
    } else {
        value_of(t.drop_first(), k)
    }
}

/// The value of a key.
pub fn lookup<'a>(t: &'a Vec<(String, TomlItem)>, k: &str) -> (r: Option<&'a TomlItem>)
    ensures
        match r {
            Some(v) => value_of(entries_of(t@), k@) == Some(v@),
            None => value_of(entries_of(t@), k@) is None,
        },
{
    let ghost all = entries_of(t@);
    let mut i: usize = 0;
    proof {
        assert(all.skip(0) =~= all);
    }
    while i < t.len()
        invariant
            i <= t@.len(),
            all == entries_of(t@),
            value_of(all, k@) == value_of(all.skip(i as int), k@),
        decreases t@.len() - i,
    {
        proof {
            assert(all.skip(i as int)[0] == (t@[i as int].0@, t@[i as int].1@));
            assert(all.skip(i as int).drop_first() =~= all.skip(i + 1));
        }
        if same(t[i].0.as_str(), k) {
            return Some(&t[i].1);
        }
        i = i + 1;
    }
    None
}

/// What `toml::from_str` reads in a text; `None` where it is no TOML document.
pub uninterp spec fn toml_of_text(text: Seq<char>) -> Option<TomlView>;

/// Moves a `toml::Value` into a `TomlItem`, variant by variant: the conversion
/// that `parse_toml` ends with. Nothing is claimed of it by itself.
#[verifier::external_body]
fn from_toml(v: toml::Value) -> TomlItem {
    match v {
        toml::Value::Table(t) => TomlItem::Table(
            t.into_iter().map(|(k, x)| (k, from_toml(x))).collect(),
        ),
        toml::Value::String(s) => TomlItem::Text(s),
        toml::Value::Integer(_) => TomlItem::Other,
        toml::Value::Float(_) => TomlItem::Other,
        toml::Value::Boolean(_) => TomlItem::Other,
        toml::Value::Datetime(_) => TomlItem::Other,
        toml::Value::Array(_) => TomlItem::Other,
    }
}

/// A read document as a value of the model.
pub open spec fn document_view(r: Option<TomlItem>) -> Option<TomlView> {
    match r {
        Some(t) => Some(t@),
        None => None,
    }
}

/// `toml::from_str` into a `toml::Table`. What it reads, and whether it reads
/// anything, depend on the text alone.
#[verifier::external_body]
pub(crate) fn parse_toml(text: &str) -> (r: Option<TomlItem>)
    ensures
        document_view(r) == toml_of_text(text@),
{
    match toml::from_str::<toml::Table>(text) {
        Ok(t) => Some(from_toml(toml::Value::Table(t))),
        Err(_) => None,
    }
}

} // verus!
