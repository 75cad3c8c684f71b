//! Laws on named entries and on JSON values.

use vstd::prelude::*;

use crate::json::{
    element, escaped, escaped_text, field, fields_of, lemma_array, lemma_field_place,
    lemma_field_place_is, lemma_object, quoted, read_view, string_of, with_field, with_fields,
    without_field, Json, JsonView,
};
use crate::names::{entry_pairs, has_key, inserted, keys_differ, lemma_map_of, map_of, valued};

verus! {

/// A map of entries with distinct names has each entry's value under its name,
/// and no other names.
pub proof fn law_entries_are_found_by_name<V>(pairs: Seq<(Seq<char>, V)>, k: Seq<char>, i: int)
    ensures
        map_of(pairs).dom().contains(k) <==> exists|j: int|
            0 <= j < pairs.len() && #[trigger] pairs[j].0 == k,
        0 <= i < pairs.len() && (forall|a: int, b: int|
            0 <= a < b < pairs.len() ==> #[trigger] pairs[a].0 != #[trigger] pairs[b].0)
            ==> map_of(pairs).dom().contains(pairs[i].0) && map_of(pairs)[pairs[i].0] == pairs[i].1,
{
    if 0 <= i < pairs.len() && keys_differ(pairs) {
        lemma_map_of(pairs);
        assert(map_of(pairs).dom().contains(pairs[i].0));
    }
}

/// A new value takes the place of the name's old one; a new name comes last.
pub proof fn law_names_keep_their_places<V>(
    pairs: Seq<(Seq<char>, V)>,
    k: Seq<char>,
    v: V,
    i: int,
)
    requires
        keys_differ(pairs),
    ensures
        (forall|j: int| 0 <= j < pairs.len() ==> #[trigger] pairs[j].0 != k) ==> inserted(
            pairs,
            k,
            v,
        ) == pairs.push((k, v)),
        0 <= i < pairs.len() && pairs[i].0 == k ==> inserted(pairs, k, v) == pairs.update(
            i,
            (k, v),
        ),
{
    if 0 <= i < pairs.len() && pairs[i].0 == k {
        lemma_map_of(pairs);
        assert(map_of(pairs).dom().contains(pairs[i].0));
        assert(has_key(pairs, k));
    }
}

/// Entries of the model are those of the library, one by one.
pub proof fn law_entries_are_taken_as_they_are<V, W>(
    entries: Seq<(String, V)>,
    pairs: Seq<(Seq<char>, V)>,
    f: spec_fn(V) -> W,
    i: int,
)
    ensures
        entry_pairs(entries).len() == entries.len(),
        0 <= i < entries.len() ==> entry_pairs(entries)[i] == (entries[i].0@, entries[i].1),
        valued(pairs, f).len() == pairs.len(),
        0 <= i < pairs.len() ==> valued(pairs, f)[i] == (pairs[i].0, f(pairs[i].1)),
{
}

/// A member of an object is the first with its name; an object without that
/// name has none, and neither has a value that is no object.
pub proof fn law_members_are_found_by_name(
    fields: Seq<(Seq<char>, JsonView)>,
    k: Seq<char>,
    i: int,
    v: JsonView,
)
    ensures
        0 <= i < fields.len() && fields[i].0 == k && (forall|j: int|
            0 <= j < i ==> #[trigger] fields[j].0 != k) ==> field(JsonView::Object(fields), k)
            == Some(fields[i].1),
        (forall|j: int| 0 <= j < fields.len() ==> #[trigger] fields[j].0 != k) ==> field(
            JsonView::Object(fields),
            k,
        ) is None,
        !(v is Object) ==> field(v, k) is None,
{
    lemma_field_place(fields, k);
    if 0 <= i < fields.len() && fields[i].0 == k && (forall|j: int|
        0 <= j < i ==> #[trigger] fields[j].0 != k) {
        lemma_field_place_is(fields, k, i);
    }
}

/// The elements of an array stand at their places, and only strings have text.
pub proof fn law_elements_are_found_by_place(
    items: Seq<JsonView>,
    i: int,
    v: JsonView,
    s: Seq<char>,
)
    ensures
        0 <= i < items.len() ==> element(JsonView::Array(items), i) == Some(items[i]),
        i < 0 || i >= items.len() ==> element(JsonView::Array(items), i) is None,
        !(v is Array) ==> element(v, i) is None,
        string_of(JsonView::Str(s)) == Some(s),
        !(v is Str) ==> string_of(v) is None,
{
}

/// A member that is given a value keeps its place, or comes last where it is
/// new; a member that is taken out leaves the others in order.
pub proof fn law_members_keep_their_places(
    fields: Seq<(Seq<char>, JsonView)>,
    k: Seq<char>,
    v: JsonView,
    i: int,
    more: Seq<(Seq<char>, JsonView)>,
    f: (Seq<char>, JsonView),
)
    ensures
        (forall|j: int| 0 <= j < fields.len() ==> #[trigger] fields[j].0 != k) ==> with_field(
            fields,
            k,
            v,
        ) == fields.push((k, v)),
        0 <= i < fields.len() && fields[i].0 == k && (forall|j: int|
            0 <= j < i ==> #[trigger] fields[j].0 != k) ==> with_field(fields, k, v)
            == fields.update(i, (k, v)),
        with_fields(fields, Seq::empty()) == fields,
        with_fields(fields, more.push(f)) == with_field(with_fields(fields, more), f.0, f.1),
        without_field(Seq::empty(), k) == Seq::<(Seq<char>, JsonView)>::empty(),
        f.0 == k ==> without_field(fields.push(f), k) == without_field(fields, k),
        f.0 != k ==> without_field(fields.push(f), k) == without_field(fields, k).push(f),
{
    lemma_field_place(fields, k);
    if 0 <= i < fields.len() && fields[i].0 == k && (forall|j: int|
        0 <= j < i ==> #[trigger] fields[j].0 != k) {
        lemma_field_place_is(fields, k, i);
    }
    assert(more.push(f).drop_last() =~= more);
    reveal(Seq::filter);
    assert(fields.push(f).drop_last() =~= fields);
}

/// Values of the model are those of the library, part by part.
pub proof fn law_values_are_taken_as_they_are(
    b: bool,
    s: String,
    a: Vec<Json>,
    o: Vec<(String, Json)>,
    i: int,
    j: Json,
)
    ensures
        Json::Null@ == JsonView::Null,
        Json::Bool(b)@ == JsonView::Bool(b),
        Json::Str(s)@ == JsonView::Str(s@),
        Json::Array(a)@ matches JsonView::Array(items) && items.len() == a@.len() && (0 <= i
            < a@.len() ==> items[i] == a@[i]@),
        Json::Object(o)@ matches JsonView::Object(fields) && fields.len() == o@.len() && (0 <= i
            < o@.len() ==> fields[i] == (o@[i].0@, o@[i].1@)),
        fields_of(o@).len() == o@.len(),
        0 <= i < o@.len() ==> fields_of(o@)[i] == (o@[i].0@, o@[i].1@),
        read_view(Ok(j)) == Ok::<JsonView, Seq<char>>(j@),
        read_view(Err(s)) == Err::<JsonView, Seq<char>>(s@),
{
    lemma_object(o);
    lemma_array(a);
}

/// A text in JSON is its characters in order between two quotes. Quotes,
/// backslashes and control characters are escaped, and nothing else is.
pub proof fn law_texts_are_quoted(s: Seq<char>, c: char)
    ensures
        quoted(Seq::empty()) == seq!['"', '"'],
        quoted(s.push(c)) == quoted(s).drop_last() + escaped(c) + seq!['"'],
        c > '\u{1f}' && c != '"' && c != '\\' ==> escaped(c) == seq![c],
        escaped('"') == seq!['\\', '"'],
        escaped('\\') == seq!['\\', '\\'],
        escaped('\n') == seq!['\\', 'n'],
        escaped('\r') == seq!['\\', 'r'],
        escaped('\t') == seq!['\\', 't'],
        c <= '\u{1f}' ==> escaped(c)[0] == '\\',
{
    assert(quoted(Seq::empty()) =~= seq!['"', '"']);
    assert(s.push(c).drop_last() =~= s);
    assert(quoted(s).drop_last() =~= seq!['"'] + escaped_text(s));
    assert(quoted(s.push(c)) =~= quoted(s).drop_last() + escaped(c) + seq!['"']);
}

} // verus!
