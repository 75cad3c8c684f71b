//! JSON values, read and written by `serde_json`.

use vstd::prelude::*;

use crate::text::same;

verus! {

/// `serde_json::Number`, which is carried and not looked into.
#[verifier::external_type_specification]
#[verifier::external_body]
pub struct ExNumber(serde_json::Number);

/// `serde_json::Value`, between its parser or writer and a `Json`.
#[verifier::external_type_specification]
#[verifier::external_body]
pub struct ExValue(serde_json::Value);

/// A clone of a `serde_json::Number` is the same number.
pub assume_specification[ <serde_json::Number as Clone>::clone ](
    n: &serde_json::Number,
) -> (r: serde_json::Number)
    ensures
        r == *n,
;

/// A JSON value. Numbers are carried as `serde_json` holds them.
pub enum Json {
    Null,
    Bool(bool),
    Number(serde_json::Number),
    Str(String),
    Array(Vec<Json>),
    Object(Vec<(String, Json)>),
}

/// A JSON value of the model; an object is a list of names with values.
pub ghost enum JsonView {
    Null,
    Bool(bool),
    Number(serde_json::Number),
    Str(Seq<char>),
    Array(Seq<JsonView>),
    Object(Seq<(Seq<char>, JsonView)>),
}

impl View for Json {
    type V = JsonView;

    open spec fn view(&self) -> JsonView
        decreases self,
    {
        match self {
            Json::Null => JsonView::Null,
            Json::Bool(b) => JsonView::Bool(*b),
            Json::Number(n) => JsonView::Number(*n),
            Json::Str(s) => JsonView::Str(s@),
            Json::Array(a) => JsonView::Array(
                Seq::new(
                    a@.len(),
                    |i: int|
                        if 0 <= i < a@.len() {
                            a@[i].view()
                        } else {
                            JsonView::Null
                        },
                ),
            ),
            Json::Object(o) => JsonView::Object(
                Seq::new(
                    o@.len(),
                    |i: int|
                        if 0 <= i < o@.len() {
                            (o@[i].0@, o@[i].1.view())
                        } else {
                            (Seq::empty(), JsonView::Null)
                        },
                ),
            ),
        }
    }
}

/// The names and values of an object.
pub open spec fn fields_of(o: Seq<(String, Json)>) -> Seq<(Seq<char>, JsonView)> {
    o.map_values(|p: (String, Json)| (p.0@, p.1@))
}

/// The first place of the name `k` among `fields`, or -1.
pub open spec fn field_place(fields: Seq<(Seq<char>, JsonView)>, k: Seq<char>) -> int
    decreases fields.len(),
{
    if fields.len() == 0 {
        -1
    } else {
        let p = field_place(fields.drop_last(), k);
        if p >= 0 {
            p
        } else if fields.last().0 == k {
            fields.len() - 1
        } else {
            -1
        }
    }
}

/// The value that an object gives the name `k`.
pub open spec fn field(j: JsonView, k: Seq<char>) -> Option<JsonView> {
    match j {
        JsonView::Object(fields) => if field_place(fields, k) >= 0 {
            Some(fields[field_place(fields, k)].1)
        } else {
            None
        },
        _ => None,
    }
}

/// The value at place `i` of an array.
pub open spec fn element(j: JsonView, i: int) -> Option<JsonView> {
    match j {
        JsonView::Array(items) => if 0 <= i < items.len() {
            Some(items[i])
        } else {
            None
        },
        _ => None,
    }
}

/// The text of a string.
pub open spec fn string_of(j: JsonView) -> Option<Seq<char>> {
    match j {
        JsonView::Str(s) => Some(s),
        _ => None,
    }
}

/// `fields` with the name `k` given the value `v`.
pub open spec fn with_field(
    fields: Seq<(Seq<char>, JsonView)>,
    k: Seq<char>,
    v: JsonView,
) -> Seq<(Seq<char>, JsonView)> {
    if field_place(fields, k) >= 0 {
        fields.update(field_place(fields, k), (k, v))
    } else {
        fields.push((k, v))
    }
}

/// `fields` with every name of `more` given its value there.
pub open spec fn with_fields(
    fields: Seq<(Seq<char>, JsonView)>,
    more: Seq<(Seq<char>, JsonView)>,
) -> Seq<(Seq<char>, JsonView)>
    decreases more.len(),
{
    if more.len() == 0 {
        fields
    } else {
        with_field(with_fields(fields, more.drop_last()), more.last().0, more.last().1)
    }
}

/// `fields` without the name `k`.
pub open spec fn without_field(
    fields: Seq<(Seq<char>, JsonView)>,
    k: Seq<char>,
) -> Seq<(Seq<char>, JsonView)> {
    fields.filter(|f: (Seq<char>, JsonView)| f.0 != k)
}

/// `field_place` gives the first place that has the name.
pub proof fn lemma_field_place(fields: Seq<(Seq<char>, JsonView)>, k: Seq<char>)
    ensures
        ({
            let p = field_place(fields, k);
            &&& -1 <= p < fields.len()
            &&& p >= 0 ==> fields[p].0 == k
            &&& p >= 0 ==> forall|i: int| 0 <= i < p ==> #[trigger] fields[i].0 != k
            &&& p < 0 ==> forall|i: int| 0 <= i < fields.len() ==> #[trigger] fields[i].0 != k
        }),
    decreases fields.len(),
{
    if fields.len() > 0 {
        let front = fields.drop_last();
        lemma_field_place(front, k);
        let p = field_place(front, k);
        assert forall|i: int| 0 <= i < front.len() implies #[trigger] fields[i] == front[i] by {}
        if p >= 0 {
            assert(fields[p] == front[p]);
        }
    }
}

/// The first place that has the name is what `field_place` gives.
pub proof fn lemma_field_place_is(fields: Seq<(Seq<char>, JsonView)>, k: Seq<char>, p: int)
    requires
        0 <= p < fields.len(),
        fields[p].0 == k,
        forall|i: int| 0 <= i < p ==> #[trigger] fields[i].0 != k,
    ensures
        field_place(fields, k) == p,
{
    lemma_field_place(fields, k);
    let q = field_place(fields, k);
    assert(q >= 0);
    if q < p {
        assert(fields[q].0 != k);
    } else if p < q {
        assert(fields[p].0 != k);
    }
}

/// Giving `k` a value sets it and leaves every other name as it was.
pub proof fn lemma_with_field(
    fields: Seq<(Seq<char>, JsonView)>,
    k: Seq<char>,
    v: JsonView,
    x: Seq<char>,
)
    ensures
        field(JsonView::Object(with_field(fields, k, v)), x) == if x == k {
            Some(v)
        } else {
            field(JsonView::Object(fields), x)
        },
{
    let new = with_field(fields, k, v);
    lemma_field_place(fields, k);
    lemma_field_place(fields, x);
    let p = field_place(fields, k);
    let q = field_place(fields, x);
    if p >= 0 {
        assert forall|i: int| 0 <= i < fields.len() implies #[trigger] new[i].0 == fields[i].0 by {}
    } else {
        assert forall|i: int| 0 <= i < fields.len() implies #[trigger] new[i] == fields[i] by {}
    }
    if x == k {
        let at = if p >= 0 {
            p
        } else {
            fields.len() as int
        };
        lemma_field_place_is(new, x, at);
    } else if q >= 0 {
        lemma_field_place_is(new, x, q);
    } else {
        lemma_field_place(new, x);
        let r = field_place(new, x);
        if r >= 0 && r < fields.len() {
            assert(new[r].0 == fields[r].0);
        }
    }
}

/// A name is given what the later list says of it, where it says anything.
pub proof fn lemma_with_fields(
    fields: Seq<(Seq<char>, JsonView)>,
    more: Seq<(Seq<char>, JsonView)>,
    x: Seq<char>,
)
    ensures
        (forall|i: int| 0 <= i < more.len() ==> #[trigger] more[i].0 != x) ==> field(
            JsonView::Object(with_fields(fields, more)),
            x,
        ) == field(JsonView::Object(fields), x),
        forall|i: int|
            0 <= i < more.len() && #[trigger] more[i].0 == x && (forall|j: int|
                i < j < more.len() ==> #[trigger] more[j].0 != x) ==> field(
                JsonView::Object(with_fields(fields, more)),
                x,
            ) == Some(more[i].1),
    decreases more.len(),
{
    if more.len() > 0 {
        let front = more.drop_last();
        lemma_with_fields(fields, front, x);
        lemma_with_field(with_fields(fields, front), more.last().0, more.last().1, x);
        assert forall|i: int| 0 <= i < front.len() implies #[trigger] front[i] == more[i] by {}
        assert forall|i: int|
            0 <= i < more.len() && #[trigger] more[i].0 == x && (forall|j: int|
                i < j < more.len() ==> #[trigger] more[j].0 != x) implies field(
            JsonView::Object(with_fields(fields, more)),
            x,
        ) == Some(more[i].1) by {
            if i < front.len() {
                assert(more[more.len() - 1].0 != x);
                assert(front[i].0 == x);
                assert forall|j: int| i < j < front.len() implies #[trigger] front[j].0 != x by {
                    assert(more[j].0 != x);
                }
            }
        }
        if forall|i: int| 0 <= i < more.len() ==> #[trigger] more[i].0 != x {
            assert(more[more.len() - 1].0 != x);
            assert forall|i: int| 0 <= i < front.len() implies #[trigger] front[i].0 != x by {
                assert(more[i].0 != x);
            }
        }
    }
}

/// Taking a name away leaves nothing of it and every other name as it was.
pub proof fn lemma_without_field(
    fields: Seq<(Seq<char>, JsonView)>,
    k: Seq<char>,
    x: Seq<char>,
)
    ensures
        field(JsonView::Object(without_field(fields, k)), x) == if x == k {
            None
        } else {
            field(JsonView::Object(fields), x)
        },
    decreases fields.len(),
{
    reveal(Seq::filter);
    let new = without_field(fields, k);
    if fields.len() > 0 {
        let front = fields.drop_last();
        lemma_without_field(front, k, x);
        lemma_field_place(front, x);
        lemma_field_place(without_field(front, k), x);
        if fields.last().0 != k {
            assert(new.drop_last() =~= without_field(front, k));
            lemma_field_place(new, x);
        }
    }
}

/// What a value looks like from outside, where it is an object.
pub proof fn lemma_object(o: Vec<(String, Json)>)
    ensures
        Json::Object(o)@ == JsonView::Object(fields_of(o@)),
{
    reveal_with_fuel(<Json as View>::view, 2);
    let f = Json::Object(o)@->Object_0;
    assert forall|i: int| 0 <= i < o@.len() implies #[trigger] f[i] == fields_of(o@)[i] by {
        assert(f[i].1 == o@[i].1.view());
    }
    assert(Json::Object(o)@->Object_0 =~= fields_of(o@));
}

/// What a value looks like from outside, where it is an array.
pub proof fn lemma_array(a: Vec<Json>)
    ensures
        Json::Array(a)@ == JsonView::Array(a@.map_values(|j: Json| j@)),
{
    reveal_with_fuel(<Json as View>::view, 2);
    let v = Json::Array(a)@->Array_0;
    assert forall|i: int| 0 <= i < a@.len() implies #[trigger] v[i] == a@[i]@ by {
        assert(v[i] == a@[i].view());
    }
    assert(v =~= a@.map_values(|j: Json| j@));
}

impl Json {
    /// A copy of the value.
    pub fn duplicate(&self) -> (r: Json)
        ensures
            r@ == self@,
        decreases self,
    {
        match self {
            Json::Null => Json::Null,
            Json::Bool(b) => Json::Bool(*b),
            Json::Number(n) => Json::Number(n.clone()),
            Json::Str(s) => Json::Str(s.clone()),
            Json::Array(a) => {
                let mut out: Vec<Json> = Vec::new();
                let mut i: usize = 0;
                while i < a.len()
                    invariant
                        *self == Json::Array(*a),
                        i <= a@.len(),
                        out@.len() == i,
                        forall|j: int| 0 <= j < i ==> #[trigger] out@[j]@ == a@[j]@,
                    decreases a@.len() - i,
                {
                    proof {
                        assert(self->Array_0 == *a);
                        assert(decreases_to!(*self => self->Array_0));
                        assert(decreases_to!(self->Array_0 => self->Array_0[i as int]));
                    }
                    out.push(a[i].duplicate());
                    i = i + 1;
                }
                let r = Json::Array(out);
                proof {
                    lemma_array(out);
                    lemma_array(*a);
                    assert(r@->Array_0 =~= self@->Array_0);
                }
                r
            },
            Json::Object(o) => {
                let mut out: Vec<(String, Json)> = Vec::new();
                let mut i: usize = 0;
                while i < o.len()
                    invariant
                        *self == Json::Object(*o),
                        i <= o@.len(),
                        out@.len() == i,
                        forall|j: int|
                            0 <= j < i ==> (#[trigger] out@[j]).0@ == o@[j].0@ && out@[j].1@
                                == o@[j].1@,
                    decreases o@.len() - i,
                {
                    proof {
                        assert(self->Object_0 == *o);
                        assert(decreases_to!(*self => self->Object_0));
                        assert(decreases_to!(self->Object_0 => self->Object_0[i as int]));
                        assert(decreases_to!(self->Object_0[i as int] => self->Object_0[i as int].1));
                    }
                    out.push((o[i].0.clone(), o[i].1.duplicate()));
                    i = i + 1;
                }
                let r = Json::Object(out);
                proof {
                    lemma_object(out);
                    lemma_object(*o);
                    assert(r@->Object_0 =~= self@->Object_0);
                }
                r
            },
        }
    }

    /// The value that an object gives the name `k`.
    pub fn get(&self, k: &str) -> (r: Option<&Json>)
        ensures
            match r {
                Some(v) => field(self@, k@) == Some(v@),
                None => field(self@, k@) is None,
            },
    {
        match self {
            Json::Object(o) => {
                proof {
                    lemma_object(*o);
                }
                match find_field(o, k) {
                    Some(i) => Some(&o[i].1),
                    None => None,
                }
            },
            _ => None,
        }
    }

    /// The value at place `i` of an array.
    pub fn at(&self, i: usize) -> (r: Option<&Json>)
        ensures
            match r {
                Some(v) => element(self@, i as int) == Some(v@),
                None => element(self@, i as int) is None,
            },
    {
        match self {
            Json::Array(a) => {
                if i < a.len() {
                    Some(&a[i])
                } else {
                    None
                }
            },
            _ => None,
        }
    }

    /// The text of a string.
    pub fn as_str(&self) -> (r: Option<&str>)
        ensures
            crate::text::opt_str_view(r) == string_of(self@),
    {
        match self {
            Json::Str(s) => Some(s.as_str()),
            _ => None,
        }
    }
}

/// The place of the name `k` in an object.
fn find_field(o: &Vec<(String, Json)>, k: &str) -> (r: Option<usize>)
    ensures
        match r {
            Some(i) => i < o@.len() && i == field_place(fields_of(o@), k@),
            None => field_place(fields_of(o@), k@) == -1,
        },
{
    let ghost fields = fields_of(o@);
    let mut i: usize = 0;
    while i < o.len()
        invariant
            i <= o@.len(),
            fields == fields_of(o@),
            forall|j: int| 0 <= j < i ==> #[trigger] fields[j].0 != k@,
        decreases o@.len() - i,
    {
        proof {
            assert(fields[i as int].0 == o@[i as int].0@);
        }
        if same(o[i].0.as_str(), k) {
            proof {
                lemma_field_place_is(fields, k@, i as int);
            }
            return Some(i);
        }
        i = i + 1;
    }
    proof {
        lemma_field_place(fields, k@);
    }
    None
}

/// Gives the name `k` of an object the value `v`.
pub fn set_field(o: &mut Vec<(String, Json)>, k: &str, v: Json)
    ensures
        fields_of(final(o)@) == with_field(fields_of(old(o)@), k@, v@),
{
    let ghost before = fields_of(o@);
    match find_field(o, k) {
        Some(i) => {
            o.set(i, (k.to_owned(), v));
        },
        None => {
            o.push((k.to_owned(), v));
        },
    }
    proof {
        assert(fields_of(o@) =~= with_field(before, k@, v@));
    }
}

/// Gives every name of `more` its value there.
pub fn set_fields(o: &mut Vec<(String, Json)>, more: &Vec<(String, Json)>)
    ensures
        fields_of(final(o)@) == with_fields(fields_of(old(o)@), fields_of(more@)),
{
    let ghost first = fields_of(o@);
    let ghost all = fields_of(more@);
    let mut i: usize = 0;
    while i < more.len()
        invariant
            i <= more@.len(),
            all == fields_of(more@),
            fields_of(o@) == with_fields(first, all.take(i as int)),
        decreases more@.len() - i,
    {
        proof {
            assert(all.take(i + 1).drop_last() =~= all.take(i as int));
            assert(all.take(i + 1).last() == (more@[i as int].0@, more@[i as int].1@));
        }
        set_field(o, more[i].0.as_str(), more[i].1.duplicate());
        i = i + 1;
    }
    proof {
        assert(all.take(i as int) =~= all);
    }
}

/// An object's fields without the name `k`.
pub fn drop_field(o: Vec<(String, Json)>, k: &str) -> (r: Vec<(String, Json)>)
    ensures
        fields_of(r@) == without_field(fields_of(o@), k@),
{
    let ghost all = fields_of(o@);
    let ghost pred = |f: (Seq<char>, JsonView)| f.0 != k@;
    let mut out: Vec<(String, Json)> = Vec::new();
    let mut i: usize = 0;
    proof {
        reveal(Seq::filter);
        assert(fields_of(out@) =~= all.take(0).filter(pred));
    }
    while i < o.len()
        invariant
            i <= o@.len(),
            all == fields_of(o@),
            pred == (|f: (Seq<char>, JsonView)| f.0 != k@),
            fields_of(out@) == all.take(i as int).filter(pred),
        decreases o@.len() - i,
    {
        proof {
            reveal(Seq::filter);
            assert(all.take(i + 1).drop_last() =~= all.take(i as int));
            assert(all.take(i + 1).last() == (o@[i as int].0@, o@[i as int].1@));
        }
        if !same(o[i].0.as_str(), k) {
            let ghost before = out@;
            out.push((o[i].0.clone(), o[i].1.duplicate()));
            proof {
                assert(fields_of(out@) =~= fields_of(before).push(all[i as int]));
            }
        }
        i = i + 1;
    }
    proof {
        assert(all.take(i as int) =~= all);
    }
    out
}

/// An object made of its fields.
pub fn object(o: Vec<(String, Json)>) -> (r: Json)
    ensures
        r@ == JsonView::Object(fields_of(o@)),
{
    proof {
        lemma_object(o);
    }
    Json::Object(o)
}

/// A string.
pub fn string(s: &str) -> (r: Json)
    ensures
        r@ == JsonView::Str(s@),
{
    Json::Str(s.to_owned())
}

// ---------------------------------------------------------------------------
// Reading and writing
// ---------------------------------------------------------------------------

/// What `serde_json::from_str` reads in a text: a value, or what it says is
/// wrong.
pub uninterp spec fn json_of_text(text: Seq<char>) -> Result<JsonView, Seq<char>>;

/// What `serde_json` writes for a value.
pub uninterp spec fn text_of_json(j: JsonView) -> Seq<char>;

/// Moves a `serde_json::Value` into a `Json`, variant by variant: the
/// conversion that `parse_json` ends with. Nothing is claimed of it by itself.
#[verifier::external_body]
fn from_value(v: serde_json::Value) -> Json {
    match v {
        serde_json::Value::Null => Json::Null,
        serde_json::Value::Bool(b) => Json::Bool(b),
        serde_json::Value::Number(n) => Json::Number(n),
        serde_json::Value::String(s) => Json::Str(s),
        serde_json::Value::Array(a) => Json::Array(a.into_iter().map(from_value).collect()),
        serde_json::Value::Object(o) => Json::Object(
            o.into_iter().map(|(k, x)| (k, from_value(x))).collect(),
        ),
    }
}

/// Copies a `Json` into a `serde_json::Value`, variant by variant: the
/// conversion that `render_json` begins with. Nothing is claimed of it by
/// itself.
#[verifier::external_body]
fn to_value(j: &Json) -> serde_json::Value {
    match j {
        Json::Null => serde_json::Value::Null,
        Json::Bool(b) => serde_json::Value::Bool(*b),
        Json::Number(n) => serde_json::Value::Number(n.clone()),
        Json::Str(s) => serde_json::Value::String(s.clone()),
        Json::Array(a) => serde_json::Value::Array(a.iter().map(to_value).collect()),
        Json::Object(o) => serde_json::Value::Object(
            o.iter().map(|p| (p.0.clone(), to_value(&p.1))).collect(),
        ),
    }
}

/// A read value as a value of the model.
pub open spec fn read_view(r: Result<Json, String>) -> Result<JsonView, Seq<char>> {
    match r {
        Ok(j) => Ok(j@),
        Err(e) => Err(e@),
    }
}

/// `serde_json::from_str` into a `serde_json::Value`. What it reads, and what
/// it says is wrong, depend on the text alone.
#[verifier::external_body]
pub(crate) fn parse_json(text: &str) -> (r: Result<Json, String>)
    ensures
        read_view(r) == json_of_text(text@),
{
    match serde_json::from_str::<serde_json::Value>(text) {
        Ok(v) => Ok(from_value(v)),
        Err(e) => Err(e.to_string()),
    }
}

/// `to_string` of a `serde_json::Value`. The text depends on the value alone.
#[verifier::external_body]
pub(crate) fn render_json(j: &Json) -> (r: String)
    ensures
        r@ == text_of_json(j@),
{
    to_value(j).to_string()
}

/// A character inside a JSON string.
pub open spec fn escaped(c: char) -> Seq<char> {
    if c == '"' {
        seq!['\\', '"']
    } else if c == '\\' {
        seq!['\\', '\\']
    } else if c == '\u{8}' {
        seq!['\\', 'b']
    } else if c == '\t' {
        seq!['\\', 't']
    } else if c == '\n' {
        seq!['\\', 'n']
    } else if c == '\u{c}' {
        seq!['\\', 'f']
    } else if c == '\r' {
        seq!['\\', 'r']
    } else if c <= '\u{1f}' {
        seq![
            '\\',
            'u',
            '0',
            '0',
            crate::text::hex_digit((c as u32 / 16) as nat),
            crate::text::hex_digit((c as u32 % 16) as nat),
        ]
    } else {
        seq![c]
    }
}

/// The characters of `s` inside a JSON string.
pub open spec fn escaped_text(s: Seq<char>) -> Seq<char>
    decreases s.len(),
{
    if s.len() == 0 {
        Seq::empty()
    } else {
        escaped_text(s.drop_last()) + escaped(s.last())
    }
}

/// `s` as a JSON string.
pub open spec fn quoted(s: Seq<char>) -> Seq<char> {
    seq!['"'] + escaped_text(s) + seq!['"']
}

/// `serde_json::to_string` of a string: the text in double quotes, with
/// quotes, backslashes and the control characters below U+0020 escaped.
#[verifier::external_body]
fn json_string(s: &str) -> (r: String)
    ensures
        r@ == quoted(s@),
{
    serde_json::to_string(s).unwrap()
}

/// `s` as a JSON string.
pub fn quote(s: &str) -> (r: String)
    ensures
        r@ == quoted(s@),
{
    json_string(s)
}

/// The character that an escape stands for, and how long the escape is.
pub open spec fn escape_at(t: Seq<char>) -> Option<(char, int)> {
    if t.len() < 2 || t[0] != '\\' {
        None
    } else if t[1] == '"' {
        Some(('"', 2))
    } else if t[1] == '\\' {
        Some(('\\', 2))
    } else if t[1] == 'b' {
        Some(('\u{8}', 2))
    } else if t[1] == 't' {
        Some(('\t', 2))
    } else if t[1] == 'n' {
        Some(('\n', 2))
    } else if t[1] == 'f' {
        Some(('\u{c}', 2))
    } else if t[1] == 'r' {
        Some(('\r', 2))
    } else if t[1] == 'u' && t.len() >= 6 && t[2] == '0' && t[3] == '0' {
        match (crate::text::digit_value(t[4], 16), crate::text::digit_value(t[5], 16)) {
            (Some(a), Some(b)) => Some(((a * 16 + b) as u8 as char, 6)),
            _ => None,
        }
    } else {
        None
    }
}

/// What a reader finds in a JSON string behind its opening quote: the text up
/// to the closing quote, and what follows.
pub open spec fn string_read(t: Seq<char>) -> Option<(Seq<char>, Seq<char>)>
    decreases t.len(),
{
    if t.len() == 0 {
        None
    } else if t[0] == '"' {
        Some((Seq::empty(), t.skip(1)))
    } else if t[0] == '\\' {
        match escape_at(t) {
            Some((c, n)) => if 0 < n <= t.len() {
                match string_read(t.skip(n)) {
                    Some((text, rest)) => Some((seq![c] + text, rest)),
                    None => None,
                }
            } else {
                None
            },
            None => None,
        }
    } else {
        match string_read(t.skip(1)) {
            Some((text, rest)) => Some((seq![t[0]] + text, rest)),
            None => None,
        }
    }
}

/// A character is read back from how it is written.
proof fn lemma_char_is_read_back(c: char, t: Seq<char>)
    ensures
        string_read(escaped(c) + t) == match string_read(t) {
            Some((text, rest)) => Some((seq![c] + text, rest)),
            None => None,
        },
{
    let e = escaped(c);
    let all = e + t;
    assert(all.skip(e.len() as int) =~= t);
    assert forall|i: int| 0 <= i < e.len() implies #[trigger] all[i] == e[i] by {}
    if e.len() == 6 {
        let a = (c as u32 / 16) as nat;
        let b = (c as u32 % 16) as nat;
        assert(crate::text::digit_value(crate::text::hex_digit(a), 16) == Some(a));
        assert(crate::text::digit_value(crate::text::hex_digit(b), 16) == Some(b));
        assert(escape_at(all) == Some((c, 6int)));
    } else if e.len() == 2 {
        assert(escape_at(all) == Some((c, 2int)));
    }
}

/// Characters are written from the front as from the back.
proof fn lemma_escaped_front(s: Seq<char>)
    requires
        s.len() > 0,
    ensures
        escaped_text(s) == escaped(s[0]) + escaped_text(s.drop_first()),
    decreases s.len(),
{
    if s.len() == 1 {
        assert(s.drop_last() =~= Seq::<char>::empty());
        assert(s.drop_first() =~= Seq::<char>::empty());
        assert(escaped_text(s) =~= escaped(s[0]) + escaped_text(s.drop_first()));
    } else {
        lemma_escaped_front(s.drop_last());
        let inner = s.drop_first();
        assert(s.drop_last().drop_first() =~= inner.drop_last());
        assert(inner.last() == s.last());
        assert(escaped_text(s) =~= escaped(s[0]) + (escaped_text(inner.drop_last()) + escaped(
            inner.last(),
        )));
    }
}

/// Whatever a text holds, a reader of its JSON string finds that text, and
/// finds where the string ends whatever follows it.
pub proof fn law_string_is_read_back(s: Seq<char>, rest: Seq<char>)
    ensures
        quoted(s)[0] == '"',
        string_read((quoted(s) + rest).drop_first()) == Some((s, rest)),
    decreases s.len(),
{
    let t = (quoted(s) + rest).drop_first();
    assert(t =~= escaped_text(s) + (seq!['"'] + rest));
    if s.len() == 0 {
        assert(t =~= seq!['"'] + rest);
        assert(t.skip(1) =~= rest);
        assert(s =~= Seq::<char>::empty());
    } else {
        let inner = s.drop_first();
        law_string_is_read_back(inner, rest);
        lemma_escaped_front(s);
        let u = (quoted(inner) + rest).drop_first();
        assert(u =~= escaped_text(inner) + (seq!['"'] + rest));
        assert(t =~= escaped(s[0]) + u);
        lemma_char_is_read_back(s[0], u);
        assert(seq![s[0]] + inner =~= s);
    }
}

/// A JSON string is written on one line, whatever its text.
pub proof fn law_quoted_is_one_line(s: Seq<char>)
    ensures
        forall|i: int| 0 <= i < quoted(s).len() ==> #[trigger] quoted(s)[i] > '\u{1f}',
{
    lemma_escaped_one_line(s);
}

proof fn lemma_escaped_char(c: char)
    ensures
        forall|i: int| 0 <= i < escaped(c).len() ==> #[trigger] escaped(c)[i] > '\u{1f}',
{
}

proof fn lemma_escaped_one_line(s: Seq<char>)
    ensures
        forall|i: int| 0 <= i < escaped_text(s).len() ==> #[trigger] escaped_text(s)[i] > '\u{1f}',
    decreases s.len(),
{
    if s.len() > 0 {
        lemma_escaped_one_line(s.drop_last());
        let a = escaped_text(s.drop_last());
        let b = escaped(s.last());
        lemma_escaped_char(s.last());
        assert forall|i: int| 0 <= i < (a + b).len() implies #[trigger] (a + b)[i] > '\u{1f}' by {
            if i < a.len() {
                assert((a + b)[i] == a[i]);
            } else {
                assert((a + b)[i] == b[i - a.len()]);
            }
        }
    }
}

} // verus!
