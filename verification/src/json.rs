//! A JSON document model that holds, as plain values, what the test runner
//! reads and changes of the JSON documents it handles.

use vstd::prelude::*;

verus! {

/// A JSON value. Numbers keep their textual form; objects keep their members
/// in order.
#[derive(Debug, PartialEq)]
pub enum Json {
    Null,
    Bool(bool),
    Number(String),
    Str(String),
    Array(Vec<Json>),
    Object(Vec<(String, Json)>),
}

/// The mathematical value of a JSON document.
pub enum JsonView {
    Null,
    Bool(bool),
    Number(Seq<char>),
    Str(Seq<char>),
    Array(Seq<JsonView>),
    Object(Seq<(Seq<char>, JsonView)>),
}

/// The members of an object, each with the value of its key.
pub type Fields = Seq<(Seq<char>, JsonView)>;

pub open spec fn json_view(j: Json) -> JsonView
    decreases j, 0nat,
{
    match j {
        Json::Null => JsonView::Null,
        Json::Bool(b) => JsonView::Bool(b),
        Json::Number(n) => JsonView::Number(n@),
        Json::Str(s) => JsonView::Str(s@),
        Json::Array(items) => {
            proof {
                assert(decreases_to!(j => items));
                assert(decreases_to!(items => items@));
            }
            JsonView::Array(items_view(items@, items@.len()))
        },
        Json::Object(fields) => {
            proof {
                assert(decreases_to!(j => fields));
                assert(decreases_to!(fields => fields@));
            }
            JsonView::Object(fields_view(fields@, fields@.len()))
        },
    }
}

/// The values of the first `n` items.
pub open spec fn items_view(items: Seq<Json>, n: nat) -> Seq<JsonView>
    decreases items, n,
{
    if n == 0 || n > items.len() {
        seq![]
    } else {
        items_view(items, (n - 1) as nat).push(json_view(items[n - 1]))
    }
}

/// The values of the first `n` members.
pub open spec fn fields_view(fields: Seq<(String, Json)>, n: nat) -> Fields
    decreases fields, n,
{
    if n == 0 || n > fields.len() {
        seq![]
    } else {
        proof {
            assert(decreases_to!(fields => fields[n - 1]));
            assert(decreases_to!(fields[n - 1] => fields[n - 1].1));
        }
        fields_view(fields, (n - 1) as nat).push((fields[n - 1].0@, json_view(fields[n - 1].1)))
    }
}

impl View for Json {
    type V = JsonView;

    open spec fn view(&self) -> JsonView {
        json_view(*self)
    }
}

/// The values of all items.
pub open spec fn view_items(items: Seq<Json>) -> Seq<JsonView> {
    items_view(items, items.len())
}

/// The values of all members.
pub open spec fn view_fields(fields: Seq<(String, Json)>) -> Fields {
    fields_view(fields, fields.len())
}

proof fn lemma_items_view(items: Seq<Json>, n: nat)
    requires
        n <= items.len(),
    ensures
        items_view(items, n).len() == n,
        forall|k: int| 0 <= k < n ==> #[trigger] items_view(items, n)[k] == items[k]@,
    decreases n,
{
    if n > 0 {
        lemma_items_view(items, (n - 1) as nat);
    }
}

proof fn lemma_fields_view(fields: Seq<(String, Json)>, n: nat)
    requires
        n <= fields.len(),
    ensures
        fields_view(fields, n).len() == n,
        forall|k: int|
            0 <= k < n ==> #[trigger] fields_view(fields, n)[k] == (fields[k].0@, fields[k].1@),
    decreases n,
{
    if n > 0 {
        lemma_fields_view(fields, (n - 1) as nat);
    }
}

/// The value of a sequence of items, element by element.
pub proof fn lemma_view_items(items: Seq<Json>)
    ensures
        view_items(items).len() == items.len(),
        forall|k: int| 0 <= k < items.len() ==> #[trigger] view_items(items)[k] == items[k]@,
{
    lemma_items_view(items, items.len());
}

/// The value of a sequence of members, member by member.
pub proof fn lemma_view_fields(fields: Seq<(String, Json)>)
    ensures
        view_fields(fields).len() == fields.len(),
        forall|k: int|
            0 <= k < fields.len() ==> #[trigger] view_fields(fields)[k] == (
                fields[k].0@,
                fields[k].1@,
            ),
{
    lemma_fields_view(fields, fields.len());
}

/// The position of the first member named `key`.
pub open spec fn key_index(fields: Fields, key: Seq<char>) -> Option<int>
    decreases fields.len(),
{
    if fields.len() == 0 {
        None
    } else if fields[0].0 == key {
        Some(0)
    } else {
        match key_index(fields.drop_first(), key) {
            Some(i) => Some(i + 1),
            None => None,
        }
    }
}

/// The value of the first member named `key`.
pub open spec fn field(fields: Fields, key: Seq<char>) -> Option<JsonView> {
    match key_index(fields, key) {
        Some(i) => Some(fields[i].1),
        None => None,
    }
}

/// The members after setting `key` to `value`: in this list of members an
/// existing member keeps its place and takes the new value, and a new member
/// is appended. Lookups by key (`field`) do not depend on the order.
pub open spec fn insert_field(fields: Fields, key: Seq<char>, value: JsonView) -> Fields {
    match key_index(fields, key) {
        Some(i) => fields.update(i, (key, value)),
        None => fields.push((key, value)),
    }
}

/// The member `key` of an object (`Value::get` with a string key): `None`
/// for a missing member and for a value that is not an object.
pub open spec fn member(j: JsonView, key: Seq<char>) -> Option<JsonView> {
    match j {
        JsonView::Object(fields) => field(fields, key),
        _ => None,
    }
}

/// The member `key` of an optional value.
pub open spec fn member_of(o: Option<JsonView>, key: Seq<char>) -> Option<JsonView> {
    match o {
        Some(j) => member(j, key),
        None => None,
    }
}

/// What the JSON-pointer token `0` selects: the first item of an array, or the
/// member named `0` of an object.
pub open spec fn first_item(j: JsonView) -> Option<JsonView> {
    match j {
        JsonView::Array(items) => if items.len() > 0 {
            Some(items[0])
        } else {
            None
        },
        JsonView::Object(fields) => field(fields, seq!['0']),
        _ => None,
    }
}

/// The characters of a string value.
pub open spec fn text_of(o: Option<JsonView>) -> Option<Seq<char>> {
    match o {
        Some(JsonView::Str(s)) => Some(s),
        _ => None,
    }
}

/// The items of an array value.
pub open spec fn items_of(o: Option<JsonView>) -> Option<Seq<JsonView>> {
    match o {
        Some(JsonView::Array(items)) => Some(items),
        _ => None,
    }
}

/// The value of an optional borrowed document.
pub open spec fn view_opt(o: Option<&Json>) -> Option<JsonView> {
    match o {
        Some(j) => Some(j@),
        None => None,
    }
}

/// `key_index` finds the first member with the key.
pub proof fn lemma_key_index(fields: Fields, key: Seq<char>, i: int)
    requires
        0 <= i <= fields.len(),
        forall|j: int| 0 <= j < i ==> (#[trigger] fields[j]).0 != key,
    ensures
        i < fields.len() && fields[i].0 == key ==> key_index(fields, key) == Some(i),
        i == fields.len() ==> key_index(fields, key) is None,
    decreases i,
{
    if i > 0 {
        let rest = fields.drop_first();
        assert forall|j: int| 0 <= j < i - 1 implies (#[trigger] rest[j]).0 != key by {
            assert(rest[j] == fields[j + 1]);
        }
        lemma_key_index(rest, key, i - 1);
        assert(fields[0].0 != key);
    }
}

/// A found position is in bounds and names the key; no earlier member does.
pub proof fn lemma_key_index_found(fields: Fields, key: Seq<char>)
    ensures
        key_index(fields, key) matches Some(i) ==> {
            &&& 0 <= i < fields.len()
            &&& fields[i].0 == key
            &&& forall|j: int| 0 <= j < i ==> (#[trigger] fields[j]).0 != key
        },
        key_index(fields, key) is None ==> forall|j: int|
            0 <= j < fields.len() ==> (#[trigger] fields[j]).0 != key,
    decreases fields.len(),
{
    if fields.len() > 0 && fields[0].0 != key {
        let rest = fields.drop_first();
        lemma_key_index_found(rest, key);
        match key_index(rest, key) {
            Some(k) => {
                assert(fields[k + 1] == rest[k]);
                assert forall|j: int| 0 <= j < k + 1 implies (#[trigger] fields[j]).0 != key by {
                    if j > 0 {
                        assert(fields[j] == rest[j - 1]);
                    }
                }
            },
            None => {
                assert forall|j: int| 0 <= j < fields.len() implies (#[trigger] fields[j]).0
                    != key by {
                    if j > 0 {
                        assert(fields[j] == rest[j - 1]);
                    }
                }
            },
        }
    }
}

/// Reading a member back after setting it gives the value that was set; the
/// other members read as before.
pub proof fn lemma_insert_then_read(fields: Fields, key: Seq<char>, value: JsonView, other: Seq<char>)
    ensures
        field(insert_field(fields, key, value), key) == Some(value),
        other != key ==> field(insert_field(fields, key, value), other) == field(fields, other),
{
    let updated = insert_field(fields, key, value);
    lemma_key_index_found(fields, key);
    lemma_key_index_found(fields, other);
    match key_index(fields, key) {
        Some(i) => {
            assert forall|j: int| 0 <= j < i implies (#[trigger] updated[j]).0 != key by {
                assert(updated[j] == fields[j]);
            }
            lemma_key_index(updated, key, i);
            if other != key {
                match key_index(fields, other) {
                    Some(k) => {
                        assert forall|j: int| 0 <= j < k implies (#[trigger] updated[j]).0
                            != other by {
                            if j != i {
                                assert(updated[j] == fields[j]);
                            }
                        }
                        lemma_key_index(updated, other, k);
                    },
                    None => {
                        assert forall|j: int| 0 <= j < updated.len() implies (
                        #[trigger] updated[j]).0 != other by {
                            if j != i {
                                assert(updated[j] == fields[j]);
                            }
                        }
                        lemma_key_index(updated, other, updated.len() as int);
                    },
                }
            }
        },
        None => {
            assert forall|j: int| 0 <= j < fields.len() implies (#[trigger] updated[j]).0
                != key by {
                assert(updated[j] == fields[j]);
            }
            lemma_key_index(updated, key, fields.len() as int);
            if other != key {
                match key_index(fields, other) {
                    Some(k) => {
                        assert forall|j: int| 0 <= j < k implies (#[trigger] updated[j]).0
                            != other by {
                            assert(updated[j] == fields[j]);
                        }
                        lemma_key_index(updated, other, k);
                    },
                    None => {
                        assert forall|j: int| 0 <= j < updated.len() implies (
                        #[trigger] updated[j]).0 != other by {
                            if j < fields.len() {
                                assert(updated[j] == fields[j]);
                            }
                        }
                        lemma_key_index(updated, other, updated.len() as int);
                    },
                }
            }
        },
    }
}


impl Json {
    /// The position of the first member named `key`.
    #[verifier::loop_isolation(false)]
    fn position(fields: &Vec<(String, Json)>, key: &String) -> (r: Option<usize>)
        ensures
            match r {
                Some(i) => i < fields.len() && key_index(view_fields(fields@), key@) == Some(
                    i as int,
                ),
                None => key_index(view_fields(fields@), key@) is None,
            },
    {
        let ghost v = view_fields(fields@);
        proof {
            lemma_view_fields(fields@);
        }
        let mut i: usize = 0;
        while i < fields.len()
            invariant
                0 <= i <= fields.len(),
                v == view_fields(fields@),
                v.len() == fields.len(),
                forall|j: int| 0 <= j < i ==> (#[trigger] v[j]).0 != key@,
            decreases fields.len() - i,
        {
            assert(v[i as int].0 == fields@[i as int].0@);
            if fields[i].0 == *key {
                proof {
                    lemma_key_index(v, key@, i as int);
                }
                return Some(i);
            }
            i = i + 1;
        }
        proof {
            lemma_key_index(v, key@, i as int);
        }
        None
    }

    /// The member `key` of an object (`Value::get` with a string key).
    pub fn member(&self, key: &str) -> (r: Option<&Json>)
        ensures
            view_opt(r) == member(self@, key@),
    {
        match self {
            Json::Object(fields) => {
                proof {
                    lemma_view_fields(fields@);
                }
                let k = String::from_str(key);
                match Json::position(fields, &k) {
                    Some(i) => {
                        assert(view_fields(fields@)[i as int].1 == fields@[i as int].1@);
                        Some(&fields[i].1)
                    },
                    None => None,
                }
            },
            _ => None,
        }
    }

    /// What the JSON-pointer token `0` selects.
    pub fn first_item(&self) -> (r: Option<&Json>)
        ensures
            view_opt(r) == first_item(self@),
    {
        match self {
            Json::Array(items) => {
                proof {
                    lemma_view_items(items@);
                }
                if items.len() > 0 {
                    assert(view_items(items@)[0] == items@[0]@);
                    Some(&items[0])
                } else {
                    None
                }
            },
            Json::Object(_) => {
                let r = self.member("0");
                proof {
                    reveal_strlit("0");
                    assert("0"@ =~= seq!['0']);
                }
                r
            },
            _ => None,
        }
    }

    /// The string held by a string value.
    pub fn as_str(&self) -> (r: Option<&String>)
        ensures
            match r {
                Some(s) => text_of(Some(self@)) == Some(s@),
                None => text_of(Some(self@)) is None,
            },
    {
        match self {
            Json::Str(s) => Some(s),
            _ => None,
        }
    }

    /// The items held by an array value.
    pub fn as_array(&self) -> (r: Option<&Vec<Json>>)
        ensures
            match r {
                Some(v) => items_of(Some(self@)) == Some(view_items(v@)),
                None => items_of(Some(self@)) is None,
            },
    {
        match self {
            Json::Array(v) => Some(v),
            _ => None,
        }
    }

    /// A copy of the document.
    #[verifier::loop_isolation(false)]
    pub fn duplicate(&self) -> (r: Json)
        ensures
            r@ == self@,
        decreases self,
    {
        match self {
            Json::Null => Json::Null,
            Json::Bool(b) => Json::Bool(*b),
            Json::Number(n) => Json::Number(n.clone()),
            Json::Str(s) => Json::Str(s.clone()),
            Json::Array(items) => {
                let mut copy: Vec<Json> = Vec::new();
                let mut i: usize = 0;
                while i < items.len()
                    invariant
                        0 <= i <= items.len(),
                        copy@.len() == i,
                        forall|k: int| 0 <= k < i ==> (#[trigger] copy@[k])@ == items@[k]@,
                    decreases items.len() - i,
                {
                    proof {
                        assert(*items == (*self)->Array_0);
                        assert(decreases_to!(*self => (*self)->Array_0));
                        assert(decreases_to!(*items => items@));
                        assert(decreases_to!(items@ => items@[i as int]));
                    }
                    copy.push(items[i].duplicate());
                    i = i + 1;
                }
                proof {
                    lemma_view_items(copy@);
                    lemma_view_items(items@);
                }
                assert(view_items(copy@) =~= view_items(items@));
                Json::Array(copy)
            },
            Json::Object(fields) => {
                let mut copy: Vec<(String, Json)> = Vec::new();
                proof {
                    assert(*fields == (*self)->Object_0);
                    assert(decreases_to!(*self => (*self)->Object_0));
                    lemma_view_fields(fields@);
                    lemma_view_fields(copy@);
                }
                copy_fields(fields, 0, fields.len(), &mut copy);
                assert(view_fields(copy@) =~= view_fields(fields@));
                Json::Object(copy)
            },
        }
    }
}

/// Appends copies of the members `from..to` of `src` to `dst`.
#[verifier::loop_isolation(false)]
pub fn copy_fields(src: &Vec<(String, Json)>, from: usize, to: usize, dst: &mut Vec<(String, Json)>)
    requires
        from <= to <= src.len(),
    ensures
        view_fields(final(dst)@) == view_fields(old(dst)@) + view_fields(src@).subrange(
            from as int,
            to as int,
        ),
    decreases src, 0nat,
{
    let ghost start = view_fields(old(dst)@);
    proof {
        lemma_view_fields(src@);
        lemma_view_fields(dst@);
    }
    let mut i: usize = from;
    while i < to
        invariant
            from <= i <= to <= src.len(),
            view_fields(dst@) == start + view_fields(src@).subrange(from as int, i as int),
        decreases to - i,
    {
        proof {
            assert(decreases_to!(*src => src@));
            assert(decreases_to!(src@ => src@[i as int]));
            assert(decreases_to!(src@[i as int] => src@[i as int].1));
        }
        let value = src[i].1.duplicate();
        let ghost before = dst@;
        dst.push((src[i].0.clone(), value));
        assert(dst@ == before.push((src@[i as int].0, value)));
        proof {
            lemma_view_fields(before);
            lemma_view_fields(dst@);
            assert(view_fields(dst@) =~= view_fields(before).push(view_fields(src@)[i as int]));
        }
        i = i + 1;
        assert(view_fields(dst@) =~= start + view_fields(src@).subrange(from as int, i as int));
    }
}


/// Appends copies of all items of `src` to `dst`.
#[verifier::loop_isolation(false)]
pub fn copy_items(src: &Vec<Json>, dst: &mut Vec<Json>)
    ensures
        view_items(final(dst)@) == view_items(old(dst)@) + view_items(src@),
{
    let ghost start = view_items(old(dst)@);
    proof {
        lemma_view_items(src@);
        lemma_view_items(dst@);
        assert(view_items(dst@) =~= start + view_items(src@).subrange(0, 0));
    }
    let mut i: usize = 0;
    while i < src.len()
        invariant
            0 <= i <= src.len(),
            view_items(dst@) == start + view_items(src@).subrange(0, i as int),
        decreases src.len() - i,
    {
        let value = src[i].duplicate();
        let ghost before = dst@;
        dst.push(value);
        proof {
            lemma_view_items(before);
            lemma_view_items(dst@);
            assert(view_items(dst@) =~= view_items(before).push(view_items(src@)[i as int]));
        }
        i = i + 1;
        assert(view_items(dst@) =~= start + view_items(src@).subrange(0, i as int));
    }
    assert(view_items(src@).subrange(0, i as int) =~= view_items(src@));
}

/// The members of an object after setting `key` to `value`: the value of an
/// existing member is replaced in place, a new member is appended.
pub fn insert_member(fields: &Vec<(String, Json)>, key: String, value: Json) -> (r: Vec<
    (String, Json),
>)
    ensures
        view_fields(r@) == insert_field(view_fields(fields@), key@, value@),
{
    proof {
        lemma_view_fields(fields@);
    }
    let ghost v = view_fields(fields@);
    let ghost kv = key@;
    let ghost vv = value@;
    let mut r: Vec<(String, Json)> = Vec::new();
    proof {
        lemma_view_fields(r@);
    }
    match Json::position(fields, &key) {
        Some(i) => {
            copy_fields(fields, 0, i, &mut r);
            let ghost before = r@;
            r.push((key, value));
            proof {
                lemma_view_fields(before);
                lemma_view_fields(r@);
                assert(view_fields(r@) =~= view_fields(before).push((kv, vv)));
            }
            copy_fields(fields, i + 1, fields.len(), &mut r);
            assert(view_fields(r@) =~= v.update(i as int, (kv, vv)));
        },
        None => {
            copy_fields(fields, 0, fields.len(), &mut r);
            let ghost before = r@;
            r.push((key, value));
            proof {
                lemma_view_fields(before);
                lemma_view_fields(r@);
                assert(view_fields(r@) =~= view_fields(before).push((kv, vv)));
            }
            assert(view_fields(r@) =~= v.push((kv, vv)));
        },
    }
    r
}

/// A string value.
pub fn text_value(s: String) -> (r: Json)
    ensures
        r@ == JsonView::Str(s@),
{
    Json::Str(s)
}

/// An object with the given members.
pub fn object_value(fields: Vec<(String, Json)>) -> (r: Json)
    ensures
        r@ == JsonView::Object(view_fields(fields@)),
{
    Json::Object(fields)
}

/// An array with the given items.
pub fn array_value(items: Vec<Json>) -> (r: Json)
    ensures
        r@ == JsonView::Array(view_items(items@)),
{
    Json::Array(items)
}

} // verus!
