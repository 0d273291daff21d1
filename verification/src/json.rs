//! JSON values, as event payloads carry them.

use crate::collections::{overlay, text_map, Table};
use crate::outside::{
    array_value, bool_value, format_uuid, id_list, ids_from_value, null_value, number_value,
    object_value, text_list_error, text_table_from_value, text_value, texts_from_value, uuid_named,
    uuid_text, value_entries_view, value_view, values_view,
};
use crate::text::{opt_str, same, texts};
use vstd::prelude::*;

verus! {

/// A JSON value. A number is carried as it came. Where an object names a key
/// more than once, the last entry counts.
#[derive(Debug)]
pub enum Json {
    Null,
    Bool(bool),
    Number(serde_json::Number),
    Text(String),
    Array(Vec<Json>),
    Object(Vec<(String, Json)>),
}

/// What a JSON value stands for.
pub enum JsonView {
    Null,
    Bool(bool),
    Number(serde_json::Number),
    Text(Seq<char>),
    Array(Seq<JsonView>),
    Object(Map<Seq<char>, JsonView>),
}

/// What the items of an array stand for.
pub open spec fn items_view(items: Seq<Json>) -> Seq<JsonView>
    decreases items,
{
    if items.len() == 0 {
        Seq::empty()
    } else {
        items_view(items.drop_last()).push(items.last().view())
    }
}

/// What the entries of an object stand for.
pub open spec fn entries_view(entries: Seq<(String, Json)>) -> Map<Seq<char>, JsonView>
    decreases entries,
{
    if entries.len() == 0 {
        Map::empty()
    } else {
        entries_view(entries.drop_last()).insert(entries.last().0@, entries.last().1.view())
    }
}

impl Json {
    pub open spec fn view(&self) -> JsonView
        decreases self,
    {
        match self {
            Json::Null => JsonView::Null,
            Json::Bool(b) => JsonView::Bool(*b),
            Json::Number(n) => JsonView::Number(*n),
            Json::Text(t) => JsonView::Text(t@),
            Json::Array(items) => JsonView::Array(items_view(items@)),
            Json::Object(entries) => JsonView::Object(entries_view(entries@)),
        }
    }
}

impl JsonView {
    /// The value that an object has under `key`.
    pub open spec fn field(self, key: Seq<char>) -> Option<JsonView> {
        match self {
            JsonView::Object(m) => if m.contains_key(key) {
                Some(m[key])
            } else {
                None
            },
            _ => None,
        }
    }

    /// The text, where the value is one.
    pub open spec fn as_text(self) -> Option<Seq<char>> {
        match self {
            JsonView::Text(t) => Some(t),
            _ => None,
        }
    }

    /// The text that an object has under `key`.
    pub open spec fn text_field(self, key: Seq<char>) -> Option<Seq<char>> {
        match self.field(key) {
            Some(v) => v.as_text(),
            None => None,
        }
    }

    /// The texts of an array that holds nothing but texts.
    pub open spec fn text_list(self) -> Option<Seq<Seq<char>>> {
        match self {
            JsonView::Array(items) => if forall|i: int|
                0 <= i < items.len() ==> (#[trigger] items[i]) is Text {
                Some(items.map_values(|v: JsonView| v->Text_0))
            } else {
                None
            },
            _ => None,
        }
    }

    /// The entries of an object whose values are texts.
    pub open spec fn text_table(self) -> Option<Map<Seq<char>, Seq<char>>> {
        match self {
            JsonView::Object(m) => if forall|k: Seq<char>| #[trigger]
                m.contains_key(k) ==> m[k] is Text {
                Some(m.map_values(|v: JsonView| v->Text_0))
            } else {
                None
            },
            _ => None,
        }
    }

    /// An object with `key` set to `value`; any other value unchanged.
    pub open spec fn with(self, key: Seq<char>, value: JsonView) -> JsonView {
        match self {
            JsonView::Object(m) => JsonView::Object(m.insert(key, value)),
            _ => self,
        }
    }
}

/// An array of texts.
pub open spec fn text_array(list: Seq<Seq<char>>) -> JsonView {
    JsonView::Array(list.map_values(|t: Seq<char>| JsonView::Text(t)))
}

/// An object of texts.
pub open spec fn text_object(m: Map<Seq<char>, Seq<char>>) -> JsonView {
    JsonView::Object(m.map_values(|t: Seq<char>| JsonView::Text(t)))
}

/// The written forms of a list of UUIDs.
pub open spec fn uuid_texts(list: Seq<u128>) -> Seq<Seq<char>> {
    list.map_values(|id: u128| uuid_text(id))
}

/// A text, or null where there is none.
pub open spec fn text_or_null(t: Option<Seq<char>>) -> JsonView {
    match t {
        Some(s) => JsonView::Text(s),
        None => JsonView::Null,
    }
}

/// `key` stands at `i` and at no later place.
spec fn last_at(entries: Seq<(String, Json)>, i: int, key: Seq<char>) -> bool {
    &&& 0 <= i < entries.len()
    &&& entries[i].0@ == key
    &&& forall|j: int| i < j < entries.len() ==> entries[j].0@ != key
}

proof fn lemma_entry_absent(entries: Seq<(String, Json)>, key: Seq<char>)
    requires
        forall|j: int| 0 <= j < entries.len() ==> entries[j].0@ != key,
    ensures
        !entries_view(entries).contains_key(key),
    decreases entries.len(),
{
    if entries.len() > 0 {
        lemma_entry_absent(entries.drop_last(), key);
    }
}

proof fn lemma_entry_present(entries: Seq<(String, Json)>, i: int, key: Seq<char>)
    requires
        last_at(entries, i, key),
    ensures
        entries_view(entries).contains_key(key),
        entries_view(entries)[key] == entries[i].1@,
    decreases entries.len(),
{
    if i < entries.len() - 1 {
        assert(entries.last().0@ != key);
        lemma_entry_present(entries.drop_last(), i, key);
    }
}

proof fn lemma_entry_replaced(
    entries: Seq<(String, Json)>,
    i: int,
    key: Seq<char>,
    entry: (String, Json),
)
    requires
        last_at(entries, i, key),
        entry.0@ == key,
    ensures
        entries_view(entries.update(i, entry)) == entries_view(entries).insert(key, entry.1@),
    decreases entries.len(),
{
    let after = entries.update(i, entry);
    if i == entries.len() - 1 {
        assert(after.drop_last() == entries.drop_last());
        assert(entries_view(after) =~= entries_view(entries).insert(key, entry.1@));
    } else {
        assert(entries.last().0@ != key);
        lemma_entry_replaced(entries.drop_last(), i, key, entry);
        assert(after.drop_last() == entries.drop_last().update(i, entry));
        assert(entries_view(after) =~= entries_view(entries).insert(key, entry.1@));
    }
}

impl Json {
    /// The last place of `key` among the entries.
    fn place(entries: &Vec<(String, Json)>, key: &str) -> (r: Option<usize>)
        ensures
            r matches Some(i) ==> last_at(entries@, i as int, key@),
            r is None ==> forall|j: int| 0 <= j < entries@.len() ==> entries@[j].0@ != key@,
    {
        let mut i: usize = entries.len();
        while i > 0
            invariant
                i <= entries@.len(),
                forall|j: int| i <= j < entries@.len() ==> entries@[j].0@ != key@,
            decreases i,
        {
            i = i - 1;
            if same(entries[i].0.as_str(), key) {
                return Some(i);
            }
        }
        None
    }

    /// The value that an object has under `key`.
    pub fn get(&self, key: &str) -> (r: Option<&Json>)
        ensures
            match r {
                Some(v) => self@.field(key@) == Some(v@),
                None => self@.field(key@) is None,
            },
    {
        match self {
            Json::Object(entries) => match Self::place(entries, key) {
                Some(i) => {
                    proof {
                        lemma_entry_present(entries@, i as int, key@);
                    }
                    Some(&entries[i].1)
                },
                None => {
                    proof {
                        lemma_entry_absent(entries@, key@);
                    }
                    None
                },
            },
            _ => None,
        }
    }

    /// Sets `key` of an object to `value`; changes no other value.
    pub fn insert(&mut self, key: &str, value: Json)
        ensures
            final(self)@ == old(self)@.with(key@, value@),
    {
        match self {
            Json::Object(entries) => {
                let entry = (key.to_owned(), value);
                match Self::place(entries, key) {
                    Some(i) => {
                        proof {
                            lemma_entry_replaced(entries@, i as int, key@, entry);
                        }
                        entries.set(i, entry);
                    },
                    None => {
                        assert(entries@.push(entry).drop_last() == entries@);
                        entries.push(entry);
                    },
                }
            },
            _ => {},
        }
    }

    /// The text, where the value is one.
    pub fn as_str(&self) -> (r: Option<&str>)
        ensures
            match r {
                Some(t) => self@.as_text() == Some(t@),
                None => self@.as_text() is None,
            },
    {
        match self {
            Json::Text(t) => Some(t.as_str()),
            _ => None,
        }
    }

    /// The text that an object has under `key`.
    pub fn text_field(&self, key: &str) -> (r: Option<&str>)
        ensures
            match r {
                Some(t) => self@.text_field(key@) == Some(t@),
                None => self@.text_field(key@) is None,
            },
    {
        match self.get(key) {
            Some(v) => v.as_str(),
            None => None,
        }
    }

    /// An object without entries.
    pub fn object() -> (r: Json)
        ensures
            r@ == JsonView::Object(Map::empty()),
    {
        Json::Object(Vec::new())
    }

    /// This value with `key` set to `value`.
    pub fn with(self, key: &str, value: Json) -> (r: Json)
        ensures
            r@ == self@.with(key@, value@),
    {
        let mut r = self;
        r.insert(key, value);
        r
    }

    /// A text value.
    pub fn text(t: &str) -> (r: Json)
        ensures
            r@ == JsonView::Text(t@),
    {
        Json::Text(t.to_owned())
    }
}

impl Json {
    /// A text, or null where there is none.
    pub fn opt_text(t: Option<&str>) -> (r: Json)
        ensures
            r@ == text_or_null(opt_str(t)),
    {
        match t {
            Some(s) => Json::text(s),
            None => Json::Null,
        }
    }

    /// An array of texts, which reads back as the same texts.
    pub fn texts(list: &Vec<String>) -> (r: Json)
        ensures
            r@ == text_array(texts(list@)),
            r@.text_list() == Some(texts(list@)),
    {
        let mut items: Vec<Json> = Vec::new();
        let mut i: usize = 0;
        while i < list.len()
            invariant
                i <= list@.len(),
                items_view(items@) == texts(list@).take(i as int).map_values(
                    |t: Seq<char>| JsonView::Text(t),
                ),
            decreases list@.len() - i,
        {
            let item = Json::Text(list[i].clone());
            let ghost before = items_view(items@);
            assert(item@ == JsonView::Text(list@[i as int]@));
            assert(items@.push(item).drop_last() == items@);
            items.push(item);
            i = i + 1;
            assert(items_view(items@) == before.push(JsonView::Text(list@[i - 1]@)));
            assert(texts(list@).take(i as int) == texts(list@).take(i - 1).push(list@[i - 1]@));
        }
        assert(texts(list@).take(i as int) == texts(list@));
        let r = Json::Array(items);
        assert(r@.text_list()->0 =~= texts(list@));
        r
    }

    /// An array of UUIDs, which reads back as the same UUIDs.
    pub fn ids(list: &Vec<u128>) -> (r: Json)
        ensures
            r@ == text_array(uuid_texts(list@)),
            id_list(r@) == Some(list@),
    {
        let mut written: Vec<String> = Vec::new();
        let mut i: usize = 0;
        while i < list.len()
            invariant
                i <= list@.len(),
                texts(written@) == uuid_texts(list@).take(i as int),
                forall|j: int| 0 <= j < i ==> uuid_named(uuid_text(#[trigger] list@[j])) == Some(
                    list@[j],
                ),
            decreases list@.len() - i,
        {
            let ghost before = texts(written@);
            written.push(format_uuid(list[i]));
            assert(texts(written@) =~= before.push(uuid_text(list@[i as int])));
            i = i + 1;
        }
        let r = Json::texts(&written);
        assert(uuid_texts(list@).take(i as int) == uuid_texts(list@));
        assert(id_list(r@)->0 =~= list@);
        r
    }

    /// An object of texts, which reads back as the same table.
    pub fn table(t: &Table<String>) -> (r: Json)
        ensures
            r@ == text_object(text_map(t@)),
            r@.text_table() == Some(text_map(t@)),
    {
        let mut r = Json::object();
        let n: usize = t.len();
        let mut i: usize = 0;
        assert(r@ == text_object(text_map(t@).restrict(t.keys().take(0).to_set()))) by {
            assert(text_map(t@).restrict(t.keys().take(0).to_set()).map_values(
                |v: Seq<char>| JsonView::Text(v),
            ) =~= Map::<Seq<char>, JsonView>::empty());
        }
        while i < n
            invariant
                n == t.keys().len(),
                i <= n,
                t.keys().to_set() == t@.dom(),
                r@ == text_object(text_map(t@).restrict(t.keys().take(i as int).to_set())),
            decreases n - i,
        {
            let (key, value) = t.at(i);
            let ghost walked = t.keys().take(i as int);
            r.insert(key, Json::Text(value.clone()));
            proof {
                assert(t.keys().take(i + 1) == walked.push(key@));
                walked.lemma_push_to_set_commute(key@);
                assert(text_map(t@).restrict(t.keys().take(i + 1).to_set()).map_values(
                    |v: Seq<char>| JsonView::Text(v),
                ) =~= text_map(t@).restrict(walked.to_set()).map_values(
                    |v: Seq<char>| JsonView::Text(v),
                ).insert(key@, JsonView::Text(value@)));
            }
            i = i + 1;
        }
        assert(t.keys().take(n as int) == t.keys());
        assert(text_map(t@).restrict(t@.dom()) =~= text_map(t@));
        assert(r@.text_table()->0 =~= text_map(t@));
        r
    }

    /// The value of `serde_json` that stands for the same.
    fn to_value(&self) -> (r: serde_json::Value)
        ensures
            value_view(r) == self@,
        decreases self,
    {
        match self {
            Json::Null => null_value(),
            Json::Bool(b) => bool_value(*b),
            Json::Number(n) => number_value(n.clone()),
            Json::Text(t) => text_value(t.clone()),
            Json::Array(items) => {
                let mut out: Vec<serde_json::Value> = Vec::new();
                let mut i: usize = 0;
                while i < items.len()
                    invariant
                        *self == Json::Array(*items),
                        i <= items@.len(),
                        values_view(out@) == items_view(items@.take(i as int)),
                    decreases items@.len() - i,
                {
                    assert(decreases_to!(items@ => items@[i as int]));
                    assert(decreases_to!(*items => items@));
                    assert(decreases_to!(*self => self->Array_0));
                    let item = items[i].to_value();
                    let ghost before = values_view(out@);
                    assert(items@.take(i + 1).drop_last() == items@.take(i as int));
                    out.push(item);
                    assert(values_view(out@) =~= before.push(items@[i as int]@));
                    i = i + 1;
                }
                assert(items@.take(i as int) == items@);
                array_value(out)
            },
            Json::Object(entries) => {
                let mut out: Vec<(String, serde_json::Value)> = Vec::new();
                let mut i: usize = 0;
                while i < entries.len()
                    invariant
                        *self == Json::Object(*entries),
                        i <= entries@.len(),
                        value_entries_view(out@) == entries_view(entries@.take(i as int)),
                    decreases entries@.len() - i,
                {
                    assert(decreases_to!(entries@[i as int] => entries@[i as int].1));
                    assert(decreases_to!(entries@ => entries@[i as int]));
                    assert(decreases_to!(*entries => entries@));
                    assert(decreases_to!(*self => self->Object_0));
                    let entry = (entries[i].0.clone(), entries[i].1.to_value());
                    assert(entries@.take(i + 1).drop_last() == entries@.take(i as int));
                    assert(out@.push(entry).drop_last() == out@);
                    out.push(entry);
                    i = i + 1;
                }
                assert(entries@.take(i as int) == entries@);
                object_value(out)
            },
        }
    }

    /// The texts of an array that holds nothing but texts; otherwise what is
    /// wrong with the value.
    pub fn text_list(&self) -> (r: Result<Vec<String>, String>)
        ensures
            match r {
                Ok(list) => self@.text_list() == Some(texts(list@)),
                Err(e) => self@.text_list() is None && e@ == text_list_error(self@),
            },
    {
        texts_from_value(self.to_value())
    }

    /// The entries of an object whose values are texts.
    pub fn text_table(&self) -> (r: Option<Table<String>>)
        ensures
            match r {
                Some(t) => self@.text_table() == Some(text_map(t@)),
                None => self@.text_table() is None,
            },
    {
        match text_table_from_value(self.to_value()) {
            Some(pairs) => {
                let empty: Table<String> = Table::new();
                assert(text_map(empty@) =~= Map::empty());
                Some(overlay(empty, &pairs))
            },
            None => None,
        }
    }

    /// The UUIDs of an array that holds nothing but texts that name one.
    pub fn id_list(&self) -> (r: Option<Vec<u128>>)
        ensures
            match r {
                Some(list) => id_list(self@) == Some(list@),
                None => id_list(self@) is None,
            },
    {
        ids_from_value(self.to_value())
    }
}

impl Clone for Json {
    fn clone(&self) -> (r: Self)
        ensures
            r@ == self@,
        decreases self,
    {
        match self {
            Json::Null => Json::Null,
            Json::Bool(b) => Json::Bool(*b),
            Json::Number(n) => Json::Number(n.clone()),
            Json::Text(t) => Json::Text(t.clone()),
            Json::Array(items) => {
                let mut out: Vec<Json> = Vec::new();
                let mut i: usize = 0;
                while i < items.len()
                    invariant
                        *self == Json::Array(*items),
                        i <= items@.len(),
                        items_view(out@) == items_view(items@.take(i as int)),
                    decreases items@.len() - i,
                {
                    assert(decreases_to!(items@ => items@[i as int]));
                    assert(decreases_to!(*items => items@));
                    assert(decreases_to!(*self => self->Array_0));
                    let item = items[i].clone();
                    assert(items@.take(i + 1).drop_last() == items@.take(i as int));
                    assert(out@.push(item).drop_last() == out@);
                    out.push(item);
                    i = i + 1;
                }
                assert(items@.take(i as int) == items@);
                Json::Array(out)
            },
            Json::Object(entries) => {
                let mut out: Vec<(String, Json)> = Vec::new();
                let mut i: usize = 0;
                while i < entries.len()
                    invariant
                        *self == Json::Object(*entries),
                        i <= entries@.len(),
                        entries_view(out@) == entries_view(entries@.take(i as int)),
                    decreases entries@.len() - i,
                {
                    assert(decreases_to!(entries@[i as int] => entries@[i as int].1));
                    assert(decreases_to!(entries@ => entries@[i as int]));
                    assert(decreases_to!(*entries => entries@));
                    assert(decreases_to!(*self => self->Object_0));
                    let entry = (entries[i].0.clone(), entries[i].1.clone());
                    assert(entries@.take(i + 1).drop_last() == entries@.take(i as int));
                    assert(out@.push(entry).drop_last() == out@);
                    out.push(entry);
                    i = i + 1;
                }
                assert(entries@.take(i as int) == entries@);
                Json::Object(out)
            },
        }
    }
}

/// A field of an object is what its map holds under the key; other values have
/// no fields. A text field is a field that is a text.
pub proof fn law_fields(v: JsonView, m: Map<Seq<char>, JsonView>, key: Seq<char>)
    ensures
        v == JsonView::Object(m) ==> v.field(key) == if m.contains_key(key) {
            Some(m[key])
        } else {
            None
        },
        !(v is Object) ==> v.field(key) is None,
        match v.field(key) {
            Some(JsonView::Text(t)) => v.text_field(key) == Some(t),
            _ => v.text_field(key) is None,
        },
        match v {
            JsonView::Text(t) => v.as_text() == Some(t),
            _ => v.as_text() is None,
        },
{
}

/// Setting a field of an object sets that field and no other; it does nothing to
/// a value that is no object.
pub proof fn law_set_field(v: JsonView, key: Seq<char>, value: JsonView, other: Seq<char>)
    ensures
        v is Object ==> v.with(key, value) is Object && v.with(key, value).field(key) == Some(value),
        other != key ==> v.with(key, value).field(other) == v.field(other),
        !(v is Object) ==> v.with(key, value) == v,
{
}

/// A value reads as a list of texts exactly if it is the array of these texts.
pub proof fn law_text_list(v: JsonView, list: Seq<Seq<char>>)
    ensures
        v.text_list() == Some(list) <==> {
            &&& v is Array
            &&& v->Array_0.len() == list.len()
            &&& forall|i: int|
                0 <= i < list.len() ==> (#[trigger] v->Array_0[i]) == JsonView::Text(list[i])
        },
        text_array(list).text_list() == Some(list),
        text_array(list) is Array,
{
    assert(text_array(list).text_list()->0 =~= list);
    if v is Array && v->Array_0.len() == list.len() && (forall|i: int|
        0 <= i < list.len() ==> (#[trigger] v->Array_0[i]) == JsonView::Text(list[i])) {
        assert(v.text_list()->0 =~= list);
    }
    if v.text_list() == Some(list) {
        assert forall|i: int| 0 <= i < list.len() implies (#[trigger] v->Array_0[i])
            == JsonView::Text(list[i]) by {
            assert(v->Array_0[i] is Text);
        }
    }
}

/// A value reads as a table of texts exactly if it is the object with these texts.
pub proof fn law_text_table(v: JsonView, table: Map<Seq<char>, Seq<char>>)
    ensures
        v.text_table() == Some(table) <==> {
            &&& v is Object
            &&& v->Object_0.dom() == table.dom()
            &&& forall|k: Seq<char>| #[trigger]
                table.contains_key(k) ==> v->Object_0[k] == JsonView::Text(table[k])
        },
        text_object(table).text_table() == Some(table),
        text_object(table) is Object,
{
    assert(text_object(table).text_table()->0 =~= table);
    if v.text_table() == Some(table) {
        assert(v->Object_0.dom() =~= table.dom());
        assert forall|k: Seq<char>| #[trigger] table.contains_key(k) implies v->Object_0[k]
            == JsonView::Text(table[k]) by {
            assert(v->Object_0.contains_key(k));
        }
    }
    if v is Object && v->Object_0.dom() == table.dom() && (forall|k: Seq<char>| #[trigger]
        table.contains_key(k) ==> v->Object_0[k] == JsonView::Text(table[k])) {
        assert forall|k: Seq<char>| #[trigger] v->Object_0.contains_key(k) implies v->Object_0[k]
            is Text by {
            assert(table.contains_key(k));
        }
        assert(v.text_table()->0 =~= table);
    }
}

/// A value reads as a list of UUIDs exactly if it is an array of texts that name
/// these UUIDs.
pub proof fn law_id_list(v: JsonView, list: Seq<u128>)
    ensures
        id_list(v) == Some(list) <==> {
            &&& v is Array
            &&& v->Array_0.len() == list.len()
            &&& forall|i: int|
                #![trigger v->Array_0[i]]
                0 <= i < list.len() ==> v->Array_0[i] is Text && uuid_named(v->Array_0[i]->Text_0)
                    == Some(list[i])
        },
{
    if id_list(v) == Some(list) {
        let t = v.text_list()->0;
        law_text_list(v, t);
        assert forall|i: int|
            #![trigger v->Array_0[i]]
            0 <= i < list.len() implies v->Array_0[i] is Text && uuid_named(v->Array_0[i]->Text_0)
            == Some(list[i]) by {
            assert(uuid_named(t[i]) is Some);
        }
    }
    if v is Array && v->Array_0.len() == list.len() && (forall|i: int|
        #![trigger v->Array_0[i]]
        0 <= i < list.len() ==> v->Array_0[i] is Text && uuid_named(v->Array_0[i]->Text_0) == Some(
            list[i],
        )) {
        let t = v->Array_0.map_values(|x: JsonView| x->Text_0);
        law_text_list(v, t);
        assert forall|i: int| 0 <= i < t.len() implies uuid_named(#[trigger] t[i]) is Some by {
            assert(v->Array_0[i] is Text);
        }
        assert(id_list(v)->0 =~= list);
    }
}

/// An absent text is null, and one that is there is itself.
pub proof fn law_text_or_null(t: Option<Seq<char>>)
    ensures
        text_or_null(t).as_text() == t,
        t is None ==> text_or_null(t) is Null,
{
}

/// Of the entries of an object the last one of a key counts, and there are no
/// others. The items of an array keep their places.
pub proof fn law_entries_and_items(
    entries: Seq<(String, Json)>,
    key: Seq<char>,
    i: int,
    items: Seq<Json>,
    j: int,
)
    ensures
        0 <= i < entries.len() && entries[i].0@ == key && (forall|k: int|
            i < k < entries.len() ==> (#[trigger] entries[k]).0@ != key) ==> entries_view(
            entries,
        ).contains_key(key) && entries_view(entries)[key] == entries[i].1@,
        (forall|k: int| 0 <= k < entries.len() ==> (#[trigger] entries[k]).0@ != key)
            ==> !entries_view(entries).contains_key(key),
        items_view(items).len() == items.len(),
        0 <= j < items.len() ==> items_view(items)[j] == items[j]@,
    decreases items.len(),
{
    if 0 <= i < entries.len() && entries[i].0@ == key && (forall|k: int|
        i < k < entries.len() ==> (#[trigger] entries[k]).0@ != key) {
        lemma_entry_present(entries, i, key);
    }
    if forall|k: int| 0 <= k < entries.len() ==> (#[trigger] entries[k]).0@ != key {
        lemma_entry_absent(entries, key);
    }
    if items.len() > 0 {
        law_entries_and_items(entries, key, i, items.drop_last(), j);
    }
}

/// What a JSON value stands for, variant by variant.
pub proof fn law_json_view(j: Json)
    ensures
        match j {
            Json::Null => j@ == JsonView::Null,
            Json::Bool(b) => j@ == JsonView::Bool(b),
            Json::Number(n) => j@ == JsonView::Number(n),
            Json::Text(t) => j@ == JsonView::Text(t@),
            Json::Array(items) => j@ == JsonView::Array(items_view(items@)),
            Json::Object(entries) => j@ == JsonView::Object(entries_view(entries@)),
        },
{
}

/// The written forms of a list of UUIDs stand in their places.
pub proof fn law_uuid_texts(list: Seq<u128>, i: int)
    ensures
        uuid_texts(list).len() == list.len(),
        0 <= i < list.len() ==> uuid_texts(list)[i] == uuid_text(list[i]),
{
}

} // verus!
