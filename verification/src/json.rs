//! JSON values: a mathematical model, an executable representation, and the
//! boundary to `serde_json`.

use vstd::prelude::*;
use vstd::utf8::*;
use vstd::string::*;

use crate::text;

verus! {

// ---------------------------------------------------------------------------
// Model
// ---------------------------------------------------------------------------

/// A JSON value as a mathematical object. Objects have no order.
#[verifier::ext_equal]
pub enum JsonView {
    Null,
    Bool(bool),
    Int(int),
    Float(Seq<char>),
    Str(Seq<char>),
    Array(Seq<JsonView>),
    Object(Map<Seq<char>, JsonView>),
}

impl JsonView {
    /// The member of an object under a key.
    pub open spec fn get(self, key: Seq<char>) -> Option<JsonView> {
        match self {
            JsonView::Object(m) => if m.contains_key(key) {
                Some(m[key])
            } else {
                None
            },
            _ => None,
        }
    }

    /// The member of an object under a key, or null when there is none.
    pub open spec fn at(self, key: Seq<char>) -> JsonView {
        match self.get(key) {
            Some(v) => v,
            None => JsonView::Null,
        }
    }

    /// The member of an object under a key, where it is there and not null.
    pub open spec fn opt_at(self, key: Seq<char>) -> Option<JsonView> {
        match self.at(key) {
            JsonView::Null => None,
            v => Some(v),
        }
    }

    /// The text of a string value.
    pub open spec fn as_str(self) -> Option<Seq<char>> {
        match self {
            JsonView::Str(s) => Some(s),
            _ => None,
        }
    }

    /// The text of a string value, or nothing.
    pub open spec fn text(self) -> Seq<char> {
        match self {
            JsonView::Str(s) => s,
            _ => Seq::empty(),
        }
    }

    /// The value of a boolean.
    pub open spec fn as_bool(self) -> Option<bool> {
        match self {
            JsonView::Bool(b) => Some(b),
            _ => None,
        }
    }

    /// The value of an integer that fits in `u64`.
    pub open spec fn as_u64(self) -> Option<u64> {
        match self {
            JsonView::Int(n) => if 0 <= n <= u64::MAX {
                Some(n as u64)
            } else {
                None
            },
            _ => None,
        }
    }

    /// The value of an integer that fits in `i64`.
    pub open spec fn as_i64(self) -> Option<i64> {
        match self {
            JsonView::Int(n) => if i64::MIN <= n <= i64::MAX {
                Some(n as i64)
            } else {
                None
            },
            _ => None,
        }
    }

    /// The value of an integer that fits in `u32`.
    pub open spec fn as_u32(self) -> Option<u32> {
        match self {
            JsonView::Int(n) => if 0 <= n <= u32::MAX {
                Some(n as u32)
            } else {
                None
            },
            _ => None,
        }
    }

    /// The value of an integer that fits in `u32`, or zero.
    pub open spec fn u32(self) -> u32 {
        match self.as_u32() {
            Some(n) => n,
            None => 0,
        }
    }

    /// The items of an array.
    pub open spec fn as_array(self) -> Option<Seq<JsonView>> {
        match self {
            JsonView::Array(s) => Some(s),
            _ => None,
        }
    }

    /// The items of an array, or none.
    pub open spec fn items(self) -> Seq<JsonView> {
        match self {
            JsonView::Array(s) => s,
            _ => Seq::empty(),
        }
    }

    /// The members of an object, or none.
    pub open spec fn members(self) -> Map<Seq<char>, JsonView> {
        match self {
            JsonView::Object(m) => m,
            _ => Map::empty(),
        }
    }
}

/// A string value, or null.
pub open spec fn opt_str_view(o: Option<Seq<char>>) -> JsonView {
    match o {
        Some(s) => JsonView::Str(s),
        None => JsonView::Null,
    }
}

/// One value laid over another: members of two objects are laid over each
/// other key by key, anything else is replaced.
pub open spec fn merged(base: JsonView, over: JsonView) -> JsonView
    decreases base,
{
    match (base, over) {
        (JsonView::Object(b), JsonView::Object(o)) => JsonView::Object(
            Map::new(
                |k: Seq<char>| b.contains_key(k) || o.contains_key(k),
                |k: Seq<char>|
                    if b.contains_key(k) && o.contains_key(k) {
                        merged(b[k], o[k])
                    } else if o.contains_key(k) {
                        o[k]
                    } else {
                        b[k]
                    },
            ),
        ),
        _ => over,
    }
}

// ---------------------------------------------------------------------------
// Representation
// ---------------------------------------------------------------------------

/// A number that is no integer, in the notation that `serde_json` gives it.
pub struct Float {
    notation: String,
}

impl Float {
    /// The number's notation.
    pub closed spec fn view(&self) -> Seq<char> {
        self.notation@
    }

    fn copy(&self) -> (r: Float)
        ensures
            r@ == self@,
    {
        Float { notation: self.notation.clone() }
    }
}

/// A JSON value. Where an object names a key twice, the first member counts.
pub enum Json {
    Null,
    Bool(bool),
    UInt(u64),
    NegInt(i64),
    Float(Float),
    Str(String),
    Array(Vec<Json>),
    Object(Vec<(String, Json)>),
}

/// The members that a list of entries stands for.
pub open spec fn entries_view(s: Seq<(String, Json)>) -> Map<Seq<char>, JsonView>
    decreases s,
{
    if s.len() == 0 {
        Map::empty()
    } else {
        entries_view(s.drop_first()).insert(s[0].0@, s[0].1@)
    }
}

/// The values of a list.
pub open spec fn items_view(s: Seq<Json>) -> Seq<JsonView> {
    Seq::new(s.len(), |i: int| s[i]@)
}

/// The value behind an optional reference.
pub open spec fn opt_view(o: Option<&Json>) -> Option<JsonView> {
    match o {
        Some(j) => Some(j@),
        None => None,
    }
}

/// The outcome of an operation that yields a value or an error text.
pub open spec fn result_view(r: Result<Json, String>) -> Result<JsonView, Seq<char>> {
    match r {
        Ok(j) => Ok(j@),
        Err(e) => Err(e@),
    }
}

impl Json {
    /// The value as a mathematical object.
    pub open spec fn view(&self) -> JsonView
        decreases self,
    {
        match *self {
            Json::Null => JsonView::Null,
            Json::Bool(b) => JsonView::Bool(b),
            Json::UInt(n) => JsonView::Int(n as int),
            Json::NegInt(n) => JsonView::Int(n as int),
            Json::Float(f) => JsonView::Float(f@),
            Json::Str(s) => JsonView::Str(s@),
            Json::Array(v) => JsonView::Array(
                Seq::new(
                    v@.len(),
                    |i: int|
                        if 0 <= i < v@.len() {
                            v@[i].view()
                        } else {
                            JsonView::Null
                        },
                ),
            ),
            Json::Object(v) => JsonView::Object(entries_view(v@)),
        }
    }
}

impl DeepView for Json {
    type V = JsonView;

    open spec fn deep_view(&self) -> JsonView {
        self@
    }
}

/// An array's value is the list of its items' values.
pub broadcast proof fn lemma_array_view(v: Vec<Json>)
    ensures
        #[trigger] Json::Array(v)@ == JsonView::Array(items_view(v@)),
{
    assert(Json::Array(v)@->Array_0 =~= items_view(v@));
}

/// Looking a key up among entries finds the first entry under it.
proof fn lemma_entry_found(s: Seq<(String, Json)>, i: int)
    requires
        0 <= i < s.len(),
        forall|k: int| 0 <= k < i ==> (#[trigger] s[k]).0@ != s[i].0@,
    ensures
        entries_view(s).contains_key(s[i].0@),
        entries_view(s)[s[i].0@] == s[i].1@,
    decreases i,
{
    if i > 0 {
        let t = s.drop_first();
        assert forall|k: int| 0 <= k < i - 1 implies (#[trigger] t[k]).0@ != t[i - 1].0@ by {
            assert(t[k] == s[k + 1]);
        }
        assert(s[0].0@ != s[i].0@);
        lemma_entry_found(t, i - 1);
        assert(t[i - 1] == s[i]);
    }
}

/// A key that no entry has is not found.
proof fn lemma_entry_missing(s: Seq<(String, Json)>, key: Seq<char>)
    requires
        forall|k: int| 0 <= k < s.len() ==> (#[trigger] s[k]).0@ != key,
    ensures
        !entries_view(s).contains_key(key),
    decreases s.len(),
{
    if s.len() > 0 {
        let t = s.drop_first();
        assert forall|k: int| 0 <= k < t.len() implies (#[trigger] t[k]).0@ != key by {
            assert(t[k] == s[k + 1]);
        }
        assert(s[0].0@ != key);
        lemma_entry_missing(t, key);
    }
}

/// Appending an entry adds a member unless the key was there.
proof fn lemma_entries_push(s: Seq<(String, Json)>, e: (String, Json))
    ensures
        entries_view(s.push(e)) == if entries_view(s).contains_key(e.0@) {
            entries_view(s)
        } else {
            entries_view(s).insert(e.0@, e.1@)
        },
    decreases s.len(),
{
    let p = s.push(e);
    if s.len() == 0 {
        assert(p.drop_first() =~= Seq::<(String, Json)>::empty());
        assert(entries_view(p.drop_first()) == Map::<Seq<char>, JsonView>::empty());
        assert(entries_view(p) =~= entries_view(s).insert(e.0@, e.1@));
    } else {
        assert(p.drop_first() =~= s.drop_first().push(e));
        lemma_entries_push(s.drop_first(), e);
        assert(p[0] == s[0]);
        if entries_view(s).contains_key(e.0@) {
            assert(entries_view(p) =~= entries_view(s));
        } else {
            assert(entries_view(p) =~= entries_view(s).insert(e.0@, e.1@));
        }
    }
}

/// Replacing the first entry under a key replaces the member.
proof fn lemma_entries_update(s: Seq<(String, Json)>, i: int, e: (String, Json))
    requires
        0 <= i < s.len(),
        s[i].0@ == e.0@,
        forall|k: int| 0 <= k < i ==> (#[trigger] s[k]).0@ != e.0@,
    ensures
        entries_view(s.update(i, e)) == entries_view(s).insert(e.0@, e.1@),
    decreases i,
{
    let u = s.update(i, e);
    if i == 0 {
        assert(u.drop_first() =~= s.drop_first());
        assert(entries_view(u) =~= entries_view(s).insert(e.0@, e.1@));
    } else {
        let t = s.drop_first();
        assert(u.drop_first() =~= t.update(i - 1, e));
        assert forall|k: int| 0 <= k < i - 1 implies (#[trigger] t[k]).0@ != e.0@ by {
            assert(t[k] == s[k + 1]);
        }
        lemma_entries_update(t, i - 1, e);
        assert(s[0].0@ != e.0@);
        assert(u[0] == s[0]);
        assert(entries_view(u) =~= entries_view(s).insert(e.0@, e.1@));
    }
}

/// An array is larger than each of its items.
proof fn lemma_item_decreases(json: Json, i: int)
    requires
        json is Array,
        0 <= i < json->Array_0@.len(),
    ensures
        (decreases_to!(json => json->Array_0@[i])),
{
    assert(decreases_to!(json => json->Array_0));
    assert(decreases_to!(json->Array_0 => json->Array_0@));
    assert(decreases_to!(json->Array_0@ => json->Array_0@[i]));
}

/// An object is larger than each of its members.
proof fn lemma_entry_decreases(json: Json, i: int)
    requires
        json is Object,
        0 <= i < json->Object_0@.len(),
    ensures
        (decreases_to!(json => json->Object_0@[i].1)),
{
    assert(decreases_to!(json => json->Object_0));
    assert(decreases_to!(json->Object_0 => json->Object_0@));
    assert(decreases_to!(json->Object_0@ => json->Object_0@[i]));
    assert(decreases_to!(json->Object_0@[i] => json->Object_0@[i].1));
}

/// The keys of the members are the keys of the entries.
pub proof fn lemma_entry_keys(s: Seq<(String, Json)>, key: Seq<char>)
    ensures
        entries_view(s).contains_key(key) <==> exists|j: int|
            0 <= j < s.len() && (#[trigger] s[j]).0@ == key,
    decreases s.len(),
{
    if s.len() > 0 {
        let t = s.drop_first();
        lemma_entry_keys(t, key);
        if entries_view(t).contains_key(key) {
            let j = choose|j: int| 0 <= j < t.len() && (#[trigger] t[j]).0@ == key;
            assert(s[j + 1].0@ == key);
        }
        if exists|j: int| 0 <= j < s.len() && (#[trigger] s[j]).0@ == key {
            let j = choose|j: int| 0 <= j < s.len() && (#[trigger] s[j]).0@ == key;
            if j > 0 {
                assert(t[j - 1].0@ == key);
            }
        }
    }
}

/// Where the first entry under a key is, or the number of entries.
fn entry_index(entries: &Vec<(String, Json)>, key: &str) -> (r: usize)
    ensures
        r <= entries@.len(),
        r < entries@.len() ==> entries@[r as int].0@ == key@,
        forall|k: int| 0 <= k < r ==> (#[trigger] entries@[k]).0@ != key@,
        r < entries@.len() <==> entries_view(entries@).contains_key(key@),
        r < entries@.len() ==> entries_view(entries@)[key@] == entries@[r as int].1@,
{
    let mut i: usize = 0;
    while i < entries.len()
        invariant
            i <= entries@.len(),
            forall|k: int| 0 <= k < i ==> (#[trigger] entries@[k]).0@ != key@,
        decreases entries@.len() - i,
    {
        if text::str_eq(entries[i].0.as_str(), key) {
            proof {
                lemma_entry_found(entries@, i as int);
            }
            return i;
        }
        i = i + 1;
    }
    proof {
        lemma_entry_missing(entries@, key@);
    }
    i
}

impl Json {
    /// A string value.
    pub fn string(s: &str) -> (r: Json)
        ensures
            r@ == JsonView::Str(s@),
    {
        Json::Str(s.to_string())
    }

    /// An integer value.
    pub fn integer(n: i64) -> (r: Json)
        ensures
            r@ == JsonView::Int(n as int),
    {
        if n >= 0 {
            Json::UInt(n as u64)
        } else {
            Json::NegInt(n)
        }
    }

    /// A string value, or null.
    pub fn of_option(s: &Option<String>) -> (r: Json)
        ensures
            r@ == opt_str_view(s.deep_view()),
    {
        match s {
            Some(t) => Json::string(t.as_str()),
            None => Json::Null,
        }
    }

    /// An array of values.
    pub fn array(items: Vec<Json>) -> (r: Json)
        ensures
            r@ == JsonView::Array(items_view(items@)),
    {
        broadcast use lemma_array_view;

        Json::Array(items)
    }

    /// An array of one value.
    pub fn array1(item: Json) -> (r: Json)
        ensures
            r@ == JsonView::Array(seq![item@]),
    {
        let mut items: Vec<Json> = Vec::new();
        items.push(item);
        assert(items_view(items@) =~= seq![item@]);
        Json::array(items)
    }

    /// An array of strings.
    pub fn string_array(list: &Vec<String>) -> (r: Json)
        ensures
            r@ == strings_view(list.deep_view()),
    {
        let mut items: Vec<Json> = Vec::new();
        let mut i: usize = 0;
        while i < list.len()
            invariant
                i <= list@.len(),
                items@.len() == i,
                forall|k: int| 0 <= k < i ==> (#[trigger] items@[k])@ == JsonView::Str(list@[k]@),
            decreases list@.len() - i,
        {
            items.push(Json::string(list[i].as_str()));
            i = i + 1;
        }
        assert(items_view(items@) =~= Seq::new(
            list.deep_view().len(),
            |k: int| JsonView::Str(list.deep_view()[k]),
        ));
        Json::array(items)
    }

    /// Whether the value is null.
    pub fn is_null(&self) -> (r: bool)
        ensures
            r == (self@ == JsonView::Null),
    {
        match self {
            Json::Null => true,
            _ => false,
        }
    }

    /// Whether the value is an array.
    pub fn is_array(&self) -> (r: bool)
        ensures
            r == (self@ is Array),
    {
        match self {
            Json::Array(_) => true,
            _ => false,
        }
    }

    /// The member of an object under a key.
    pub fn get(&self, key: &str) -> (r: Option<&Json>)
        ensures
            opt_view(r) == self@.get(key@),
            r matches Some(v) ==> (decreases_to!(*self => *v)),
    {
        match self {
            Json::Object(entries) => {
                let i: usize = entry_index(entries, key);
                if i < entries.len() {
                    proof {
                        lemma_entry_decreases(*self, i as int);
                    }
                    Some(&entries[i].1)
                } else {
                    None
                }
            },
            _ => None,
        }
    }

    /// A copy of the member of an object under a key, or null.
    pub fn at(&self, key: &str) -> (r: Json)
        ensures
            r@ == self@.at(key@),
    {
        match self.get(key) {
            Some(v) => v.copy(),
            None => Json::Null,
        }
    }

    /// The member of an object under a key, where it is there and not null.
    pub fn opt_at(&self, key: &str) -> (r: Option<&Json>)
        ensures
            opt_view(r) == self@.opt_at(key@),
            r matches Some(v) ==> (decreases_to!(*self => *v)),
    {
        match self.get(key) {
            Some(v) => if v.is_null() {
                None
            } else {
                Some(v)
            },
            None => None,
        }
    }

    /// The text of a string value.
    pub fn as_str(&self) -> (r: Option<&str>)
        ensures
            text::text_of(r) == self@.as_str(),
    {
        match self {
            Json::Str(s) => Some(s.as_str()),
            _ => None,
        }
    }

    /// The value of a boolean.
    pub fn as_bool(&self) -> (r: Option<bool>)
        ensures
            r == self@.as_bool(),
    {
        match self {
            Json::Bool(b) => Some(*b),
            _ => None,
        }
    }

    /// The value of an integer that fits in `u64`.
    pub fn as_u64(&self) -> (r: Option<u64>)
        ensures
            r == self@.as_u64(),
    {
        match self {
            Json::UInt(n) => Some(*n),
            Json::NegInt(n) => if *n >= 0 {
                Some(*n as u64)
            } else {
                None
            },
            _ => None,
        }
    }

    /// The value of an integer that fits in `i64`.
    pub fn as_i64(&self) -> (r: Option<i64>)
        ensures
            r == self@.as_i64(),
    {
        match self {
            Json::UInt(n) => if *n <= i64::MAX as u64 {
                Some(*n as i64)
            } else {
                None
            },
            Json::NegInt(n) => Some(*n),
            _ => None,
        }
    }

    /// The value of an integer that fits in `u32`.
    pub fn as_u32(&self) -> (r: Option<u32>)
        ensures
            r == self@.as_u32(),
    {
        match self.as_u64() {
            Some(n) => if n <= u32::MAX as u64 {
                Some(n as u32)
            } else {
                None
            },
            None => None,
        }
    }

    /// The items of an array.
    pub fn as_array(&self) -> (r: Option<&Vec<Json>>)
        ensures
            match r {
                Some(v) => self@ == JsonView::Array(items_view(v@)),
                None => self@.as_array() is None,
            },
            r matches Some(v) ==> (decreases_to!(*self => v@)),
    {
        broadcast use lemma_array_view;

        match self {
            Json::Array(v) => {
                assert(decreases_to!(*self => *v));
                assert(decreases_to!(*v => v@));
                Some(v)
            },
            _ => None,
        }
    }

    /// The text of the string member under a key.
    pub fn str_at(&self, key: &str) -> (r: Option<&str>)
        ensures
            text::text_of(r) == self@.at(key@).as_str(),
    {
        match self.get(key) {
            Some(v) => v.as_str(),
            None => None,
        }
    }

    /// The text of the string member under a key, or nothing.
    pub fn text_at(&self, key: &str) -> (r: String)
        ensures
            r@ == self@.at(key@).text(),
    {
        match self.str_at(key) {
            Some(s) => s.to_string(),
            None => String::new(),
        }
    }

    /// The text of the string member under a key, if there is one.
    pub fn string_at(&self, key: &str) -> (r: Option<String>)
        ensures
            r.deep_view() == self@.at(key@).as_str(),
    {
        match self.str_at(key) {
            Some(s) => Some(s.to_string()),
            None => None,
        }
    }

    /// The boolean member under a key.
    pub fn bool_at(&self, key: &str) -> (r: Option<bool>)
        ensures
            r == self@.at(key@).as_bool(),
    {
        match self.get(key) {
            Some(v) => v.as_bool(),
            None => None,
        }
    }

    /// The integer member under a key, where it fits in `u32`.
    pub fn u32_at(&self, key: &str) -> (r: Option<u32>)
        ensures
            r == self@.at(key@).as_u32(),
    {
        match self.get(key) {
            Some(v) => v.as_u32(),
            None => None,
        }
    }

    /// The integer member under a key, where it fits in `i64`.
    pub fn int_at(&self, key: &str) -> (r: Option<i64>)
        ensures
            r == self@.at(key@).as_i64(),
    {
        match self.get(key) {
            Some(v) => v.as_i64(),
            None => None,
        }
    }

    /// The integer member under a key, or zero where there is none that fits in
    /// `u32`.
    pub fn number_at(&self, key: &str) -> (r: u32)
        ensures
            r == self@.at(key@).u32(),
    {
        match self.u32_at(key) {
            Some(n) => n,
            None => 0,
        }
    }

    /// The items of the array member under a key.
    pub fn array_at(&self, key: &str) -> (r: Option<&Vec<Json>>)
        ensures
            match r {
                Some(v) => self@.at(key@) == JsonView::Array(items_view(v@)),
                None => self@.at(key@).as_array() is None,
            },
            r matches Some(v) ==> (decreases_to!(*self => v@)),
    {
        match self.get(key) {
            Some(v) => {
                let r = v.as_array();
                proof {
                    if let Some(items) = r {
                        assert(decreases_to!(*self => *v));
                        assert(decreases_to!(*v => items@));
                    }
                }
                r
            },
            None => None,
        }
    }

    /// A value that is the same as this one.
    pub fn copy(&self) -> (r: Json)
        ensures
            r@ == self@,
        decreases self,
    {
        broadcast use lemma_array_view;

        match self {
            Json::Null => Json::Null,
            Json::Bool(b) => Json::Bool(*b),
            Json::UInt(n) => Json::UInt(*n),
            Json::NegInt(n) => Json::NegInt(*n),
            Json::Float(f) => Json::Float(f.copy()),
            Json::Str(s) => Json::Str(s.clone()),
            Json::Array(items) => {
                let mut out: Vec<Json> = Vec::new();
                let mut i: usize = 0;
                while i < items.len()
                    invariant
                        *self == Json::Array(*items),
                        i <= items@.len(),
                        out@.len() == i,
                        forall|k: int| 0 <= k < i ==> (#[trigger] out@[k])@ == items@[k]@,
                    decreases items@.len() - i,
                {
                    proof {
                        lemma_item_decreases(*self, i as int);
                    }
                    out.push(items[i].copy());
                    i = i + 1;
                }
                assert(items_view(out@) =~= items_view(items@));
                Json::Array(out)
            },
            Json::Object(entries) => {
                let mut out: Vec<(String, Json)> = Vec::new();
                let mut i: usize = 0;
                while i < entries.len()
                    invariant
                        *self == Json::Object(*entries),
                        i <= entries@.len(),
                        entries_view(out@) == entries_view(entries@.take(i as int)),
                    decreases entries@.len() - i,
                {
                    proof {
                        lemma_entry_decreases(*self, i as int);
                    }
                    let e = (entries[i].0.clone(), entries[i].1.copy());
                    proof {
                        lemma_entries_push(out@, e);
                        lemma_entries_push(entries@.take(i as int), entries@[i as int]);
                        assert(entries@.take(i + 1) =~= entries@.take(i as int).push(
                            entries@[i as int],
                        ));
                    }
                    out.push(e);
                    i = i + 1;
                }
                assert(entries@.take(i as int) =~= entries@);
                Json::Object(out)
            },
        }
    }

    /// Lays one value over another.
    pub fn merge(&self, over: &Json) -> (r: Json)
        ensures
            r@ == merged(self@, over@),
        decreases self,
    {
        match (self, over) {
            (Json::Object(base), Json::Object(overrides)) => {
                let ghost b = entries_view(base@);
                let ghost o = entries_view(overrides@);
                let mut out: Vec<(String, Json)> = Vec::new();
                let mut i: usize = 0;
                assert(base@.take(0) =~= Seq::<(String, Json)>::empty());
                assert(entries_view(out@) =~= laid_over(entries_view(base@.take(0)), o));
                while i < base.len()
                    invariant
                        *self == Json::Object(*base),
                        *over == Json::Object(*overrides),
                        o == entries_view(overrides@),
                        i <= base@.len(),
                        entries_view(out@) == laid_over(entries_view(base@.take(i as int)), o),
                    decreases base@.len() - i,
                {
                    proof {
                        lemma_entry_decreases(*self, i as int);
                    }
                    let j: usize = entry_index(overrides, base[i].0.as_str());
                    let value = if j < overrides.len() {
                        base[i].1.merge(&overrides[j].1)
                    } else {
                        base[i].1.copy()
                    };
                    let e = (base[i].0.clone(), value);
                    proof {
                        lemma_entries_push(out@, e);
                        lemma_entries_push(base@.take(i as int), base@[i as int]);
                        assert(base@.take(i + 1) =~= base@.take(i as int).push(base@[i as int]));
                        assert(entries_view(out@.push(e)) =~= laid_over(
                            entries_view(base@.take(i + 1)),
                            o,
                        ));
                    }
                    out.push(e);
                    i = i + 1;
                }
                assert(base@.take(i as int) =~= base@);
                let ghost under = laid_over(b, o);
                let mut j: usize = 0;
                assert(overrides@.take(0) =~= Seq::<(String, Json)>::empty());
                assert(entries_view(out@) =~= or_else(under, entries_view(overrides@.take(0))));
                while j < overrides.len()
                    invariant
                        j <= overrides@.len(),
                        entries_view(out@) == or_else(
                            under,
                            entries_view(overrides@.take(j as int)),
                        ),
                    decreases overrides@.len() - j,
                {
                    let e = (overrides[j].0.clone(), overrides[j].1.copy());
                    proof {
                        lemma_entries_push(out@, e);
                        lemma_entries_push(overrides@.take(j as int), overrides@[j as int]);
                        assert(overrides@.take(j + 1) =~= overrides@.take(j as int).push(
                            overrides@[j as int],
                        ));
                        assert(entries_view(out@.push(e)) =~= or_else(
                            under,
                            entries_view(overrides@.take(j + 1)),
                        ));
                    }
                    out.push(e);
                    j = j + 1;
                }
                assert(overrides@.take(j as int) =~= overrides@);
                assert(entries_view(out@) =~= merged(self@, over@)->Object_0);
                Json::Object(out)
            },
            _ => over.copy(),
        }
    }
}

/// Whether a list holds the keys of a set, each once.
pub open spec fn arranges(keys: Seq<Seq<char>>, dom: Set<Seq<char>>) -> bool {
    &&& keys.no_duplicates()
    &&& forall|k: Seq<char>| #[trigger] keys.contains(k) <==> dom.contains(k)
}

impl Json {
    /// The keys of an object, each once.
    pub fn keys(&self) -> (r: Vec<String>)
        ensures
            arranges(r.deep_view(), self@.members().dom()),
    {
        let mut out: Vec<String> = Vec::new();
        if let Json::Object(entries) = self {
            let mut i: usize = 0;
            while i < entries.len()
                invariant
                    i <= entries@.len(),
                    out.deep_view().no_duplicates(),
                    forall|k: Seq<char>| #[trigger]
                        out.deep_view().contains(k) <==> exists|j: int|
                            0 <= j < i && (#[trigger] entries@[j]).0@ == k,
                decreases entries@.len() - i,
            {
                let ghost before = out.deep_view();
                let first: usize = entry_index(entries, entries[i].0.as_str());
                if first == i {
                    out.push(entries[i].0.clone());
                    assert(out.deep_view() =~= before.push(entries@[i as int].0@));
                    assert forall|k: Seq<char>| #[trigger]
                        out.deep_view().contains(k) <==> exists|j: int|
                            0 <= j < i + 1 && (#[trigger] entries@[j]).0@ == k by {
                        if out.deep_view().contains(k) {
                            let n = choose|n: int|
                                0 <= n < out.deep_view().len() && out.deep_view()[n] == k;
                            if n < before.len() {
                                assert(before[n] == k);
                                assert(before.contains(k));
                            } else {
                                assert(entries@[i as int].0@ == k);
                            }
                        }
                        if exists|j: int| 0 <= j < i + 1 && (#[trigger] entries@[j]).0@ == k {
                            let j = choose|j: int|
                                0 <= j < i + 1 && (#[trigger] entries@[j]).0@ == k;
                            if j < i {
                                assert(before.contains(k));
                                let n = choose|n: int| 0 <= n < before.len() && before[n] == k;
                                assert(out.deep_view()[n] == k);
                            } else {
                                assert(out.deep_view()[before.len() as int] == k);
                            }
                        }
                    }
                    assert(!before.contains(entries@[i as int].0@));
                }
                i = i + 1;
            }
            assert forall|k: Seq<char>| #[trigger]
                out.deep_view().contains(k) <==> self@.members().dom().contains(k) by {
                lemma_entry_keys(entries@, k);
            }
        }
        out
    }
}

/// An array of string values.
pub open spec fn strings_view(list: Seq<Seq<char>>) -> JsonView {
    JsonView::Array(Seq::new(list.len(), |k: int| JsonView::Str(list[k])))
}

/// The members of `b`, each with the member of `o` under the same key laid
/// over it.
spec fn laid_over(b: Map<Seq<char>, JsonView>, o: Map<Seq<char>, JsonView>) -> Map<
    Seq<char>,
    JsonView,
> {
    Map::new(
        |k: Seq<char>| b.contains_key(k),
        |k: Seq<char>|
            if o.contains_key(k) {
                merged(b[k], o[k])
            } else {
                b[k]
            },
    )
}

/// The members of `a`, and those of `b` whose keys `a` does not have.
spec fn or_else(a: Map<Seq<char>, JsonView>, b: Map<Seq<char>, JsonView>) -> Map<
    Seq<char>,
    JsonView,
> {
    Map::new(
        |k: Seq<char>| a.contains_key(k) || b.contains_key(k),
        |k: Seq<char>|
            if a.contains_key(k) {
                a[k]
            } else {
                b[k]
            },
    )
}

/// An object under construction.
pub struct Fields {
    pub entries: Vec<(String, Json)>,
}

impl Fields {
    /// The members put so far.
    pub open spec fn view(&self) -> Map<Seq<char>, JsonView> {
        entries_view(self.entries@)
    }

    /// No members.
    pub fn new() -> (r: Fields)
        ensures
            r@ == Map::<Seq<char>, JsonView>::empty(),
    {
        Fields { entries: Vec::new() }
    }

    /// Sets the member under a key.
    pub fn put(&mut self, key: &str, value: Json)
        ensures
            final(self)@ == old(self)@.insert(key@, value@),
    {
        let i: usize = entry_index(&self.entries, key);
        let e = (key.to_string(), value);
        if i < self.entries.len() {
            proof {
                lemma_entries_update(self.entries@, i as int, e);
            }
            self.entries[i] = e;
        } else {
            proof {
                lemma_entries_push(self.entries@, e);
            }
            self.entries.push(e);
        }
    }

    /// Whether there is no member under a key, or a null.
    pub fn lacks(&self, key: &str) -> (r: bool)
        ensures
            r == (JsonView::Object(self@).opt_at(key@) is None),
    {
        let i: usize = entry_index(&self.entries, key);
        i >= self.entries.len() || self.entries[i].1.is_null()
    }

    /// Sets the member under a key to a string.
    pub fn put_str(&mut self, key: &str, value: &str)
        ensures
            final(self)@ == old(self)@.insert(key@, JsonView::Str(value@)),
    {
        self.put(key, Json::string(value));
    }

    /// Sets the member under a key to a number.
    pub fn put_u64(&mut self, key: &str, value: u64)
        ensures
            final(self)@ == old(self)@.insert(key@, JsonView::Int(value as int)),
    {
        self.put(key, Json::UInt(value));
    }

    /// Sets the member under a key to a boolean.
    pub fn put_bool(&mut self, key: &str, value: bool)
        ensures
            final(self)@ == old(self)@.insert(key@, JsonView::Bool(value)),
    {
        self.put(key, Json::Bool(value));
    }

    /// The finished object.
    pub fn done(self) -> (r: Json)
        ensures
            r@ == JsonView::Object(self@),
    {
        Json::Object(self.entries)
    }
}

/// An object with one member.
pub fn object1(key: &str, value: Json) -> (r: Json)
    ensures
        r@ == JsonView::Object(map![key@ => value@]),
{
    let mut f = Fields::new();
    f.put(key, value);
    f.done()
}

// ---------------------------------------------------------------------------
// The boundary to serde_json
// ---------------------------------------------------------------------------

/// `serde_json::Value`, carried through without looking inside.
#[verifier::external_type_specification]
#[verifier::external_body]
pub struct ExValue(serde_json::Value);

/// The tree that a `serde_json::Value` holds.
pub uninterp spec fn value_contents(value: serde_json::Value) -> JsonView;

/// Takes a `serde_json::Value` apart, variant by variant. Integers keep their
/// value; any other number keeps the notation that `serde_json::Number` prints.
#[verifier::external_body]
pub(crate) fn json_of(value: serde_json::Value) -> (r: Json)
    ensures
        r@ == value_contents(value),
{
    match value {
        serde_json::Value::Null => Json::Null,
        serde_json::Value::Bool(b) => Json::Bool(b),
        serde_json::Value::Number(n) => match (n.as_u64(), n.as_i64()) {
            (Some(u), _) => Json::UInt(u),
            (_, Some(i)) => Json::NegInt(i),
            _ => Json::Float(Float { notation: n.to_string() }),
        },
        serde_json::Value::String(s) => Json::Str(s),
        serde_json::Value::Array(v) => Json::Array(v.into_iter().map(json_of).collect()),
        serde_json::Value::Object(m) => {
            Json::Object(m.into_iter().map(|(k, v)| (k, json_of(v))).collect())
        },
    }
}

/// Builds the `serde_json::Value` that holds a tree, variant by variant. A
/// `Float` only ever comes out of `json_of`, so its notation reads back as
/// the number that it was printed from. Members are collected last to first,
/// so that the first of two under one key stays.
#[verifier::external_body]
pub(crate) fn value_of(json: &Json) -> (r: serde_json::Value)
    ensures
        value_contents(r) == json@,
{
    match json {
        Json::Null => serde_json::Value::Null,
        Json::Bool(b) => serde_json::Value::from(*b),
        Json::UInt(n) => serde_json::Value::from(*n),
        Json::NegInt(n) => serde_json::Value::from(*n),
        Json::Float(f) => f.notation.parse().ok().and_then(serde_json::Number::from_f64).into(),
        Json::Str(s) => serde_json::Value::from(s.as_str()),
        Json::Array(v) => v.iter().map(value_of).collect(),
        Json::Object(m) => m.iter().rev().map(|(k, v)| (k.clone(), value_of(v))).collect(),
    }
}

/// What `serde_json` makes of a document: the value, or why there is none.
pub uninterp spec fn json_parsed(bytes: Seq<u8>) -> Result<JsonView, Seq<char>>;

/// The outcome of an operation of `serde_json` that yields a value.
pub open spec fn value_result(r: Result<serde_json::Value, String>) -> Result<
    JsonView,
    Seq<char>,
> {
    match r {
        Ok(v) => Ok(value_contents(v)),
        Err(e) => Err(e@),
    }
}

/// `serde_json::from_slice` reads a document. Its outcome depends on the bytes
/// alone.
#[verifier::external_body]
fn value_from_slice(bytes: &[u8]) -> (r: Result<serde_json::Value, String>)
    ensures
        value_result(r) == json_parsed(bytes@),
{
    serde_json::from_slice(bytes).map_err(|e| e.to_string())
}

/// The compact text that `serde_json` writes for a value.
pub uninterp spec fn json_text(value: JsonView) -> Seq<char>;

/// How deep lists and objects may lie inside each other for `serde_json` to read
/// them.
pub const MAX_LEVELS: u64 = 127;

/// Whether a text is some digits with a point among them.
pub open spec fn is_pointed(t: Seq<char>) -> bool {
    exists|point: int|
        0 < point < t.len() - 1 && #[trigger] t[point] == '.' && forall|i: int|
            0 <= i < t.len() && i != point ==> text::is_digit(#[trigger] t[i])
}

/// Whether the notation of a number has a point among at most fifteen digits,
/// and no exponent. `serde_json` reads such a number exactly.
pub open spec fn is_short_fraction(s: Seq<char>) -> bool {
    if s.len() > 0 && s[0] == '-' {
        s.len() <= 17 && is_pointed(s.skip(1))
    } else {
        s.len() <= 16 && is_pointed(s)
    }
}

/// Whether the fractions of a value are short, and lists and objects lie no
/// deeper inside each other than some levels.
pub open spec fn readable(value: JsonView, levels: int) -> bool
    decreases levels,
{
    match value {
        JsonView::Float(s) => is_short_fraction(s),
        JsonView::Array(s) => levels > 0 && forall|i: int|
            0 <= i < s.len() ==> readable(#[trigger] s[i], levels - 1),
        JsonView::Object(m) => levels > 0 && forall|k: Seq<char>| #[trigger]
            m.contains_key(k) ==> readable(m[k], levels - 1),
        _ => true,
    }
}

/// Whether a text is read as a value, where the value can be read at all.
pub open spec fn reads_back(s: Seq<char>, value: JsonView) -> bool {
    readable(value, MAX_LEVELS as int) ==> json_parsed(encode_utf8(s)) == Ok::<
        JsonView,
        Seq<char>,
    >(value)
}

/// `Display` of `serde_json::Value` writes a value as compact JSON text. What
/// it writes depends on the tree alone, and `serde_json::from_slice` reads it
/// back as the same tree. A fraction is written in the shortest notation that
/// stands for it; with at most fifteen digits and no exponent, the digits and
/// the power of ten by which they are divided are exact, and so the fraction is
/// read back. That is not said of longer fractions, which may be read back less
/// precisely, nor of values that lie deeper than what it reads.
#[verifier::external_body]
fn value_to_text(value: &serde_json::Value) -> (r: String)
    ensures
        r@ == json_text(value_contents(*value)),
        reads_back(r@, value_contents(*value)),
{
    value.to_string()
}

impl Json {
    /// The tree that a value of `serde_json` holds.
    pub fn from_value(value: serde_json::Value) -> (r: Json)
        ensures
            r@ == value_contents(value),
    {
        json_of(value)
    }

    /// Reads a JSON document.
    pub fn parse(bytes: &[u8]) -> (r: Result<Json, String>)
        ensures
            result_view(r) == json_parsed(bytes@),
    {
        match value_from_slice(bytes) {
            Ok(v) => Ok(Json::from_value(v)),
            Err(e) => Err(e),
        }
    }

    /// Writes the value as compact JSON text. Reading the text gives the value
    /// back, where its fractions are short and it does not lie too deep.
    pub fn render(&self) -> (r: String)
        ensures
            r@ == json_text(self@),
            reads_back(r@, self@),
    {
        value_to_text(&value_of(self))
    }
}

// ---------------------------------------------------------------------------
// Laws of merging
// ---------------------------------------------------------------------------

/// Under a key that only one of two objects has, their merge has the same value;
/// under a key that both have, it has the merge of the two values.
pub proof fn law_merge_prefers_overrides(base: JsonView, over: JsonView, key: Seq<char>)
    requires
        base is Object,
        over is Object,
    ensures
        over.get(key) matches Some(o) ==> merged(base, over).get(key) == Some(
            match base.get(key) {
                Some(b) => merged(b, o),
                None => o,
            },
        ),
        over.get(key) is None ==> merged(base, over).get(key) == base.get(key),
{
}

/// Laying a value over null, or over itself, gives the value.
pub proof fn law_merge_identity(v: JsonView)
    ensures
        merged(JsonView::Null, v) == v,
        merged(v, v) == v,
    decreases v,
{
    if let JsonView::Object(m) = v {
        assert forall|k: Seq<char>| m.contains_key(k) implies merged(m[k], m[k]) == m[k] by {
            law_merge_identity(m[k]);
        }
        assert(merged(v, v)->Object_0 =~= m);
    }
}

/// Applying the same overrides twice changes nothing the second time.
pub proof fn law_merge_idempotent(base: JsonView, over: JsonView)
    ensures
        merged(merged(base, over), over) == merged(base, over),
    decreases base,
{
    match (base, over) {
        (JsonView::Object(b), JsonView::Object(o)) => {
            let once = merged(base, over);
            assert forall|k: Seq<char>| #[trigger] once->Object_0.contains_key(k) implies merged(
                once,
                over,
            )->Object_0[k] == once->Object_0[k] by {
                if o.contains_key(k) {
                    if b.contains_key(k) {
                        law_merge_idempotent(b[k], o[k]);
                    } else {
                        law_merge_identity(o[k]);
                    }
                }
            }
            assert(merged(once, over)->Object_0 =~= once->Object_0);
        },
        _ => {
            law_merge_identity(over);
        },
    }
}

} // verus!
