//! Values that are written to the editor or read from a server, item by item.

use vstd::prelude::*;

use crate::json;
use crate::json::{Fields, Json, JsonView};

verus! {

/// A value that is written to the editor as JSON.
pub trait Wire: DeepView {
    /// The JSON form of a value.
    spec fn wire(v: Self::V) -> JsonView;

    /// Writes the value as JSON.
    fn to_json(&self) -> (r: Json)
        ensures
            r@ == Self::wire(self.deep_view()),
    ;
}

/// A value that is read out of a server's message, after the message was
/// decoded and written back in the protocol's own form.
pub trait FromLsp: DeepView + Sized {
    /// The value that a JSON value stands for.
    spec fn lsp(j: JsonView) -> Self::V;

    /// Reads a value.
    fn from_lsp(j: &Json) -> (r: Self)
        ensures
            r.deep_view() == Self::lsp(j@),
    ;
}

/// The JSON form of a list.
pub open spec fn wire_list<T: Wire>(list: Seq<T::V>) -> JsonView {
    JsonView::Array(Seq::new(list.len(), |i: int| T::wire(list[i])))
}

/// The values that a list stands for.
pub open spec fn lsp_list<T: FromLsp>(items: Seq<JsonView>) -> Seq<T::V> {
    Seq::new(items.len(), |i: int| T::lsp(items[i]))
}

/// The outcome of an operation, over the models of its values.
pub open spec fn outcome<T: DeepView>(r: Result<T, String>) -> Result<T::V, Seq<char>> {
    match r {
        Ok(v) => Ok(v.deep_view()),
        Err(e) => Err(e@),
    }
}

/// The values that an answer stands for, given what the answer was read as.
pub open spec fn list_outcome<T: FromLsp>(decoded: Result<JsonView, Seq<char>>) -> Result<
    Seq<T::V>,
    Seq<char>,
> {
    match decoded {
        Ok(list) => Ok(lsp_list::<T>(list.items())),
        Err(e) => Err(e),
    }
}

/// Takes the values of an answer.
pub fn take_list<T: FromLsp>(decoded: Result<Json, String>) -> (r: Result<Vec<T>, String>)
    ensures
        outcome(r) == list_outcome::<T>(json::result_view(decoded)),
{
    match decoded {
        Ok(list) => Ok(read_items(&list)),
        Err(e) => Err(e),
    }
}

/// Writes a list as JSON.
pub fn list_json<T: Wire>(list: &Vec<T>) -> (r: Json)
    ensures
        r@ == wire_list::<T>(list.deep_view()),
{
    let mut items: Vec<Json> = Vec::new();
    let mut i: usize = 0;
    while i < list.len()
        invariant
            i <= list@.len(),
            items@.len() == i,
            forall|k: int|
                0 <= k < i ==> (#[trigger] items@[k])@ == T::wire(list@[k].deep_view()),
        decreases list@.len() - i,
    {
        items.push(list[i].to_json());
        i = i + 1;
    }
    assert(json::items_view(items@) =~= Seq::new(
        list.deep_view().len(),
        |k: int| T::wire(list.deep_view()[k]),
    ));
    Json::array(items)
}

/// Reads a list.
pub fn read_list<T: FromLsp>(items: &Vec<Json>) -> (r: Vec<T>)
    ensures
        r.deep_view() == lsp_list::<T>(json::items_view(items@)),
{
    let mut out: Vec<T> = Vec::new();
    let mut i: usize = 0;
    while i < items.len()
        invariant
            i <= items@.len(),
            out@.len() == i,
            forall|k: int| 0 <= k < i ==> (#[trigger] out@[k]).deep_view() == T::lsp(items@[k]@),
        decreases items@.len() - i,
    {
        out.push(T::from_lsp(&items[i]));
        i = i + 1;
    }
    assert(out.deep_view() =~= lsp_list::<T>(json::items_view(items@)));
    out
}

/// Reads the items of an array, or none where the value is no array.
pub fn read_items<T: FromLsp>(j: &Json) -> (r: Vec<T>)
    ensures
        r.deep_view() == lsp_list::<T>(j@.items()),
{
    match j.as_array() {
        Some(items) => read_list(items),
        None => {
            let out: Vec<T> = Vec::new();
            assert(out.deep_view() =~= lsp_list::<T>(j@.items()));
            out
        },
    }
}

/// Reads the items of the array member under a key, or none.
pub fn read_items_at<T: FromLsp>(j: &Json, key: &str) -> (r: Vec<T>)
    ensures
        r.deep_view() == lsp_list::<T>(j@.at(key@).items()),
{
    match j.get(key) {
        Some(v) => read_items(v),
        None => {
            let out: Vec<T> = Vec::new();
            assert(out.deep_view() =~= lsp_list::<T>(j@.at(key@).items()));
            out
        },
    }
}

// ---------------------------------------------------------------------------
// Members that are left out when there is nothing to say
// ---------------------------------------------------------------------------

/// An object's members with one more, where there is a text.
pub open spec fn with_opt_str(
    m: Map<Seq<char>, JsonView>,
    key: Seq<char>,
    value: Option<Seq<char>>,
) -> Map<Seq<char>, JsonView> {
    match value {
        Some(s) => m.insert(key, JsonView::Str(s)),
        None => m,
    }
}

/// An object's members with one more, where there is a number.
pub open spec fn with_opt_u32(
    m: Map<Seq<char>, JsonView>,
    key: Seq<char>,
    value: Option<u32>,
) -> Map<Seq<char>, JsonView> {
    match value {
        Some(n) => m.insert(key, JsonView::Int(n as int)),
        None => m,
    }
}

/// An object's members with one more, where there is a truth value.
pub open spec fn with_opt_bool(
    m: Map<Seq<char>, JsonView>,
    key: Seq<char>,
    value: Option<bool>,
) -> Map<Seq<char>, JsonView> {
    match value {
        Some(b) => m.insert(key, JsonView::Bool(b)),
        None => m,
    }
}

impl Fields {
    /// Sets a member to a text, where there is one.
    pub fn put_opt_str(&mut self, key: &str, value: &Option<String>)
        ensures
            final(self)@ == with_opt_str(old(self)@, key@, value.deep_view()),
    {
        if let Some(s) = value {
            self.put_str(key, s.as_str());
        }
    }

    /// Sets a member to a number, where there is one.
    pub fn put_opt_u32(&mut self, key: &str, value: Option<u32>)
        ensures
            final(self)@ == with_opt_u32(old(self)@, key@, value),
    {
        if let Some(n) = value {
            self.put_u64(key, n as u64);
        }
    }

    /// Sets a member to a truth value, where there is one.
    pub fn put_opt_bool(&mut self, key: &str, value: Option<bool>)
        ensures
            final(self)@ == with_opt_bool(old(self)@, key@, value),
    {
        if let Some(b) = value {
            self.put_bool(key, b);
        }
    }
}

} // verus!
