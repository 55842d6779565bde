//! JSON values.
use vstd::prelude::*;

verus! {

/// A JSON number: an integer in the range of `u64` or `i64`, or a finite double.
#[derive(Clone, Copy, Debug)]
pub enum Number {
    /// An integer from zero up.
    PosInt(u64),
    /// An integer below zero.
    NegInt(i64),
    /// The bit pattern of a finite double.
    Float(u64),
}

/// A JSON value. The entries of an object keep their order; a key stands for its first entry.
#[derive(Debug)]
pub enum Json {
    Null,
    Bool(bool),
    Number(Number),
    String(String),
    Array(Vec<Json>),
    Object(Vec<(String, Json)>),
}

/// A JSON value as a mathematical value: strings and lists as sequences.
#[verifier::ext_equal]
pub enum JsonView {
    Null,
    Bool(bool),
    Number(Number),
    String(Seq<char>),
    Array(Seq<JsonView>),
    Object(Seq<(Seq<char>, JsonView)>),
}

/// The mathematical value that `json` stands for.
pub open spec fn json_view(json: Json) -> JsonView
    decreases json,
{
    match json {
        Json::Null => JsonView::Null,
        Json::Bool(flag) => JsonView::Bool(flag),
        Json::Number(number) => JsonView::Number(number),
        Json::String(text) => JsonView::String(text@),
        Json::Array(items) => JsonView::Array(
            Seq::new(
                items@.len(),
                |i: int|
                    if 0 <= i < items@.len() {
                        json_view(items@[i])
                    } else {
                        JsonView::Null
                    },
            ),
        ),
        Json::Object(entries) => JsonView::Object(
            Seq::new(
                entries@.len(),
                |i: int|
                    if 0 <= i < entries@.len() {
                        (entries@[i].0@, json_view(entries@[i].1))
                    } else {
                        (Seq::empty(), JsonView::Null)
                    },
            ),
        ),
    }
}

impl View for Json {
    type V = JsonView;

    open spec fn view(&self) -> JsonView {
        json_view(*self)
    }
}

/// The items of an array, each as a mathematical value.
pub open spec fn item_views(items: Seq<Json>) -> Seq<JsonView> {
    Seq::new(items.len(), |i: int| items[i]@)
}

/// The entries of an object, each as a mathematical value.
pub open spec fn entry_views(entries: Seq<(String, Json)>) -> Seq<(Seq<char>, JsonView)> {
    Seq::new(entries.len(), |i: int| (entries[i].0@, entries[i].1@))
}

/// The view of an optional JSON value.
pub open spec fn option_view(value: Option<Json>) -> Option<JsonView> {
    match value {
        Some(value) => Some(value@),
        None => None,
    }
}

/// The view of an array is the array of the views of its items.
pub proof fn array_view(items: Vec<Json>)
    ensures
        Json::Array(items)@ == JsonView::Array(item_views(items@)),
{
    assert(Json::Array(items)@->Array_0 =~= item_views(items@));
}

/// The view of an object is the object of the views of its entries.
pub proof fn object_view(entries: Vec<(String, Json)>)
    ensures
        Json::Object(entries)@ == JsonView::Object(entry_views(entries@)),
{
    assert(Json::Object(entries)@->Object_0 =~= entry_views(entries@));
}

/// Appending an item appends its view.
pub proof fn lemma_push_item(items: Seq<Json>, item: Json)
    ensures
        item_views(items.push(item)) == item_views(items).push(item@),
{
    assert(item_views(items.push(item)) =~= item_views(items).push(item@));
}

/// Appending an entry appends its view.
pub proof fn lemma_push_entry(entries: Seq<(String, Json)>, entry: (String, Json))
    ensures
        entry_views(entries.push(entry)) == entry_views(entries).push((entry.0@, entry.1@)),
{
    assert(entry_views(entries.push(entry)) =~= entry_views(entries).push((entry.0@, entry.1@)));
}

/// Whether the bits are those of positive or negative zero.
pub open spec fn is_zero_bits(bits: u64) -> bool {
    bits == 0 || bits == 0x8000_0000_0000_0000
}

/// When two numbers are equal: in the same form, with the same value. The two zeros are equal.
pub open spec fn number_equal(a: Number, b: Number) -> bool {
    match (a, b) {
        (Number::PosInt(x), Number::PosInt(y)) => x == y,
        (Number::NegInt(x), Number::NegInt(y)) => x == y,
        (Number::Float(x), Number::Float(y)) => x == y || (is_zero_bits(x) && is_zero_bits(y)),
        _ => false,
    }
}

/// Whether entry `i` is the first with the given key.
pub open spec fn is_first_entry(entries: Seq<(Seq<char>, JsonView)>, key: Seq<char>, i: int) -> bool {
    &&& 0 <= i < entries.len()
    &&& entries[i].0 == key
    &&& forall|j: int| 0 <= j < i ==> (#[trigger] entries[j]).0 != key
}

/// The place of the first entry with the given key.
pub open spec fn entry_index(entries: Seq<(Seq<char>, JsonView)>, key: Seq<char>) -> Option<int> {
    if exists|i: int| is_first_entry(entries, key, i) {
        Some(choose|i: int| is_first_entry(entries, key, i))
    } else {
        None
    }
}

/// The value that an object has under a key.
pub open spec fn entry_value(entries: Seq<(Seq<char>, JsonView)>, key: Seq<char>) -> Option<JsonView> {
    match entry_index(entries, key) {
        Some(i) => Some(entries[i].1),
        None => None,
    }
}

/// When two JSON values are equal. The order of the entries of an object does not matter.
pub open spec fn json_equal(a: JsonView, b: JsonView) -> bool
    decreases a,
{
    match (a, b) {
        (JsonView::Null, JsonView::Null) => true,
        (JsonView::Bool(x), JsonView::Bool(y)) => x == y,
        (JsonView::Number(x), JsonView::Number(y)) => number_equal(x, y),
        (JsonView::String(x), JsonView::String(y)) => x == y,
        (JsonView::Array(xs), JsonView::Array(ys)) => xs.len() == ys.len() && forall|i: int|
            0 <= i < xs.len() ==> json_equal(#[trigger] xs[i], ys[i]),
        (JsonView::Object(xs), JsonView::Object(ys)) => xs.len() == ys.len() && forall|i: int|
            0 <= i < xs.len() ==> match entry_value(ys, (#[trigger] xs[i]).0) {
                Some(y) => json_equal(xs[i].1, y),
                None => false,
            },
        _ => false,
    }
}

/// The place of the first entry with a key, once it is known.
pub proof fn lemma_entry_index(entries: Seq<(Seq<char>, JsonView)>, key: Seq<char>, i: int)
    requires
        is_first_entry(entries, key, i),
    ensures
        entry_index(entries, key) == Some(i),
{
    let found = choose|j: int| is_first_entry(entries, key, j);
    assert(is_first_entry(entries, key, found));
    if found < i {
        assert(entries[found].0 != key);
    } else if i < found {
        assert(entries[i].0 != key);
    }
}

/// An object has no value under a key that no entry has.
pub proof fn lemma_no_entry(entries: Seq<(Seq<char>, JsonView)>, key: Seq<char>)
    requires
        forall|j: int| 0 <= j < entries.len() ==> (#[trigger] entries[j]).0 != key,
    ensures
        entry_index(entries, key) is None,
{
    if exists|i: int| is_first_entry(entries, key, i) {
        let found = choose|i: int| is_first_entry(entries, key, i);
        assert(entries[found].0 != key);
    }
}

/// The place of the first entry with the given key.
pub fn find_entry(entries: &Vec<(String, Json)>, key: &String) -> (place: Option<usize>)
    ensures
        match place {
            Some(i) => entry_index(entry_views(entries@), key@) == Some(i as int) && i
                < entries.len(),
            None => entry_index(entry_views(entries@), key@) is None,
        },
{
    let ghost views = entry_views(entries@);
    let mut i: usize = 0;
    while i < entries.len()
        invariant
            i <= entries.len(),
            views == entry_views(entries@),
            forall|j: int| 0 <= j < i ==> (#[trigger] views[j]).0 != key@,
        decreases entries.len() - i,
    {
        assert(views[i as int].0 == entries@[i as int].0@);
        if entries[i].0 == *key {
            proof {
                lemma_entry_index(views, key@, i as int);
            }
            return Some(i);
        }
        i += 1;
    }
    proof {
        lemma_no_entry(views, key@);
    }
    None
}

impl Json {
    /// A second copy of the value.
    pub fn copy(&self) -> (other: Json)
        ensures
            other@ == self@,
        decreases self,
    {
        match self {
            Json::Null => Json::Null,
            Json::Bool(flag) => Json::Bool(*flag),
            Json::Number(number) => Json::Number(*number),
            Json::String(text) => Json::String(text.clone()),
            Json::Array(items) => {
                let mut copied: Vec<Json> = Vec::new();
                let mut i: usize = 0;
                while i < items.len()
                    invariant
                        i <= items.len(),
                        *self == Json::Array(*items),
                        item_views(copied@) == item_views(items@).take(i as int),
                    decreases items.len() - i,
                {
                    proof {
                        assert(decreases_to!(*self => (*self)->Array_0));
                        assert(decreases_to!(items@ => items@[i as int]));
                        assert(item_views(items@).take(i + 1) =~= item_views(items@).take(
                            i as int,
                        ).push(items@[i as int]@));
                    }
                    let item: Json = items[i].copy();
                    proof {
                        lemma_push_item(copied@, item);
                    }
                    copied.push(item);
                    i += 1;
                }
                assert(item_views(copied@) =~= item_views(items@));
                proof {
                    array_view(copied);
                    array_view(*items);
                }
                Json::Array(copied)
            },
            Json::Object(entries) => {
                let mut copied: Vec<(String, Json)> = Vec::new();
                let mut i: usize = 0;
                while i < entries.len()
                    invariant
                        i <= entries.len(),
                        *self == Json::Object(*entries),
                        entry_views(copied@) == entry_views(entries@).take(i as int),
                    decreases entries.len() - i,
                {
                    proof {
                        assert(decreases_to!(*self => (*self)->Object_0));
                        assert(decreases_to!(entries@ => entries@[i as int]));
                        assert(decreases_to!(entries@[i as int] => entries@[i as int].1));
                        assert(entry_views(entries@).take(i + 1) =~= entry_views(entries@).take(
                            i as int,
                        ).push((entries@[i as int].0@, entries@[i as int].1@)));
                    }
                    let entry: (String, Json) = (entries[i].0.clone(), entries[i].1.copy());
                    proof {
                        lemma_push_entry(copied@, entry);
                    }
                    copied.push(entry);
                    i += 1;
                }
                assert(entry_views(copied@) =~= entry_views(entries@));
                proof {
                    object_view(copied);
                    object_view(*entries);
                }
                Json::Object(copied)
            },
        }
    }
}

/// An object with two entries.
pub fn object2(first: &str, one: Json, second: &str, two: Json) -> (object: Json)
    ensures
        object@ == JsonView::Object(seq![(first@, one@), (second@, two@)]),
{
    let mut entries: Vec<(String, Json)> = Vec::new();
    entries.push((first.to_owned(), one));
    entries.push((second.to_owned(), two));
    proof {
        object_view(entries);
        assert(entry_views(entries@) =~= seq![(first@, one@), (second@, two@)]);
    }
    Json::Object(entries)
}

/// An object with three entries.
pub fn object3(
    first: &str,
    one: Json,
    second: &str,
    two: Json,
    third: &str,
    three: Json,
) -> (object: Json)
    ensures
        object@ == JsonView::Object(seq![(first@, one@), (second@, two@), (third@, three@)]),
{
    let mut entries: Vec<(String, Json)> = Vec::new();
    entries.push((first.to_owned(), one));
    entries.push((second.to_owned(), two));
    entries.push((third.to_owned(), three));
    proof {
        object_view(entries);
        assert(entry_views(entries@) =~= seq![(first@, one@), (second@, two@), (third@, three@)]);
    }
    Json::Object(entries)
}

/// Whether the bits are those of positive or negative zero.
fn zero_bits(bits: u64) -> (zero: bool)
    ensures
        zero == is_zero_bits(bits),
{
    bits == 0 || bits == 0x8000_0000_0000_0000
}

/// Whether two numbers are equal.
fn same_number(a: Number, b: Number) -> (same: bool)
    ensures
        same == number_equal(a, b),
{
    match (a, b) {
        (Number::PosInt(x), Number::PosInt(y)) => x == y,
        (Number::NegInt(x), Number::NegInt(y)) => x == y,
        (Number::Float(x), Number::Float(y)) => x == y || (zero_bits(x) && zero_bits(y)),
        _ => false,
    }
}

/// Whether two JSON values are equal.
pub fn same_json(a: &Json, b: &Json) -> (same: bool)
    ensures
        same == json_equal(a@, b@),
    decreases a,
{
    match (a, b) {
        (Json::Null, Json::Null) => true,
        (Json::Bool(x), Json::Bool(y)) => *x == *y,
        (Json::Number(x), Json::Number(y)) => same_number(*x, *y),
        (Json::String(x), Json::String(y)) => *x == *y,
        (Json::Array(xs), Json::Array(ys)) => {
            proof {
                array_view(*xs);
                array_view(*ys);
            }
            if xs.len() != ys.len() {
                return false;
            }
            let mut i: usize = 0;
            while i < xs.len()
                invariant
                    i <= xs.len(),
                    xs.len() == ys.len(),
                    *a == Json::Array(*xs),
                    a@ == JsonView::Array(item_views(xs@)),
                    b@ == JsonView::Array(item_views(ys@)),
                    forall|j: int|
                        0 <= j < i ==> json_equal(
                            #[trigger] item_views(xs@)[j],
                            item_views(ys@)[j],
                        ),
                decreases xs.len() - i,
            {
                proof {
                    assert(decreases_to!(*a => (*a)->Array_0));
                    assert(decreases_to!(xs@ => xs@[i as int]));
                }
                if !same_json(&xs[i], &ys[i]) {
                    assert(!json_equal(item_views(xs@)[i as int], item_views(ys@)[i as int]));
                    return false;
                }
                i += 1;
            }
            true
        },
        (Json::Object(xs), Json::Object(ys)) => {
            proof {
                object_view(*xs);
                object_view(*ys);
            }
            if xs.len() != ys.len() {
                return false;
            }
            let ghost left = entry_views(xs@);
            let ghost right = entry_views(ys@);
            let mut i: usize = 0;
            while i < xs.len()
                invariant
                    i <= xs.len(),
                    xs.len() == ys.len(),
                    *a == Json::Object(*xs),
                    left == entry_views(xs@),
                    right == entry_views(ys@),
                    a@ == JsonView::Object(left),
                    b@ == JsonView::Object(right),
                    forall|j: int|
                        0 <= j < i ==> match entry_value(right, (#[trigger] left[j]).0) {
                            Some(y) => json_equal(left[j].1, y),
                            None => false,
                        },
                decreases xs.len() - i,
            {
                proof {
                    assert(decreases_to!(*a => (*a)->Object_0));
                    assert(decreases_to!(xs@ => xs@[i as int]));
                    assert(decreases_to!(xs@[i as int] => xs@[i as int].1));
                    assert(left[i as int] == (xs@[i as int].0@, xs@[i as int].1@));
                }
                match find_entry(ys, &xs[i].0) {
                    None => {
                        return false;
                    },
                    Some(k) => {
                        assert(right[k as int].1 == ys@[k as int].1@);
                        if !same_json(&xs[i].1, &ys[k].1) {
                            return false;
                        }
                    },
                }
                i += 1;
            }
            true
        },
        _ => false,
    }
}

/// When two values are equal, part by part: texts character by character, arrays item by item,
/// objects key by key, and numbers in the same form, where the two zeros are one.
pub proof fn equality_by_parts(a: JsonView, b: JsonView)
    ensures
        match (a, b) {
            (JsonView::Null, JsonView::Null) => json_equal(a, b),
            (JsonView::Bool(x), JsonView::Bool(y)) => json_equal(a, b) == (x == y),
            (JsonView::String(x), JsonView::String(y)) => json_equal(a, b) == (x == y),
            (JsonView::Number(Number::PosInt(x)), JsonView::Number(Number::PosInt(y))) => json_equal(
                a,
                b,
            ) == (x == y),
            (JsonView::Number(Number::NegInt(x)), JsonView::Number(Number::NegInt(y))) => json_equal(
                a,
                b,
            ) == (x == y),
            (JsonView::Number(Number::Float(x)), JsonView::Number(Number::Float(y))) => json_equal(
                a,
                b,
            ) == (x == y || (x == 0 && y == 0x8000_0000_0000_0000) || (x == 0x8000_0000_0000_0000
                && y == 0)),
            (JsonView::Array(xs), JsonView::Array(ys)) => json_equal(a, b) == (xs.len() == ys.len()
                && forall|i: int| 0 <= i < xs.len() ==> json_equal(#[trigger] xs[i], ys[i])),
            (JsonView::Object(xs), JsonView::Object(ys)) => json_equal(a, b) == (xs.len()
                == ys.len() && forall|i: int|
                0 <= i < xs.len() ==> match entry_value(ys, (#[trigger] xs[i]).0) {
                    Some(y) => json_equal(xs[i].1, y),
                    None => false,
                }),
            _ => !json_equal(a, b),
        },
{
}

/// The value of an object under a key is that of the first entry with the key.
pub proof fn first_entry_counts(entries: Seq<(Seq<char>, JsonView)>, key: Seq<char>, i: int)
    ensures
        0 <= i < entries.len() && entries[i].0 == key && (forall|j: int|
            0 <= j < i ==> (#[trigger] entries[j]).0 != key) ==> entry_value(entries, key) == Some(
            entries[i].1,
        ),
        (forall|j: int| 0 <= j < entries.len() ==> (#[trigger] entries[j]).0 != key)
            ==> entry_value(entries, key) is None,
{
    if 0 <= i < entries.len() && entries[i].0 == key && (forall|j: int|
        0 <= j < i ==> (#[trigger] entries[j]).0 != key) {
        lemma_entry_index(entries, key, i);
    }
    if forall|j: int| 0 <= j < entries.len() ==> (#[trigger] entries[j]).0 != key {
        lemma_no_entry(entries, key);
    }
}

} // verus!
