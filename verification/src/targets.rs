//! Where target paths point, and what the built-in backend does there.
use vstd::prelude::*;

use crate::backend::{
    leaves, leaves_entries, leaves_or_null, removes, sanitized, sanitized_entries, sanitizes,
    sanitizes_text, BackendView,
};
use crate::decimal::{decimal, decimal_has_no_slash, decimal_is_injective, position_of};
use crate::json::{
    entry_index, entry_value, is_first_entry, json_equal, lemma_entry_index, lemma_no_entry,
    JsonView,
};
use crate::laws::what_is_removed;
use crate::mask::{DetectorMasks, MaskModel};
use crate::place::{child, lemma_key_present, replaced_at, value_at, with_child, with_entry};
use crate::pointer::{
    escape_is_injective, escaped, escaped_has_no_slash, rendered, rendered_is_injective,
};

verus! {

/// Whether no two entries have the same key.
pub open spec fn distinct_keys(entries: Seq<(Seq<char>, JsonView)>) -> bool {
    forall|i: int, j: int|
        0 <= i < j < entries.len() ==> (#[trigger] entries[i]).0 != (#[trigger] entries[j]).0
}

/// Whether no object in a value has two entries with the same key.
pub open spec fn unique_keys(value: JsonView) -> bool
    decreases value,
{
    match value {
        JsonView::Array(items) => forall|i: int|
            0 <= i < items.len() ==> unique_keys(#[trigger] items[i]),
        JsonView::Object(entries) => distinct_keys(entries) && forall|i: int|
            0 <= i < entries.len() ==> unique_keys((#[trigger] entries[i]).1),
        _ => true,
    }
}

/// A value with unique keys is equal to itself.
pub proof fn value_equals_itself(value: JsonView)
    requires
        unique_keys(value),
    ensures
        json_equal(value, value),
    decreases value,
{
    match value {
        JsonView::Array(items) => {
            assert forall|i: int| 0 <= i < items.len() implies json_equal(
                #[trigger] items[i],
                items[i],
            ) by {
                value_equals_itself(items[i]);
            }
        },
        JsonView::Object(entries) => {
            assert forall|i: int| 0 <= i < entries.len() implies (match entry_value(
                entries,
                (#[trigger] entries[i]).0,
            ) {
                Some(found) => json_equal(entries[i].1, found),
                None => false,
            }) by {
                assert(is_first_entry(entries, entries[i].0, i));
                lemma_entry_index(entries, entries[i].0, i);
                assert(decreases_to!(value => value->Object_0));
                assert(decreases_to!(entries => entries[i]));
                assert(decreases_to!(entries[i] => entries[i].1));
                value_equals_itself(entries[i].1);
            }
        },
        _ => {},
    }
}

/// The segment of a pointer that leads from a value to its child under a key.
pub open spec fn segment_of(value: JsonView, key: Seq<char>) -> Seq<char> {
    match value {
        JsonView::Array(_) => match position_of(key) {
            Some(i) => decimal(i as nat),
            None => key,
        },
        _ => escaped(key),
    }
}

/// The segments of the pointer to the value at the end of a path.
pub open spec fn pointer_to(value: JsonView, keys: Seq<Seq<char>>) -> Seq<Seq<char>>
    decreases keys.len(),
{
    if keys.len() == 0 {
        Seq::empty()
    } else {
        match child(value, keys[0]) {
            Some(next) => seq![segment_of(value, keys[0])] + pointer_to(next, keys.skip(1)),
            None => Seq::empty(),
        }
    }
}

/// The entries with what is left of each value; an entry of which nothing is left is gone.
pub open spec fn kept_entries(
    entries: Seq<(Seq<char>, JsonView)>,
    left: Seq<Option<JsonView>>,
) -> Seq<(Seq<char>, JsonView)>
    decreases entries.len(),
{
    if entries.len() == 0 {
        Seq::empty()
    } else {
        let front = kept_entries(entries.drop_last(), left.drop_last());
        match left.last() {
            Some(value) => front.push((entries.last().0, value)),
            None => front,
        }
    }
}

/// Every entry that is kept has the key of an entry that was there, and what is left of its value.
proof fn lemma_kept_origin(
    entries: Seq<(Seq<char>, JsonView)>,
    left: Seq<Option<JsonView>>,
    j: int,
) -> (i: int)
    requires
        left.len() == entries.len(),
        0 <= j < kept_entries(entries, left).len(),
    ensures
        0 <= i < entries.len(),
        kept_entries(entries, left)[j].0 == entries[i].0,
        left[i] == Some(kept_entries(entries, left)[j].1),
    decreases entries.len(),
{
    let front = kept_entries(entries.drop_last(), left.drop_last());
    if j < front.len() {
        lemma_kept_origin(entries.drop_last(), left.drop_last(), j)
    } else {
        entries.len() - 1
    }
}

/// The first entry with a key stays the first when an entry is appended.
proof fn lemma_entry_stays(
    entries: Seq<(Seq<char>, JsonView)>,
    entry: (Seq<char>, JsonView),
    key: Seq<char>,
)
    requires
        entry.0 != key,
    ensures
        entry_value(entries.push(entry), key) == entry_value(entries, key),
{
    let more = entries.push(entry);
    match entry_index(entries, key) {
        Some(i) => {
            assert(is_first_entry(entries, key, i));
            assert(is_first_entry(more, key, i));
            lemma_entry_index(more, key, i);
        },
        None => {
            if exists|i: int| is_first_entry(more, key, i) {
                let i = choose|i: int| is_first_entry(more, key, i);
                assert(more[i].0 == key);
                assert(i < entries.len());
                assert forall|j: int| 0 <= j < i implies (#[trigger] entries[j]).0 != key by {
                    assert(more[j] == entries[j]);
                }
                assert(is_first_entry(entries, key, i));
                assert(false);
            }
        },
    }
}

/// Of entries with distinct keys, a key has what is left of its value, and the keys stay distinct.
proof fn lemma_kept(
    entries: Seq<(Seq<char>, JsonView)>,
    left: Seq<Option<JsonView>>,
    key: Seq<char>,
)
    requires
        distinct_keys(entries),
        left.len() == entries.len(),
    ensures
        distinct_keys(kept_entries(entries, left)),
        entry_value(kept_entries(entries, left), key) == match entry_index(entries, key) {
            Some(i) => left[i],
            None => None,
        },
    decreases entries.len(),
{
    let kept = kept_entries(entries, left);
    if entries.len() == 0 {
        lemma_no_entry(entries, key);
        lemma_no_entry(kept, key);
    } else {
        let front = entries.drop_last();
        let front_left = left.drop_last();
        let before = kept_entries(front, front_left);
        let last = entries.len() - 1;
        assert forall|a: int, b: int| 0 <= a < b < front.len() implies (#[trigger] front[a]).0 != (
        #[trigger] front[b]).0 by {
            assert(front[a] == entries[a]);
            assert(front[b] == entries[b]);
        }
        lemma_kept(front, front_left, key);
        assert forall|j: int| 0 <= j < before.len() implies (#[trigger] before[j]).0
            != entries[last].0 by {
            let i = lemma_kept_origin(front, front_left, j);
            assert(front[i] == entries[i]);
        }
        if left.last() is Some {
            assert forall|a: int, b: int| 0 <= a < b < kept.len() implies (#[trigger] kept[a]).0 != (
            #[trigger] kept[b]).0 by {
                assert(kept[a] == before[a]);
                if b < before.len() {
                    assert(kept[b] == before[b]);
                }
            }
        }
        if key == entries[last].0 {
            assert forall|j: int| 0 <= j < last implies (#[trigger] entries[j]).0 != key by {}
            assert(is_first_entry(entries, key, last));
            lemma_entry_index(entries, key, last);
            match left.last() {
                Some(value) => {
                    let place = before.len() as int;
                    assert forall|j: int| 0 <= j < place implies (#[trigger] kept[j]).0 != key by {
                        assert(kept[j] == before[j]);
                    }
                    assert(is_first_entry(kept, key, place));
                    lemma_entry_index(kept, key, place);
                },
                None => {
                    lemma_no_entry(kept, key);
                },
            }
        } else {
            match entry_index(front, key) {
                Some(i) => {
                    assert(is_first_entry(front, key, i));
                    assert forall|j: int| 0 <= j < i implies (#[trigger] entries[j]).0 != key by {
                        assert(front[j] == entries[j]);
                    }
                    assert(is_first_entry(entries, key, i));
                    lemma_entry_index(entries, key, i);
                },
                None => {
                    assert forall|j: int| 0 <= j < entries.len() implies (#[trigger] entries[j]).0
                        != key by {
                        if j < last && entries[j].0 == key {
                            assert(front[j] == entries[j]);
                            lemma_key_present(front, key, j);
                        }
                    }
                    lemma_no_entry(entries, key);
                },
            }
            match left.last() {
                Some(value) => lemma_entry_stays(before, (entries[last].0, value), key),
                None => {},
            }
        }
    }
}

/// What is left of each value of the entries of an object.
proof fn lemma_left_of_entries<M: DetectorMasks>(
    backend: BackendView,
    masks: M,
    entries: Seq<(Seq<char>, JsonView)>,
    path: Seq<Seq<char>>,
    kept: Seq<(Seq<char>, JsonView)>,
) -> (left: Seq<Option<JsonView>>)
    requires
        leaves_entries(backend, masks, entries, path, kept),
    ensures
        left.len() == entries.len(),
        kept == kept_entries(entries, left),
        forall|i: int|
            0 <= i < entries.len() ==> leaves(
                backend,
                masks,
                (#[trigger] entries[i]).1,
                path.push(escaped(entries[i].0)),
                left[i],
            ),
    decreases entries.len(),
{
    if entries.len() == 0 {
        assert(kept =~= Seq::empty());
        Seq::empty()
    } else {
        let (key, value) = entries.last();
        let front = entries.drop_last();
        let below = path.push(escaped(key));
        let gone = leaves(backend, masks, value, below, None) && leaves_entries(
            backend,
            masks,
            front,
            path,
            kept,
        );
        let before = if gone {
            kept
        } else {
            kept.drop_last()
        };
        let last = if gone {
            None
        } else {
            Some(kept.last().1)
        };
        let most = lemma_left_of_entries(backend, masks, front, path, before);
        let left = most.push(last);
        assert(left.drop_last() =~= most);
        assert(kept =~= kept_entries(entries, left));
        assert forall|i: int| 0 <= i < entries.len() implies leaves(
            backend,
            masks,
            (#[trigger] entries[i]).1,
            path.push(escaped(entries[i].0)),
            left[i],
        ) by {
            if i < front.len() {
                assert(front[i] == entries[i]);
                assert(left[i] == most[i]);
            }
        }
        left
    }
}

/// What is left of an array that is not removed: an array of the same length, with what is left of
/// each item in its place, or null.
pub proof fn array_by_its_items<M: DetectorMasks>(
    backend: BackendView,
    masks: M,
    items: Seq<JsonView>,
    path: Seq<Seq<char>>,
    left: Option<JsonView>,
)
    requires
        leaves(backend, masks, JsonView::Array(items), path, left),
        !(backend.action is Remove && backend.target_paths.contains(rendered(path))),
    ensures
        left matches Some(JsonView::Array(kept)) && kept.len() == items.len() && forall|i: int|
            0 <= i < items.len() ==> leaves(
                backend,
                masks,
                #[trigger] items[i],
                path.push(decimal(i as nat)),
                Some(kept[i]),
            ) || (kept[i] is Null && leaves(
                backend,
                masks,
                items[i],
                path.push(decimal(i as nat)),
                None,
            )),
{
}

/// What is left of an object that is not removed: an object with distinct keys, which has under a
/// key what is left of the value that was there, and nothing under any other key.
pub proof fn object_by_its_entries<M: DetectorMasks>(
    backend: BackendView,
    masks: M,
    entries: Seq<(Seq<char>, JsonView)>,
    path: Seq<Seq<char>>,
    left: Option<JsonView>,
    key: Seq<char>,
)
    requires
        distinct_keys(entries),
        leaves(backend, masks, JsonView::Object(entries), path, left),
        !(backend.action is Remove && backend.target_paths.contains(rendered(path))),
    ensures
        left matches Some(JsonView::Object(kept)) && distinct_keys(kept) && match entry_value(
            entries,
            key,
        ) {
            Some(value) => leaves(
                backend,
                masks,
                value,
                path.push(escaped(key)),
                entry_value(kept, key),
            ),
            None => entry_value(kept, key) is None,
        },
{
    let kept = left->Some_0->Object_0;
    let values = lemma_left_of_entries(backend, masks, entries, path, kept);
    lemma_kept(entries, values, key);
    match entry_index(entries, key) {
        Some(i) => {
            assert(is_first_entry(entries, key, i));
            assert(leaves(
                backend,
                masks,
                entries[i].1,
                path.push(escaped(entries[i].0)),
                values[i],
            ));
        },
        None => {},
    }
}

/// The entries that are left are those with what is left of each value.
proof fn lemma_sanitized_entries(
    backend: BackendView,
    model: MaskModel,
    entries: Seq<(Seq<char>, JsonView)>,
    path: Seq<Seq<char>>,
)
    ensures
        sanitized_entries(backend, model, entries, path) == kept_entries(
            entries,
            Seq::new(
                entries.len(),
                |i: int| sanitized(backend, model, entries[i].1, path.push(escaped(entries[i].0))),
            ),
        ),
    decreases entries.len(),
{
    if entries.len() > 0 {
        let front = entries.drop_last();
        lemma_sanitized_entries(backend, model, front, path);
        let left = Seq::new(
            entries.len(),
            |i: int| sanitized(backend, model, entries[i].1, path.push(escaped(entries[i].0))),
        );
        let most = Seq::new(
            front.len(),
            |i: int| sanitized(backend, model, front[i].1, path.push(escaped(front[i].0))),
        );
        assert(left.drop_last() =~= most);
    }
}

/// What is left of an object that is not removed, where `model` gives the default masks: an object
/// that has under a key what is left of the value that was there, and nothing under any other key.
pub proof fn sanitized_object(
    backend: BackendView,
    model: MaskModel,
    entries: Seq<(Seq<char>, JsonView)>,
    path: Seq<Seq<char>>,
    key: Seq<char>,
)
    requires
        distinct_keys(entries),
        !removes(backend, path),
    ensures
        sanitized(backend, model, JsonView::Object(entries), path) matches Some(
            JsonView::Object(kept),
        ) && distinct_keys(kept) && entry_value(kept, key) == match entry_value(entries, key) {
            Some(value) => sanitized(backend, model, value, path.push(escaped(key))),
            None => None,
        },
{
    lemma_sanitized_entries(backend, model, entries, path);
    let left = Seq::new(
        entries.len(),
        |i: int| sanitized(backend, model, entries[i].1, path.push(escaped(entries[i].0))),
    );
    lemma_kept(entries, left, key);
    match entry_index(entries, key) {
        Some(i) => {
            assert(is_first_entry(entries, key, i));
        },
        None => {},
    }
}

/// The child of what is left of a value: what is left of its child.
proof fn lemma_child_left<M: DetectorMasks>(
    backend: BackendView,
    masks: M,
    value: JsonView,
    path: Seq<Seq<char>>,
    left: JsonView,
    key: Seq<char>,
)
    requires
        unique_keys(value),
        child(value, key) is Some,
        leaves(backend, masks, value, path, Some(left)),
    ensures
        unique_keys(child(value, key)->Some_0),
        ({
            let next = child(value, key)->Some_0;
            let below = path.push(segment_of(value, key));
            match value {
                JsonView::Array(_) => child(left, key) matches Some(kept) && leaves_or_null(
                    backend,
                    masks,
                    next,
                    below,
                    kept,
                ),
                _ => leaves(backend, masks, next, below, child(left, key)),
            }
        }),
{
    match value {
        JsonView::Array(items) => {
            array_by_its_items(backend, masks, items, path, Some(left));
            let i = position_of(key)->Some_0;
            assert(child(value, key) == Some(items[i as int]));
        },
        JsonView::Object(entries) => {
            object_by_its_entries(backend, masks, entries, path, Some(left), key);
            let i = entry_index(entries, key)->Some_0;
            assert(is_first_entry(entries, key, i));
        },
        _ => {},
    }
}

/// What is left of the text at the end of a path, by an action that does not remove: the text as
/// the action makes it where a target path points at it, and the text as it is anywhere else.
pub proof fn each_text_by_its_path<M: DetectorMasks>(
    backend: BackendView,
    masks: M,
    value: JsonView,
    keys: Seq<Seq<char>>,
    text: Seq<char>,
    left: JsonView,
)
    requires
        !(backend.action is Remove),
        unique_keys(value),
        value_at(value, keys) == Some(JsonView::String(text)),
        sanitizes(backend, masks, value, left),
    ensures
        value_at(left, keys) matches Some(JsonView::String(output)) && if backend.target_paths.len()
            == 0 || backend.target_paths.contains(rendered(pointer_to(value, keys))) {
            sanitizes_text(backend.action, masks, text, Some(output))
        } else {
            output == text
        },
{
    lemma_text_below(backend, masks, value, Seq::empty(), keys, text, left);
    assert(Seq::empty() + pointer_to(value, keys) =~= pointer_to(value, keys));
}

/// What is left of the text at the end of a path that starts below the top.
proof fn lemma_text_below<M: DetectorMasks>(
    backend: BackendView,
    masks: M,
    value: JsonView,
    path: Seq<Seq<char>>,
    keys: Seq<Seq<char>>,
    text: Seq<char>,
    left: JsonView,
)
    requires
        !(backend.action is Remove),
        unique_keys(value),
        value_at(value, keys) == Some(JsonView::String(text)),
        leaves_or_null(backend, masks, value, path, left),
    ensures
        value_at(left, keys) matches Some(JsonView::String(output)) && if backend.target_paths.len()
            == 0 || backend.target_paths.contains(rendered(path + pointer_to(value, keys))) {
            sanitizes_text(backend.action, masks, text, Some(output))
        } else {
            output == text
        },
    decreases keys.len(),
{
    if leaves(backend, masks, value, path, None) {
        what_is_removed(backend, masks, value, path, None);
    }
    if keys.len() == 0 {
        assert(path + pointer_to(value, keys) =~= path);
    } else {
        let key = keys[0];
        let next = child(value, key)->Some_0;
        let below = path.push(segment_of(value, key));
        lemma_child_left(backend, masks, value, path, left, key);
        if leaves(backend, masks, next, below, None) {
            what_is_removed(backend, masks, next, below, None);
        }
        let kept = child(left, key)->Some_0;
        lemma_text_below(backend, masks, next, below, keys.skip(1), text, kept);
        assert(path + pointer_to(value, keys) =~= below + pointer_to(next, keys.skip(1)));
    }
}

/// What a target path points at is gone when the action removes, and so is every text where there
/// are no target paths. The whole value is null, and an
/// entry of an object is not there. An item of an array is null, unless the array is gone too.
pub proof fn targeted_value_is_removed<M: DetectorMasks>(
    backend: BackendView,
    masks: M,
    value: JsonView,
    keys: Seq<Seq<char>>,
    left: JsonView,
)
    requires
        backend.action is Remove,
        unique_keys(value),
        value_at(value, keys) is Some,
        backend.target_paths.contains(rendered(pointer_to(value, keys))) || (
        backend.target_paths.len() == 0 && value_at(value, keys)->Some_0 is String),
        sanitizes(backend, masks, value, left),
    ensures
        keys.len() == 0 ==> left is Null,
        keys.len() > 0 ==> match value_at(value, keys.drop_last()) {
            Some(JsonView::Object(_)) => value_at(left, keys) is None,
            _ => match value_at(left, keys.drop_last()) {
                Some(JsonView::Array(_)) => value_at(left, keys) == Some(JsonView::Null),
                _ => value_at(left, keys) is None,
            },
        },
{
    assert(Seq::empty() + pointer_to(value, keys) =~= pointer_to(value, keys));
    if keys.len() == 0 {
        if leaves(backend, masks, value, Seq::empty(), Some(left)) {
            what_is_removed(backend, masks, value, Seq::empty(), Some(left));
        }
    } else {
        lemma_removed_below(backend, masks, value, Seq::empty(), keys, left);
    }
}

/// What a target path points at below the top is gone when the action removes.
proof fn lemma_removed_below<M: DetectorMasks>(
    backend: BackendView,
    masks: M,
    value: JsonView,
    path: Seq<Seq<char>>,
    keys: Seq<Seq<char>>,
    left: JsonView,
)
    requires
        backend.action is Remove,
        unique_keys(value),
        keys.len() > 0,
        value_at(value, keys) is Some,
        backend.target_paths.contains(rendered(path + pointer_to(value, keys))) || (
        backend.target_paths.len() == 0 && value_at(value, keys)->Some_0 is String),
        leaves_or_null(backend, masks, value, path, left),
    ensures
        match value_at(value, keys.drop_last()) {
            Some(JsonView::Object(_)) => value_at(left, keys) is None,
            _ => match value_at(left, keys.drop_last()) {
                Some(JsonView::Array(_)) => value_at(left, keys) == Some(JsonView::Null),
                _ => value_at(left, keys) is None,
            },
        },
    decreases keys.len(),
{
    if leaves(backend, masks, value, path, Some(left)) {
        let key = keys[0];
        let next = child(value, key)->Some_0;
        let below = path.push(segment_of(value, key));
        lemma_child_left(backend, masks, value, path, left, key);
        assert(path + pointer_to(value, keys) =~= below + pointer_to(next, keys.skip(1)));
        if keys.len() == 1 {
            assert(keys.skip(1) =~= Seq::empty());
            assert(keys.drop_last() =~= Seq::empty());
            assert(below + pointer_to(next, keys.skip(1)) =~= below);
            reveal_with_fuel(value_at, 2);
            assert(value_at(value, keys) == Some(next));
            if leaves(backend, masks, next, below, child(left, key)) {
                what_is_removed(backend, masks, next, below, child(left, key));
            }
        } else {
            assert(keys.drop_last()[0] == key);
            assert(keys.drop_last().skip(1) =~= keys.skip(1).drop_last());
            match child(left, key) {
                Some(kept) => lemma_removed_below(
                    backend,
                    masks,
                    next,
                    below,
                    keys.skip(1),
                    kept,
                ),
                None => {},
            }
        }
    }
}

/// What is no target of removing stays: a value that is no array and no object is left as it was,
/// where the list of target paths holds the pointer to it at no point of the way, unless it is a
/// text and the action changes texts there.
pub proof fn what_is_no_target_stays<M: DetectorMasks>(
    backend: BackendView,
    masks: M,
    value: JsonView,
    keys: Seq<Seq<char>>,
    left: JsonView,
)
    requires
        unique_keys(value),
        value_at(value, keys) is Some,
        !(value_at(value, keys)->Some_0 is Array) && !(value_at(value, keys)->Some_0 is Object),
        value_at(value, keys)->Some_0 is String ==> backend.target_paths.len() > 0
            && !backend.target_paths.contains(rendered(pointer_to(value, keys))),
        backend.action is Remove ==> forall|n: int|
            0 <= n <= keys.len() ==> !backend.target_paths.contains(
                rendered(#[trigger] pointer_to(value, keys).take(n)),
            ),
        sanitizes(backend, masks, value, left),
    ensures
        value_at(left, keys) == value_at(value, keys),
{
    assert(Seq::empty() + pointer_to(value, keys) =~= pointer_to(value, keys));
    assert forall|n: int| 0 <= n <= keys.len() && backend.action is Remove implies
        !backend.target_paths.contains(
        rendered(#[trigger] (Seq::empty() + pointer_to(value, keys).take(n))),
    ) by {
        assert(Seq::empty() + pointer_to(value, keys).take(n) =~= pointer_to(value, keys).take(n));
    }
    lemma_stays_below(backend, masks, value, Seq::empty(), keys, left);
}

/// What is no target of removing stays below the top.
proof fn lemma_stays_below<M: DetectorMasks>(
    backend: BackendView,
    masks: M,
    value: JsonView,
    path: Seq<Seq<char>>,
    keys: Seq<Seq<char>>,
    left: JsonView,
)
    requires
        unique_keys(value),
        value_at(value, keys) is Some,
        !(value_at(value, keys)->Some_0 is Array) && !(value_at(value, keys)->Some_0 is Object),
        value_at(value, keys)->Some_0 is String ==> backend.target_paths.len() > 0
            && !backend.target_paths.contains(rendered(path + pointer_to(value, keys))),
        forall|n: int|
            0 <= n <= keys.len() && backend.action is Remove ==> !backend.target_paths.contains(
                rendered(#[trigger] (path + pointer_to(value, keys).take(n))),
            ),
        leaves_or_null(backend, masks, value, path, left),
    ensures
        value_at(left, keys) == value_at(value, keys),
    decreases keys.len(),
{
    let pointer = pointer_to(value, keys);
    assert(path + pointer.take(0) =~= path);
    if leaves(backend, masks, value, path, None) {
        what_is_removed(backend, masks, value, path, None);
    }
    if keys.len() == 0 {
        assert(path + pointer =~= path);
    } else {
        let key = keys[0];
        let next = child(value, key)->Some_0;
        let below = path.push(segment_of(value, key));
        let rest = pointer_to(next, keys.skip(1));
        assert(value is Array || value is Object);
        lemma_child_left(backend, masks, value, path, left, key);
        assert(pointer == seq![segment_of(value, key)] + rest);
        assert(path + pointer =~= below + rest);
        lemma_pointer_len(next, keys.skip(1));
        assert forall|n: int|
            0 <= n <= keys.skip(1).len() && backend.action is Remove implies
            !backend.target_paths.contains(rendered(#[trigger] (below + rest.take(n)))) by {
            assert(path + pointer.take(n + 1) =~= below + rest.take(n));
        }
        assert(below + rest.take(0) =~= below);
        assert(backend.action is Remove ==> !backend.target_paths.contains(
            rendered(below + rest.take(0)),
        ));
        let kept = child(left, key);
        if leaves(backend, masks, next, below, None) {
            what_is_removed(backend, masks, next, below, None);
            assert(next is String);
            assert(keys.skip(1).len() == 0);
        }
        lemma_stays_below(backend, masks, next, below, keys.skip(1), kept->Some_0);
    }
}

/// The pointer to a value has as many segments as the path to it.
proof fn lemma_pointer_len(value: JsonView, keys: Seq<Seq<char>>)
    requires
        value_at(value, keys) is Some,
    ensures
        pointer_to(value, keys).len() == keys.len(),
    decreases keys.len(),
{
    if keys.len() > 0 {
        lemma_pointer_len(child(value, keys[0])->Some_0, keys.skip(1));
    }
}

/// Sanitizing keeps the keys of every object unique.
pub proof fn keys_stay_unique<M: DetectorMasks>(
    backend: BackendView,
    masks: M,
    value: JsonView,
    path: Seq<Seq<char>>,
    left: JsonView,
)
    requires
        unique_keys(value),
        leaves_or_null(backend, masks, value, path, left),
    ensures
        unique_keys(left),
    decreases value,
{
    if leaves(backend, masks, value, path, Some(left)) {
        match value {
            JsonView::Array(items) => {
                let kept = left->Array_0;
                assert forall|i: int| 0 <= i < kept.len() implies unique_keys(#[trigger] kept[i]) by {
                    let below = path.push(decimal(i as nat));
                    assert(unique_keys(items[i]));
                    assert(leaves_or_null(backend, masks, items[i], below, kept[i]));
                    keys_stay_unique(backend, masks, items[i], below, kept[i]);
                }
                assert(unique_keys(JsonView::Array(kept)));
            },
            JsonView::Object(entries) => {
                let kept = left->Object_0;
                let values = lemma_left_of_entries(backend, masks, entries, path, kept);
                lemma_kept(entries, values, Seq::empty());
                assert forall|j: int| 0 <= j < kept.len() implies unique_keys(
                    (#[trigger] kept[j]).1,
                ) by {
                    let i = lemma_kept_origin(entries, values, j);
                    assert(unique_keys(entries[i].1));
                    assert(decreases_to!(value => value->Object_0));
                    assert(decreases_to!(entries => entries[i]));
                    assert(decreases_to!(entries[i] => entries[i].1));
                    keys_stay_unique(
                        backend,
                        masks,
                        entries[i].1,
                        path.push(escaped(entries[i].0)),
                        kept[j].1,
                    );
                }
                assert(unique_keys(JsonView::Object(kept)));
            },
            _ => {},
        }
    }
}

/// No segment of a pointer to a value holds a slash.
proof fn lemma_no_slash(value: JsonView, keys: Seq<Seq<char>>)
    requires
        value_at(value, keys) is Some,
    ensures
        forall|i: int|
            0 <= i < pointer_to(value, keys).len() ==> !(#[trigger] pointer_to(
                value,
                keys,
            )[i]).contains('/'),
        pointer_to(value, keys).len() == keys.len(),
    decreases keys.len(),
{
    if keys.len() > 0 {
        let next = child(value, keys[0])->Some_0;
        let segment = segment_of(value, keys[0]);
        lemma_no_slash(next, keys.skip(1));
        let rest = pointer_to(next, keys.skip(1));
        match value {
            JsonView::Array(_) => decimal_has_no_slash(position_of(keys[0])->Some_0 as nat),
            _ => escaped_has_no_slash(keys[0]),
        }
        assert forall|i: int|
            0 <= i < pointer_to(value, keys).len() implies !(#[trigger] pointer_to(
            value,
            keys,
        )[i]).contains('/') by {
            if i > 0 {
                assert(pointer_to(value, keys)[i] == rest[i - 1]);
            }
        }
    }
}

/// Two paths with the same segments lead to the same value.
proof fn lemma_same_segments(value: JsonView, a: Seq<Seq<char>>, b: Seq<Seq<char>>)
    requires
        value_at(value, a) is Some,
        value_at(value, b) is Some,
        pointer_to(value, a) == pointer_to(value, b),
    ensures
        value_at(value, a) == value_at(value, b),
    decreases a.len(),
{
    lemma_no_slash(value, a);
    lemma_no_slash(value, b);
    if a.len() > 0 {
        let first = pointer_to(value, a);
        let second = pointer_to(value, b);
        assert(segment_of(value, a[0]) == first[0]);
        assert(segment_of(value, b[0]) == second[0]);
        match value {
            JsonView::Array(_) => decimal_is_injective(
                position_of(a[0])->Some_0,
                position_of(b[0])->Some_0,
            ),
            _ => escape_is_injective(a[0], b[0]),
        }
        let next = child(value, a[0])->Some_0;
        assert(pointer_to(next, a.skip(1)) =~= first.skip(1));
        assert(pointer_to(next, b.skip(1)) =~= second.skip(1));
        lemma_same_segments(next, a.skip(1), b.skip(1));
    }
}

/// A target path points at no more than one value.
pub proof fn pointer_leads_to_one_value(value: JsonView, a: Seq<Seq<char>>, b: Seq<Seq<char>>)
    requires
        value_at(value, a) is Some,
        value_at(value, b) is Some,
        rendered(pointer_to(value, a)) == rendered(pointer_to(value, b)),
    ensures
        value_at(value, a) == value_at(value, b),
{
    lemma_no_slash(value, a);
    lemma_no_slash(value, b);
    rendered_is_injective(pointer_to(value, a), pointer_to(value, b));
    lemma_same_segments(value, a, b);
}

/// Setting a child keeps the keys of every object unique.
proof fn lemma_child_keeps_unique(value: JsonView, key: Seq<char>, new: JsonView)
    requires
        unique_keys(value),
        unique_keys(new),
    ensures
        with_child(value, key, new) matches Some(changed) ==> unique_keys(changed),
{
    match value {
        JsonView::Array(items) => match position_of(key) {
            Some(i) => if i < items.len() {
                let changed = items.update(i as int, new);
                assert forall|j: int| 0 <= j < changed.len() implies unique_keys(
                    #[trigger] changed[j],
                ) by {
                    if j != i {
                        assert(changed[j] == items[j]);
                    }
                }
                assert(unique_keys(JsonView::Array(changed)));
            },
            None => {},
        },
        JsonView::Object(entries) => {
            let changed = with_entry(entries, key, new);
            match entry_index(entries, key) {
                Some(i) => {
                    assert(is_first_entry(entries, key, i));
                    assert forall|a: int, b: int| 0 <= a < b < changed.len() implies (
                    #[trigger] changed[a]).0 != (#[trigger] changed[b]).0 by {
                        assert(changed[a].0 == entries[a].0);
                        assert(changed[b].0 == entries[b].0);
                    }
                    assert forall|j: int| 0 <= j < changed.len() implies unique_keys(
                        (#[trigger] changed[j]).1,
                    ) by {
                        if j != i {
                            assert(changed[j] == entries[j]);
                        }
                    }
                },
                None => {
                    assert forall|a: int, b: int| 0 <= a < b < changed.len() implies (
                    #[trigger] changed[a]).0 != (#[trigger] changed[b]).0 by {
                        assert(changed[a] == entries[a]);
                        if b < entries.len() {
                            assert(changed[b] == entries[b]);
                        } else if entries[a].0 == key {
                            lemma_key_present(entries, key, a);
                        }
                    }
                    assert forall|j: int| 0 <= j < changed.len() implies unique_keys(
                        (#[trigger] changed[j]).1,
                    ) by {
                        if j < entries.len() {
                            assert(changed[j] == entries[j]);
                        }
                    }
                },
            }
            assert(unique_keys(JsonView::Object(changed)));
        },
        _ => {},
    }
}

/// Replacing the value at the end of a path keeps the keys of every object unique.
pub proof fn replacing_keeps_keys_unique(value: JsonView, keys: Seq<Seq<char>>, new: JsonView)
    requires
        unique_keys(value),
        unique_keys(new),
    ensures
        replaced_at(value, keys, new) matches Some(changed) ==> unique_keys(changed),
    decreases keys.len(),
{
    if keys.len() == 1 {
        lemma_child_keeps_unique(value, keys[0], new);
    } else if keys.len() > 1 {
        match child(value, keys[0]) {
            Some(next) => {
                match value {
                    JsonView::Array(items) => {
                        assert(next == items[position_of(keys[0])->Some_0 as int]);
                    },
                    JsonView::Object(entries) => {
                        let i = entry_index(entries, keys[0])->Some_0;
                        assert(is_first_entry(entries, keys[0], i));
                        assert(next == entries[i].1);
                    },
                    _ => {},
                }
                replacing_keeps_keys_unique(next, keys.skip(1), new);
                match replaced_at(next, keys.skip(1), new) {
                    Some(changed) => lemma_child_keeps_unique(value, keys[0], changed),
                    None => {},
                }
            },
            None => {},
        }
    }
}

} // verus!
