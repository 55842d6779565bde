//! Reading and replacing the value at a path inside a JSON value.
use vstd::prelude::*;

use crate::decimal::{position_of, read_position};
use crate::json::{
    array_view, entry_index, entry_value, entry_views, find_entry, is_first_entry, item_views,
    lemma_entry_index, lemma_no_entry, lemma_push_entry, object_view, Json, JsonView,
};
use crate::text::texts;

verus! {

/// The value one step down: under a key of an object, or at a position of an array.
pub open spec fn child(value: JsonView, segment: Seq<char>) -> Option<JsonView> {
    match value {
        JsonView::Object(entries) => entry_value(entries, segment),
        JsonView::Array(items) => match position_of(segment) {
            Some(i) => if i < items.len() {
                Some(items[i as int])
            } else {
                None
            },
            None => None,
        },
        _ => None,
    }
}

/// The value at the end of a path.
pub open spec fn value_at(value: JsonView, segments: Seq<Seq<char>>) -> Option<JsonView>
    decreases segments.len(),
{
    if segments.len() == 0 {
        Some(value)
    } else {
        match child(value, segments[0]) {
            Some(next) => value_at(next, segments.skip(1)),
            None => None,
        }
    }
}

/// The entries with `value` under `key`: in the place of the first entry with that key, or at the
/// end.
pub open spec fn with_entry(
    entries: Seq<(Seq<char>, JsonView)>,
    key: Seq<char>,
    value: JsonView,
) -> Seq<(Seq<char>, JsonView)> {
    match entry_index(entries, key) {
        Some(i) => entries.update(i, (key, value)),
        None => entries.push((key, value)),
    }
}

/// `value` with its child under `segment` set. A key may be new to an object; an array keeps its
/// length.
pub open spec fn with_child(value: JsonView, segment: Seq<char>, new: JsonView) -> Option<JsonView> {
    match value {
        JsonView::Object(entries) => Some(JsonView::Object(with_entry(entries, segment, new))),
        JsonView::Array(items) => match position_of(segment) {
            Some(i) => if i < items.len() {
                Some(JsonView::Array(items.update(i as int, new)))
            } else {
                None
            },
            None => None,
        },
        _ => None,
    }
}

/// `value` with `new` at the end of a path. Every segment but the last must lead to a value.
pub open spec fn replaced_at(
    value: JsonView,
    segments: Seq<Seq<char>>,
    new: JsonView,
) -> Option<JsonView>
    decreases segments.len(),
{
    if segments.len() == 0 {
        None
    } else if segments.len() == 1 {
        with_child(value, segments[0], new)
    } else {
        match child(value, segments[0]) {
            Some(next) => match replaced_at(next, segments.skip(1), new) {
                Some(changed) => with_child(value, segments[0], changed),
                None => None,
            },
            None => None,
        }
    }
}

/// The value at the end of a path, or `None` if the path leads nowhere.
pub fn sanitized_json_pointer_value<'a>(value: &'a Json, segments: &[String]) -> (found: Option<
    &'a Json,
>)
    ensures
        match found {
            Some(found) => value_at(value@, texts(segments@)) == Some(found@),
            None => value_at(value@, texts(segments@)) is None,
        },
{
    let ghost path = texts(segments@);
    let mut current: &'a Json = value;
    let mut i: usize = 0;
    assert(path.skip(0) =~= path);
    while i < segments.len()
        invariant
            i <= segments.len(),
            path == texts(segments@),
            value_at(current@, path.skip(i as int)) == value_at(value@, path),
        decreases segments.len() - i,
    {
        let ghost rest = path.skip(i as int);
        assert(rest[0] == segments@[i as int]@);
        assert(rest.skip(1) =~= path.skip(i + 1));
        match current {
            Json::Object(entries) => {
                proof {
                    object_view(*entries);
                }
                match find_entry(entries, &segments[i]) {
                    Some(k) => {
                        assert(entry_views(entries@)[k as int].1 == entries@[k as int].1@);
                        current = &entries[k].1;
                    },
                    None => {
                        return None;
                    },
                }
            },
            Json::Array(items) => {
                proof {
                    array_view(*items);
                }
                match read_position(segments[i].as_str()) {
                    Some(k) => {
                        if k >= items.len() {
                            return None;
                        }
                        assert(item_views(items@)[k as int] == items@[k as int]@);
                        current = &items[k];
                    },
                    None => {
                        return None;
                    },
                }
            },
            _ => {
                return None;
            },
        }
        i += 1;
    }
    Some(current)
}

/// Puts `replacement` at the end of the path that starts at segment `from`.
fn replace_from(value: &mut Json, segments: &[String], from: usize, replacement: Json) -> (done:
    Option<()>)
    requires
        from < segments.len(),
    ensures
        match done {
            Some(_) => replaced_at(old(value)@, texts(segments@).skip(from as int), replacement@)
                == Some(final(value)@),
            None => replaced_at(
                old(value)@,
                texts(segments@).skip(from as int),
                replacement@,
            ) is None && final(value)@ == old(value)@,
        },
    decreases segments.len() - from,
{
    let ghost rest = texts(segments@).skip(from as int);
    let ghost before = value@;
    assert(rest[0] == segments@[from as int]@);
    assert(rest.skip(1) =~= texts(segments@).skip(from + 1));
    match value {
        Json::Object(entries) => {
            let ghost old_entries = entries@;
            let ghost views = entry_views(entries@);
            proof {
                object_view(*entries);
            }
            let place: Option<usize> = find_entry(entries, &segments[from]);
            if from + 1 == segments.len() {
                match place {
                    Some(k) => {
                        entries[k].1 = replacement;
                        assert(entry_views(entries@) =~= views.update(
                            k as int,
                            (rest[0], replacement@),
                        ));
                    },
                    None => {
                        let entry: (String, Json) = (segments[from].clone(), replacement);
                        proof {
                            lemma_push_entry(entries@, entry);
                        }
                        entries.push(entry);
                    },
                }
                proof {
                    object_view(*entries);
                }
                Some(())
            } else {
                match place {
                    Some(k) => {
                        assert(views[k as int].1 == old_entries[k as int].1@);
                        let done: Option<()> = replace_from(
                            &mut entries[k].1,
                            segments,
                            from + 1,
                            replacement,
                        );
                        proof {
                            let changed = entries@[k as int].1@;
                            assert(entry_views(entries@) =~= views.update(
                                k as int,
                                (rest[0], changed),
                            ));
                            assert(views.update(k as int, (rest[0], views[k as int].1)) =~= views);
                            object_view(*entries);
                        }
                        done
                    },
                    None => None,
                }
            }
        },
        Json::Array(items) => {
            let ghost old_items = items@;
            let ghost views = item_views(items@);
            proof {
                array_view(*items);
            }
            match read_position(segments[from].as_str()) {
                Some(k) => {
                    if k >= items.len() {
                        return None;
                    }
                    assert(views[k as int] == old_items[k as int]@);
                    let done: Option<()> = if from + 1 == segments.len() {
                        items[k] = replacement;
                        Some(())
                    } else {
                        replace_from(&mut items[k], segments, from + 1, replacement)
                    };
                    proof {
                        let changed = items@[k as int]@;
                        assert(item_views(items@) =~= views.update(k as int, changed));
                        assert(views.update(k as int, views[k as int]) =~= views);
                        array_view(*items);
                    }
                    done
                },
                None => None,
            }
        },
        _ => None,
    }
}

/// Puts `replacement` at the end of a path. The value is unchanged if that is not possible: the
/// path is empty, a segment before the last leads nowhere, or the last has no place to go.
pub fn replace_sanitized_json_pointer_value(
    value: &mut Json,
    segments: &[String],
    replacement: Json,
) -> (done: Option<()>)
    ensures
        match done {
            Some(_) => replaced_at(old(value)@, texts(segments@), replacement@) == Some(
                final(value)@,
            ),
            None => replaced_at(old(value)@, texts(segments@), replacement@) is None
                && final(value)@ == old(value)@,
        },
{
    assert(texts(segments@).skip(0) =~= texts(segments@));
    if segments.len() == 0 {
        return None;
    }
    replace_from(value, segments, 0, replacement)
}

/// Whether two segments lead to different children of a value: different keys of an object, or
/// different positions of an array.
pub open spec fn apart(value: JsonView, a: Seq<char>, b: Seq<char>) -> bool {
    match value {
        JsonView::Object(_) => a != b,
        JsonView::Array(_) => position_of(a) != position_of(b),
        _ => false,
    }
}

/// Whether two paths part somewhere in a value, at a segment that both still have.
pub open spec fn parts(value: JsonView, a: Seq<Seq<char>>, b: Seq<Seq<char>>) -> bool
    decreases a.len(),
{
    if a.len() == 0 || b.len() == 0 {
        false
    } else if apart(value, a[0], b[0]) {
        true
    } else {
        match child(value, a[0]) {
            Some(next) => parts(next, a.skip(1), b.skip(1)),
            None => false,
        }
    }
}

/// The entry that was set is found under its key.
proof fn lemma_entry_set(entries: Seq<(Seq<char>, JsonView)>, key: Seq<char>, value: JsonView)
    ensures
        entry_value(with_entry(entries, key, value), key) == Some(value),
{
    let changed = with_entry(entries, key, value);
    match entry_index(entries, key) {
        Some(i) => {
            assert(is_first_entry(entries, key, i));
            assert(is_first_entry(changed, key, i));
            lemma_entry_index(changed, key, i);
        },
        None => {
            let last = entries.len() as int;
            assert forall|j: int| 0 <= j < last implies (#[trigger] changed[j]).0 != key by {
                if changed[j].0 == key {
                    lemma_key_present(entries, key, j);
                }
            }
            assert(is_first_entry(changed, key, last));
            lemma_entry_index(changed, key, last);
        },
    }
}

/// A key that some entry has is found.
pub proof fn lemma_key_present(entries: Seq<(Seq<char>, JsonView)>, key: Seq<char>, i: int)
    requires
        0 <= i < entries.len(),
        entries[i].0 == key,
    ensures
        entry_index(entries, key) is Some,
    decreases i,
{
    if forall|j: int| 0 <= j < i ==> (#[trigger] entries[j]).0 != key {
        assert(is_first_entry(entries, key, i));
    } else {
        let j = choose|j: int| 0 <= j < i && (#[trigger] entries[j]).0 == key;
        lemma_key_present(entries, key, j);
    }
}

/// The other keys keep their values.
proof fn lemma_other_entry(
    entries: Seq<(Seq<char>, JsonView)>,
    key: Seq<char>,
    value: JsonView,
    other: Seq<char>,
)
    requires
        key != other,
    ensures
        entry_value(with_entry(entries, key, value), other) == entry_value(entries, other),
{
    let changed = with_entry(entries, key, value);
    match entry_index(entries, other) {
        Some(i) => {
            assert(is_first_entry(entries, other, i));
            assert(is_first_entry(changed, other, i));
            lemma_entry_index(changed, other, i);
        },
        None => {
            assert forall|j: int| 0 <= j < changed.len() implies (#[trigger] changed[j]).0
                != other by {
                if changed[j].0 == other {
                    lemma_key_present(entries, other, j);
                }
            }
            lemma_no_entry(changed, other);
        },
    }
}

/// The child that was set is found under its segment, and the children apart from it are kept.
proof fn lemma_child_set(value: JsonView, segment: Seq<char>, new: JsonView)
    requires
        with_child(value, segment, new) is Some,
    ensures
        child(with_child(value, segment, new)->Some_0, segment) == Some(new),
        forall|other: Seq<char>|
            apart(value, segment, other) ==> #[trigger] child(
                with_child(value, segment, new)->Some_0,
                other,
            ) == child(value, other),
{
    let changed = with_child(value, segment, new)->Some_0;
    match value {
        JsonView::Object(entries) => {
            lemma_entry_set(entries, segment, new);
            assert forall|other: Seq<char>| apart(value, segment, other) implies #[trigger] child(
                changed,
                other,
            ) == child(value, other) by {
                lemma_other_entry(entries, segment, new, other);
            }
        },
        _ => {},
    }
}

/// Setting a child to what it is changes nothing.
proof fn lemma_child_reset(value: JsonView, segment: Seq<char>)
    requires
        child(value, segment) is Some,
    ensures
        with_child(value, segment, child(value, segment)->Some_0) == Some(value),
{
    match value {
        JsonView::Object(entries) => {
            let i = entry_index(entries, segment)->Some_0;
            assert(is_first_entry(entries, segment, i));
            assert(entries.update(i, (segment, entries[i].1)) =~= entries);
        },
        JsonView::Array(items) => {
            let i = position_of(segment)->Some_0;
            assert(items.update(i as int, items[i as int]) =~= items);
        },
        _ => {},
    }
}

/// A child that is there can be set.
proof fn lemma_child_settable(value: JsonView, segment: Seq<char>, new: JsonView)
    requires
        child(value, segment) is Some,
    ensures
        with_child(value, segment, new) is Some,
{
}

/// What was put at a path is read at that path.
pub proof fn replaced_value_is_read(value: JsonView, segments: Seq<Seq<char>>, new: JsonView)
    requires
        replaced_at(value, segments, new) is Some,
    ensures
        value_at(replaced_at(value, segments, new)->Some_0, segments) == Some(new),
    decreases segments.len(),
{
    reveal_with_fuel(value_at, 2);
    if segments.len() == 1 {
        lemma_child_set(value, segments[0], new);
        assert(segments.skip(1).len() == 0);
    } else {
        let next = child(value, segments[0])->Some_0;
        let changed = replaced_at(next, segments.skip(1), new)->Some_0;
        replaced_value_is_read(next, segments.skip(1), new);
        lemma_child_set(value, segments[0], changed);
    }
}

/// A value that can be read can be replaced.
pub proof fn readable_value_is_replaceable(
    value: JsonView,
    segments: Seq<Seq<char>>,
    new: JsonView,
)
    requires
        segments.len() > 0,
        value_at(value, segments) is Some,
    ensures
        replaced_at(value, segments, new) is Some,
    decreases segments.len(),
{
    if segments.len() > 1 {
        let next = child(value, segments[0])->Some_0;
        readable_value_is_replaceable(next, segments.skip(1), new);
        lemma_child_settable(
            value,
            segments[0],
            replaced_at(next, segments.skip(1), new)->Some_0,
        );
    } else {
        lemma_child_settable(value, segments[0], new);
    }
}

/// Putting back what was read at a path changes nothing.
pub proof fn replacing_by_itself_changes_nothing(value: JsonView, segments: Seq<Seq<char>>)
    requires
        segments.len() > 0,
        value_at(value, segments) is Some,
    ensures
        replaced_at(value, segments, value_at(value, segments)->Some_0) == Some(value),
    decreases segments.len(),
{
    reveal_with_fuel(value_at, 2);
    lemma_child_reset(value, segments[0]);
    if segments.len() > 1 {
        replacing_by_itself_changes_nothing(child(value, segments[0])->Some_0, segments.skip(1));
    }
}

/// A path that parts from the replaced one leads to the same value as before.
pub proof fn replacing_keeps_other_places(
    value: JsonView,
    segments: Seq<Seq<char>>,
    new: JsonView,
    other: Seq<Seq<char>>,
)
    requires
        replaced_at(value, segments, new) is Some,
        parts(value, segments, other),
    ensures
        value_at(replaced_at(value, segments, new)->Some_0, other) == value_at(value, other),
    decreases segments.len(),
{
    let next = child(value, segments[0])->Some_0;
    let set = if segments.len() == 1 {
        new
    } else {
        replaced_at(next, segments.skip(1), new)->Some_0
    };
    lemma_child_set(value, segments[0], set);
    let changed = with_child(value, segments[0], set)->Some_0;
    if !apart(value, segments[0], other[0]) {
        reveal_with_fuel(parts, 2);
        assert(segments.skip(1).len() > 0);
        assert(child(value, other[0]) == Some(next));
        assert(child(changed, other[0]) == Some(set));
        replacing_keeps_other_places(next, segments.skip(1), new, other.skip(1));
    }
}

/// What is read at the top, below an item of an array, below an entry of an object, and below
/// anything else.
pub proof fn values_are_read_step_by_step(
    value: JsonView,
    segment: Seq<char>,
    rest: Seq<Seq<char>>,
)
    ensures
        value_at(value, Seq::empty()) == Some(value),
        match value {
            JsonView::Array(items) => match position_of(segment) {
                Some(i) if i < items.len() => value_at(value, seq![segment] + rest) == value_at(
                    items[i as int],
                    rest,
                ),
                _ => value_at(value, seq![segment] + rest) is None,
            },
            JsonView::Object(entries) => {
                &&& forall|i: int| #[trigger]
                    is_first_entry(entries, segment, i) ==> value_at(value, seq![segment] + rest)
                        == value_at(entries[i].1, rest)
                &&& (forall|i: int| 0 <= i < entries.len() ==> (#[trigger] entries[i]).0 != segment)
                    ==> value_at(value, seq![segment] + rest) is None
            },
            _ => value_at(value, seq![segment] + rest) is None,
        },
{
    let path = seq![segment] + rest;
    assert(path.skip(1) =~= rest);
    assert(path[0] == segment);
    match value {
        JsonView::Object(entries) => {
            assert forall|i: int| #[trigger] is_first_entry(entries, segment, i) implies value_at(
                value,
                path,
            ) == value_at(entries[i].1, rest) by {
                lemma_entry_index(entries, segment, i);
            }
            if forall|i: int| 0 <= i < entries.len() ==> (#[trigger] entries[i]).0 != segment {
                lemma_no_entry(entries, segment);
            }
        },
        _ => {},
    }
}

/// A value can be put at the end of a path exactly where the path before its last segment leads to
/// an object, or to an array that has the position.
pub proof fn where_replacing_is_possible(value: JsonView, segments: Seq<Seq<char>>, new: JsonView)
    ensures
        replaced_at(value, segments, new) is Some <==> segments.len() > 0 && match value_at(
            value,
            segments.drop_last(),
        ) {
            Some(JsonView::Object(_)) => true,
            Some(JsonView::Array(items)) => match position_of(segments.last()) {
                Some(i) => i < items.len(),
                None => false,
            },
            _ => false,
        },
    decreases segments.len(),
{
    if segments.len() == 1 {
        assert(segments.drop_last() =~= Seq::empty());
    } else if segments.len() > 1 {
        let rest = segments.skip(1);
        assert(segments.drop_last()[0] == segments[0]);
        assert(segments.drop_last().skip(1) =~= rest.drop_last());
        match child(value, segments[0]) {
            Some(next) => {
                where_replacing_is_possible(next, rest, new);
                if replaced_at(next, rest, new) is Some {
                    lemma_child_settable(
                        value,
                        segments[0],
                        replaced_at(next, rest, new)->Some_0,
                    );
                }
            },
            None => {},
        }
    }
}

/// Setting a child of an object leaves all its keys in their order: the first entry with the key
/// gets the value, or a new entry at the end. Setting an item of an array leaves the others.
pub proof fn one_child_is_set(value: JsonView, segment: Seq<char>, new: JsonView, i: int)
    requires
        replaced_at(value, seq![segment], new) is Some,
    ensures
        match (value, replaced_at(value, seq![segment], new)->Some_0) {
            (JsonView::Object(before), JsonView::Object(after)) => {
                let known = exists|j: int| #[trigger] is_first_entry(before, segment, j);
                &&& after.len() == if known {
                    before.len()
                } else {
                    before.len() + 1
                }
                &&& !known ==> after.last() == (segment, new)
                &&& 0 <= i < before.len() ==> after[i] == if is_first_entry(before, segment, i) {
                    (segment, new)
                } else {
                    before[i]
                }
            },
            (JsonView::Array(before), JsonView::Array(after)) => {
                &&& after.len() == before.len()
                &&& position_of(segment) is Some
                &&& 0 <= i < before.len() ==> after[i] == if position_of(segment)->Some_0 == i {
                    new
                } else {
                    before[i]
                }
            },
            _ => false,
        },
{
    match value {
        JsonView::Object(before) => {
            if exists|j: int| #[trigger] is_first_entry(before, segment, j) {
                let j = choose|j: int| #[trigger] is_first_entry(before, segment, j);
                lemma_entry_index(before, segment, j);
                if is_first_entry(before, segment, i) {
                    lemma_entry_index(before, segment, i);
                }
            }
        },
        _ => {},
    }
}

/// Replacing further down is replacing in the child and setting the child.
pub proof fn replacing_goes_step_by_step(
    value: JsonView,
    segment: Seq<char>,
    rest: Seq<Seq<char>>,
    new: JsonView,
)
    requires
        rest.len() > 0,
    ensures
        replaced_at(value, seq![segment] + rest, new) == match value_at(value, seq![segment]) {
            None => None,
            Some(next) => match replaced_at(next, rest, new) {
                None => None,
                Some(changed) => replaced_at(value, seq![segment], changed),
            },
        },
{
    reveal_with_fuel(value_at, 2);
    let path = seq![segment] + rest;
    assert(path.skip(1) =~= rest);
    assert(path[0] == segment);
    assert(seq![segment].skip(1) =~= Seq::empty());
}

/// A value that was put at the end of a path is what is then read there. Nothing is changed where
/// the path is empty, where what stands before its last segment is missing or has no children, and
/// where that is an array without the position.
pub proof fn value_is_put_at_a_path(
    value: &mut Json,
    segments: &[String],
    replacement: Json,
    done: Option<()>,
)
    requires
        call_ensures(replace_sanitized_json_pointer_value, (value, segments, replacement), done),
    ensures
        done is Some ==> value_at(final(value)@, texts(segments@)) == Some(replacement@),
        done is None ==> final(value)@ == old(value)@,
        done is Some <==> segments@.len() > 0 && match value_at(
            old(value)@,
            texts(segments@).drop_last(),
        ) {
            Some(JsonView::Object(_)) => true,
            Some(JsonView::Array(items)) => match position_of(texts(segments@).last()) {
                Some(i) => i < items.len(),
                None => false,
            },
            _ => false,
        },
{
    where_replacing_is_possible(old(value)@, texts(segments@), replacement@);
    if done is Some {
        replaced_value_is_read(old(value)@, texts(segments@), replacement@);
    }
}

} // verus!
