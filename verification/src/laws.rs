//! What holds of the built-in backend on every JSON value.
use vstd::prelude::*;

use vstd::utf8::encode_utf8;

use crate::backend::{
    leaves, leaves_entries, leaves_or_null, masks_matches, or_null, removes, sanitized,
    sanitized_array, sanitized_entries, sanitized_items, sanitizes_text, ActionView, BackendView,
    CompiledBuiltinBackend,
};
use crate::decimal::decimal;
use crate::digest::{hex, sha256, text_digest};
use crate::json::{Json, JsonView};
use crate::mask::{masks_with, DetectorMasks, MaskModel};
use crate::matcher::{expansions, match_spans, replaced, replacements, spliced};
use crate::pointer::{escaped, rendered};
use crate::text::texts;

verus! {

/// Whether two values differ at most in their texts: they have the same items and the same keys
/// in the same places.
pub open spec fn same_shape(a: JsonView, b: JsonView) -> bool
    decreases a,
{
    match (a, b) {
        (JsonView::String(_), JsonView::String(_)) => true,
        (JsonView::Array(xs), JsonView::Array(ys)) => xs.len() == ys.len() && forall|i: int|
            0 <= i < xs.len() ==> same_shape(#[trigger] xs[i], ys[i]),
        (JsonView::Object(xs), JsonView::Object(ys)) => xs.len() == ys.len() && forall|i: int|
            0 <= i < xs.len() ==> (#[trigger] xs[i]).0 == ys[i].0 && same_shape(
                xs[i].1,
                ys[i].1,
            ),
        _ => a == b,
    }
}

/// What is removed: what a target path points at, whatever it is, or every text where there are no
/// target paths.
pub proof fn what_is_removed<M: DetectorMasks>(
    backend: BackendView,
    masks: M,
    value: JsonView,
    path: Seq<Seq<char>>,
    left: Option<JsonView>,
)
    requires
        leaves(backend, masks, value, path, left),
    ensures
        left is None <==> backend.action is Remove && (backend.target_paths.contains(
            rendered(path),
        ) || (backend.target_paths.len() == 0 && value is String)),
{
    if backend.target_paths.contains(rendered(path)) {
        assert(backend.target_paths.len() > 0);
    }
}

/// An action that does not remove changes nothing but texts.
pub proof fn only_texts_change<M: DetectorMasks>(
    backend: BackendView,
    masks: M,
    value: JsonView,
    path: Seq<Seq<char>>,
    left: Option<JsonView>,
)
    requires
        !(backend.action is Remove),
        leaves(backend, masks, value, path, left),
    ensures
        left is Some,
        same_shape(value, left->Some_0),
    decreases value, 0nat,
{
    match value {
        JsonView::Array(items) => {
            let kept = left->Some_0->Array_0;
            assert forall|i: int| 0 <= i < items.len() implies same_shape(
                #[trigger] items[i],
                kept[i],
            ) by {
                let below = path.push(decimal(i as nat));
                assert(leaves_or_null(backend, masks, items[i], below, kept[i]));
                if leaves(backend, masks, items[i], below, Some(kept[i])) {
                    only_texts_change(backend, masks, items[i], below, Some(kept[i]));
                } else {
                    only_texts_change(backend, masks, items[i], below, None);
                }
            }
        },
        JsonView::Object(entries) => {
            assert(decreases_to!(value => value->Object_0));
            lemma_entries_stay(backend, masks, entries, path, left->Some_0->Object_0);
        },
        _ => {},
    }
}

/// An action that does not remove leaves every entry in its place.
proof fn lemma_entries_stay<M: DetectorMasks>(
    backend: BackendView,
    masks: M,
    entries: Seq<(Seq<char>, JsonView)>,
    path: Seq<Seq<char>>,
    kept: Seq<(Seq<char>, JsonView)>,
)
    requires
        !(backend.action is Remove),
        leaves_entries(backend, masks, entries, path, kept),
    ensures
        kept.len() == entries.len(),
        forall|i: int|
            0 <= i < entries.len() ==> (#[trigger] entries[i]).0 == kept[i].0 && same_shape(
                entries[i].1,
                kept[i].1,
            ),
    decreases entries, 1nat,
{
    if entries.len() > 0 {
        let (key, value) = entries.last();
        let front = entries.drop_last();
        let below = path.push(escaped(key));
        assert(decreases_to!(entries => entries[entries.len() - 1]));
        assert(decreases_to!(entries[entries.len() - 1] => entries[entries.len() - 1].1));
        if leaves(backend, masks, value, below, None) {
            only_texts_change(backend, masks, value, below, None);
        }
        only_texts_change(backend, masks, value, below, Some(kept.last().1));
        lemma_entries_stay(backend, masks, front, path, kept.drop_last());
        assert forall|i: int| 0 <= i < entries.len() implies (#[trigger] entries[i]).0
            == kept[i].0 && same_shape(entries[i].1, kept[i].1) by {
            if i < front.len() {
                assert(front[i] == entries[i]);
            }
        }
    }
}

/// A part of a value that no target path points at or into stays as it is.
pub proof fn untargeted_part_is_kept<M: DetectorMasks>(
    backend: BackendView,
    masks: M,
    value: JsonView,
    path: Seq<Seq<char>>,
    left: Option<JsonView>,
)
    requires
        backend.target_paths.len() > 0,
        forall|more: Seq<Seq<char>>|
            !backend.target_paths.contains(#[trigger] rendered(path + more)),
        leaves(backend, masks, value, path, left),
    ensures
        left == Some(value),
    decreases value, 0nat,
{
    assert(path + Seq::empty() =~= path);
    assert(!backend.target_paths.contains(rendered(path + Seq::empty())));
    match value {
        JsonView::Array(items) => {
            let kept = left->Some_0->Array_0;
            assert forall|i: int| 0 <= i < items.len() implies kept[i] == #[trigger] items[i] by {
                let segment = decimal(i as nat);
                let below = path.push(segment);
                lemma_untargeted_below(backend, path, segment);
                assert(leaves_or_null(backend, masks, items[i], below, kept[i]));
                if leaves(backend, masks, items[i], below, Some(kept[i])) {
                    untargeted_part_is_kept(backend, masks, items[i], below, Some(kept[i]));
                } else {
                    untargeted_part_is_kept(backend, masks, items[i], below, None);
                }
            }
            assert(kept =~= items);
        },
        JsonView::Object(entries) => {
            assert(decreases_to!(value => value->Object_0));
            lemma_untargeted_entries(backend, masks, entries, path, left->Some_0->Object_0);
        },
        _ => {},
    }
}

/// What no target path points into has no part that one does.
proof fn lemma_untargeted_below(backend: BackendView, path: Seq<Seq<char>>, segment: Seq<char>)
    requires
        forall|more: Seq<Seq<char>>|
            !backend.target_paths.contains(#[trigger] rendered(path + more)),
    ensures
        forall|more: Seq<Seq<char>>|
            !backend.target_paths.contains(#[trigger] rendered(path.push(segment) + more)),
{
    assert forall|more: Seq<Seq<char>>|
        !backend.target_paths.contains(#[trigger] rendered(path.push(segment) + more)) by {
        assert(path.push(segment) + more =~= path + (seq![segment] + more));
        assert(!backend.target_paths.contains(rendered(path + (seq![segment] + more))));
    }
}

/// Entries that no target path points at or into stay as they are.
proof fn lemma_untargeted_entries<M: DetectorMasks>(
    backend: BackendView,
    masks: M,
    entries: Seq<(Seq<char>, JsonView)>,
    path: Seq<Seq<char>>,
    kept: Seq<(Seq<char>, JsonView)>,
)
    requires
        backend.target_paths.len() > 0,
        forall|more: Seq<Seq<char>>|
            !backend.target_paths.contains(#[trigger] rendered(path + more)),
        leaves_entries(backend, masks, entries, path, kept),
    ensures
        kept == entries,
    decreases entries, 1nat,
{
    if entries.len() == 0 {
        assert(kept =~= entries);
    } else {
        let (key, value) = entries.last();
        let front = entries.drop_last();
        let below = path.push(escaped(key));
        lemma_untargeted_below(backend, path, escaped(key));
        assert(decreases_to!(entries => entries[entries.len() - 1]));
        assert(decreases_to!(entries[entries.len() - 1] => entries[entries.len() - 1].1));
        if leaves(backend, masks, value, below, None) {
            untargeted_part_is_kept(backend, masks, value, below, None);
        }
        untargeted_part_is_kept(backend, masks, value, below, Some(kept.last().1));
        lemma_untargeted_entries(backend, masks, front, path, kept.drop_last());
        assert(kept =~= kept.drop_last().push(kept.last()));
        assert(entries =~= front.push(entries.last()));
    }
}

/// Whether a value is a text or holds one.
pub open spec fn has_text(value: JsonView) -> bool
    decreases value,
{
    match value {
        JsonView::String(_) => true,
        JsonView::Array(items) => exists|i: int|
            0 <= i < items.len() && has_text(#[trigger] items[i]),
        JsonView::Object(entries) => exists|i: int|
            0 <= i < entries.len() && has_text((#[trigger] entries[i]).1),
        _ => false,
    }
}

/// Removing without target paths leaves no text.
pub proof fn removing_leaves_no_text(
    backend: BackendView,
    model: MaskModel,
    value: JsonView,
    path: Seq<Seq<char>>,
)
    requires
        backend.action is Remove,
        backend.target_paths.len() == 0,
    ensures
        !has_text(or_null(sanitized(backend, model, value, path))),
    decreases value, 0nat,
{
    match value {
        JsonView::Array(items) => {
            sanitized_array(backend, model, items, path);
            let left = sanitized_items(backend, model, items, path);
            assert forall|i: int| 0 <= i < left.len() implies !has_text(#[trigger] left[i]) by {
                removing_leaves_no_text(backend, model, items[i], path.push(decimal(i as nat)));
            }
            assert(!has_text(JsonView::Array(left)));
        },
        JsonView::Object(entries) => {
            assert(decreases_to!(value => value->Object_0));
            lemma_no_text_in_entries(backend, model, entries, path);
            let left = sanitized_entries(backend, model, entries, path);
            assert(!has_text(JsonView::Object(left)));
        },
        _ => {},
    }
}

/// Removing without target paths leaves no text in the entries of an object.
proof fn lemma_no_text_in_entries(
    backend: BackendView,
    model: MaskModel,
    entries: Seq<(Seq<char>, JsonView)>,
    path: Seq<Seq<char>>,
)
    requires
        backend.action is Remove,
        backend.target_paths.len() == 0,
    ensures
        forall|i: int|
            0 <= i < sanitized_entries(backend, model, entries, path).len() ==> !has_text(
                (#[trigger] sanitized_entries(backend, model, entries, path)[i]).1,
            ),
    decreases entries, 1nat,
{
    if entries.len() > 0 {
        let (key, value) = entries.last();
        lemma_no_text_in_entries(backend, model, entries.drop_last(), path);
        assert(decreases_to!(entries => entries[entries.len() - 1]));
        assert(decreases_to!(entries[entries.len() - 1] => entries[entries.len() - 1].1));
        removing_leaves_no_text(backend, model, value, path.push(escaped(key)));
        let front = sanitized_entries(backend, model, entries.drop_last(), path);
        let left = sanitized_entries(backend, model, entries, path);
        assert forall|i: int| 0 <= i < left.len() implies !has_text((#[trigger] left[i]).1) by {
            if i < front.len() {
                assert(left[i] == front[i]);
            }
        }
    }
}

/// What is left after removing stays when it is removed from again.
pub proof fn removing_again_changes_nothing(
    backend: BackendView,
    model: MaskModel,
    value: JsonView,
    path: Seq<Seq<char>>,
)
    requires
        backend.action is Remove,
    ensures
        sanitized(backend, model, value, path) matches Some(left) ==> sanitized(
            backend,
            model,
            left,
            path,
        ) == Some(left),
    decreases value, 0nat,
{
    match value {
        JsonView::Array(items) => {
            if !removes(backend, path) {
                sanitized_array(backend, model, items, path);
                let left = sanitized_items(backend, model, items, path);
                sanitized_array(backend, model, left, path);
                let again = sanitized_items(backend, model, left, path);
                assert forall|i: int| 0 <= i < left.len() implies #[trigger] again[i] == left[i] by {
                    removing_again_changes_nothing(
                        backend,
                        model,
                        items[i],
                        path.push(decimal(i as nat)),
                    );
                }
                assert(again =~= left);
            }
        },
        JsonView::Object(entries) => {
            assert(decreases_to!(value => value->Object_0));
            lemma_entries_removed_again(backend, model, entries, path);
        },
        _ => {},
    }
}

/// What is left of entries after removing stays when it is removed from again.
proof fn lemma_entries_removed_again(
    backend: BackendView,
    model: MaskModel,
    entries: Seq<(Seq<char>, JsonView)>,
    path: Seq<Seq<char>>,
)
    requires
        backend.action is Remove,
    ensures
        ({
            let left = sanitized_entries(backend, model, entries, path);
            sanitized_entries(backend, model, left, path) == left
        }),
    decreases entries, 1nat,
{
    if entries.len() > 0 {
        let (key, value) = entries.last();
        let front = sanitized_entries(backend, model, entries.drop_last(), path);
        lemma_entries_removed_again(backend, model, entries.drop_last(), path);
        assert(decreases_to!(entries => entries[entries.len() - 1]));
        assert(decreases_to!(entries[entries.len() - 1] => entries[entries.len() - 1].1));
        removing_again_changes_nothing(backend, model, value, path.push(escaped(key)));
        match sanitized(backend, model, value, path.push(escaped(key))) {
            Some(kept) => {
                let left = front.push((key, kept));
                assert(left.drop_last() =~= front);
                assert(sanitized_entries(backend, model, left, path) =~= left);
            },
            None => {},
        }
    }
}

/// A value that is no text, no array and no object stays as it is, where it is not removed.
pub proof fn other_values_stay<M: DetectorMasks>(
    backend: BackendView,
    masks: M,
    value: JsonView,
    path: Seq<Seq<char>>,
    left: Option<JsonView>,
)
    requires
        leaves(backend, masks, value, path, left),
        value is Null || value is Bool || value is Number,
        !(backend.action is Remove && backend.target_paths.contains(rendered(path))),
    ensures
        left == Some(value),
{
}

/// What is left of a text at a path: what the action makes of it where the list of target paths is
/// empty or holds the pointer to it, and the text anywhere else.
pub proof fn text_at_a_path<M: DetectorMasks>(
    backend: BackendView,
    masks: M,
    text: Seq<char>,
    path: Seq<Seq<char>>,
    left: Option<JsonView>,
)
    requires
        leaves(backend, masks, JsonView::String(text), path, left),
    ensures
        if backend.target_paths.len() == 0 || backend.target_paths.contains(rendered(path)) {
            match left {
                Some(JsonView::String(output)) => sanitizes_text(
                    backend.action,
                    masks,
                    text,
                    Some(output),
                ),
                Some(_) => false,
                None => sanitizes_text(backend.action, masks, text, None),
            }
        } else {
            left == Some(JsonView::String(text))
        },
{
}

/// What an action makes of a text. Removing leaves nothing. Any other action keeps what stands
/// between the matches and puts, for each match, its digest, its mask or the replacement; without a
/// matcher the whole text is one match.
pub proof fn action_on_a_text<M: DetectorMasks>(
    action: ActionView,
    masks: M,
    text: Seq<char>,
    left: Option<Seq<char>>,
)
    requires
        sanitizes_text(action, masks, text, left),
    ensures
        left is None <==> action is Remove,
        match action {
            ActionView::Remove => true,
            ActionView::Hash { matcher: None } => left == Some(hex(sha256(encode_utf8(text)))),
            ActionView::Hash { matcher: Some(regex) } => exists|parts: Seq<Seq<char>>|
                parts.len() == match_spans(regex, text).len() && left->Some_0
                    == #[trigger] spliced(text, match_spans(regex, text), parts, 0) && forall|
                    i: int,
                |
                    0 <= i < parts.len() ==> #[trigger] parts[i] == hex(
                        sha256(
                            encode_utf8(
                                text.subrange(
                                    match_spans(regex, text)[i].0,
                                    match_spans(regex, text)[i].1,
                                ),
                            ),
                        ),
                    ),
            ActionView::Mask { matcher: None, strategy } => masks_with(
                strategy,
                masks,
                text,
                left->Some_0,
            ),
            ActionView::Mask { matcher: Some(regex), strategy } => exists|parts: Seq<Seq<char>>|
                parts.len() == match_spans(regex, text).len() && left->Some_0
                    == #[trigger] spliced(text, match_spans(regex, text), parts, 0) && forall|
                    i: int,
                |
                    0 <= i < parts.len() ==> masks_with(
                        strategy,
                        masks,
                        text.subrange(match_spans(regex, text)[i].0, match_spans(regex, text)[i].1),
                        #[trigger] parts[i],
                    ),
            ActionView::Redact { matcher: regex, replacement } => puts_for_each_match(
                regex,
                text,
                replacement,
                left->Some_0,
            ),
            ActionView::RegexReplace { pattern: regex, replacement } => puts_for_each_match(
                regex,
                text,
                replacement,
                left->Some_0,
            ),
        },
{
    match action {
        ActionView::Hash { matcher: Some(regex) } => {
            let spans = match_spans(regex, text);
            let part = |part: Seq<char>| text_digest(part);
            let parts = Seq::new(
                spans.len(),
                |i: int| part(text.subrange(spans[i].0, spans[i].1)),
            );
            assert(left->Some_0 == spliced(text, spans, parts, 0));
        },
        ActionView::Mask { matcher: Some(regex), strategy } => {
            assert(masks_matches(regex, strategy, masks, text, left->Some_0));
        },
        ActionView::Redact { matcher, replacement } => {
            lemma_puts(matcher, text, replacement);
        },
        ActionView::RegexReplace { pattern, replacement } => {
            lemma_puts(pattern, text, replacement);
        },
        _ => {},
    }
}

/// Whether `output` is a text with the replacement put for each match, expanded only where it has a
/// `$`.
pub open spec fn puts_for_each_match(
    regex: regex::Regex,
    text: Seq<char>,
    replacement: Seq<char>,
    output: Seq<char>,
) -> bool {
    exists|parts: Seq<Seq<char>>|
        output == #[trigger] spliced(text, match_spans(regex, text), parts, 0)
            && if replacement.contains('$') {
            parts == expansions(regex, text, replacement)
        } else {
            parts.len() == match_spans(regex, text).len() && forall|i: int|
                0 <= i < parts.len() ==> #[trigger] parts[i] == replacement
        }
}

/// A replaced text has the replacement put for each match.
proof fn lemma_puts(regex: regex::Regex, text: Seq<char>, replacement: Seq<char>)
    ensures
        puts_for_each_match(regex, text, replacement, replaced(regex, text, replacement)),
{
    let parts = replacements(regex, text, replacement);
    assert(replaced(regex, text, replacement) == spliced(
        text,
        match_spans(regex, text),
        parts,
        0,
    ));
}

/// What becomes of a text, by the action of the backend: nothing, or a text that the action makes.
pub proof fn text_by_its_action<M: DetectorMasks>(
    backend: CompiledBuiltinBackend,
    text: String,
    masks: M,
    result: Option<Json>,
)
    requires
        call_ensures(
            CompiledBuiltinBackend::sanitize_string_value::<M>,
            (&backend, text, &masks),
            result,
        ),
    ensures
        result is None <==> backend.action is Remove,
        result matches Some(value) ==> value is String && sanitizes_text(
            backend.action@,
            masks,
            text@,
            Some(value->String_0@),
        ),
{
}

/// Whether a path is a target is said by the list of target paths alone: it is empty, or holds the
/// pointer that the path is rendered to.
pub proof fn the_list_says_what_is_a_target(
    backend: CompiledBuiltinBackend,
    path: &[String],
    matched: bool,
)
    requires
        call_ensures(
            CompiledBuiltinBackend::matches_current_preorder_path,
            (&backend, path),
            matched,
        ),
    ensures
        matched <==> backend.target_paths@.len() == 0 || exists|i: int|
            0 <= i < backend.target_paths@.len() && (#[trigger] backend.target_paths@[i])@
                == rendered(texts(path@)),
{
    let list = texts(backend.target_paths@);
    if list.contains(rendered(texts(path@))) {
        let i = choose|i: int| 0 <= i < list.len() && list[i] == rendered(texts(path@));
        assert(list[i] == backend.target_paths@[i]@);
    }
    if exists|i: int|
        0 <= i < backend.target_paths@.len() && (#[trigger] backend.target_paths@[i])@ == rendered(
            texts(path@),
        ) {
        let i = choose|i: int|
            0 <= i < backend.target_paths@.len() && (#[trigger] backend.target_paths@[i])@
                == rendered(texts(path@));
        assert(list[i] == rendered(texts(path@)));
    }
}

/// The walk over a value leaves the path as it was. What it gives for a text at that path is what
/// the action makes of it where the path is a target, and the text where not; it gives nothing only
/// by removing, and then at a target path, or for a text where every path is a target.
pub proof fn walk_at_a_path<M: DetectorMasks>(
    backend: CompiledBuiltinBackend,
    value: Json,
    path: &mut Vec<String>,
    masks: M,
    result: Option<Json>,
)
    requires
        call_ensures(
            CompiledBuiltinBackend::sanitize_json_preorder_dfs_at_path::<M>,
            (&backend, value, path, &masks),
            result,
        ),
    ensures
        final(path)@ == old(path)@,
        result is None <==> backend.action is Remove && (if backend.target_paths@.len() == 0 {
            value@ is String
        } else {
            texts(backend.target_paths@).contains(rendered(texts(old(path)@)))
        }),
        value@ matches JsonView::String(text) ==> if backend.target_paths@.len() == 0 || texts(
            backend.target_paths@,
        ).contains(rendered(texts(old(path)@))) {
            match result {
                Some(left) => left@ is String && sanitizes_text(
                    backend.action@,
                    masks,
                    text,
                    Some(left@->String_0),
                ),
                None => true,
            }
        } else {
            result is Some && result->Some_0@ == value@
        },
{
    assert(backend@.target_paths.len() == backend.target_paths@.len());
}

} // verus!
