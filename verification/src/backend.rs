//! The built-in redaction backend: what it does to a text, and to each text of a JSON value.
use vstd::prelude::*;

use crate::config::{CustomMarkPayloadPolicy, ProviderSurface};
use crate::decimal::{decimal, write_position};
use crate::digest::{hex_sha256, text_digest};
use crate::json::{
    array_view, entry_views, item_views, lemma_push_entry, lemma_push_item, object_view,
    option_view, Json, JsonView,
};
use crate::laws::{only_texts_change, same_shape, what_is_removed};
use crate::mask::{
    fits_strategy, mask_with_strategy, masked_by, masks_with, no_masks, BuiltinMaskStrategy,
    DetectorMasks, MaskModel, StrategyView,
};
use crate::matcher::{
    each_match, lemma_replaced_with, match_spans, replace_all_with, replace_matches, replaced,
    replaces, spliced,
};
use crate::pointer::{escape_json_pointer_segment, escaped, render_json_pointer_path, rendered};
use crate::text::{lemma_push_text, texts};

verus! {

/// What the backend does to a text.
#[allow(inconsistent_fields)]
#[derive(Debug)]
pub enum BuiltinAction {
    /// Removes the text.
    Remove,
    /// Puts a digest for each match, or for the whole text without a matcher.
    Hash { matcher: Option<regex::Regex> },
    /// Masks each match, or the whole text without a matcher.
    Mask { matcher: Option<regex::Regex>, strategy: BuiltinMaskStrategy },
    /// Puts the replacement for each match.
    Redact { matcher: regex::Regex, replacement: String },
    /// Puts the replacement for each match.
    RegexReplace { pattern: regex::Regex, replacement: String },
}

/// An action as a mathematical value.
#[allow(inconsistent_fields)]
#[verifier::ext_equal]
pub enum ActionView {
    Remove,
    Hash { matcher: Option<regex::Regex> },
    Mask { matcher: Option<regex::Regex>, strategy: StrategyView },
    Redact { matcher: regex::Regex, replacement: Seq<char> },
    RegexReplace { pattern: regex::Regex, replacement: Seq<char> },
}

impl View for BuiltinAction {
    type V = ActionView;

    open spec fn view(&self) -> ActionView {
        match self {
            BuiltinAction::Remove => ActionView::Remove,
            BuiltinAction::Hash { matcher } => ActionView::Hash { matcher: *matcher },
            BuiltinAction::Mask { matcher, strategy } => ActionView::Mask {
                matcher: *matcher,
                strategy: strategy@,
            },
            BuiltinAction::Redact { matcher, replacement } => ActionView::Redact {
                matcher: *matcher,
                replacement: replacement@,
            },
            BuiltinAction::RegexReplace { pattern, replacement } => ActionView::RegexReplace {
                pattern: *pattern,
                replacement: replacement@,
            },
        }
    }
}

/// The settings of the trajectory sanitizer, which then takes the place of the action.
#[derive(Debug)]
pub struct TrajectorySanitizer {
    pub replacement: String,
    pub policy: CustomMarkPayloadPolicy,
}

/// The settings of the trajectory sanitizer as a mathematical value.
#[verifier::ext_equal]
pub struct TrajectoryView {
    pub replacement: Seq<char>,
    pub policy: CustomMarkPayloadPolicy,
}

impl View for TrajectorySanitizer {
    type V = TrajectoryView;

    open spec fn view(&self) -> TrajectoryView {
        TrajectoryView { replacement: self.replacement@, policy: self.policy }
    }
}

/// The built-in backend, ready to sanitize.
#[derive(Debug)]
pub struct CompiledBuiltinBackend {
    pub action: BuiltinAction,
    pub target_paths: Vec<String>,
    pub legacy_surface: Option<ProviderSurface>,
    pub trajectory: Option<TrajectorySanitizer>,
}

/// The built-in backend as a mathematical value.
#[verifier::ext_equal]
pub struct BackendView {
    pub action: ActionView,
    pub target_paths: Seq<Seq<char>>,
    pub legacy_surface: Option<ProviderSurface>,
    pub trajectory: Option<TrajectoryView>,
}

impl View for CompiledBuiltinBackend {
    type V = BackendView;

    open spec fn view(&self) -> BackendView {
        BackendView {
            action: self.action@,
            target_paths: texts(self.target_paths@),
            legacy_surface: self.legacy_surface,
            trajectory: match self.trajectory {
                Some(trajectory) => Some(trajectory@),
                None => None,
            },
        }
    }
}

/// What an action makes of a text: nothing if it removes it. `model` gives the default masks of
/// the detectors.
pub open spec fn sanitized_text(action: ActionView, model: MaskModel, text: Seq<char>) -> Option<
    Seq<char>,
> {
    match action {
        ActionView::Remove => None,
        ActionView::Hash { matcher: Some(regex) } => Some(
            each_match(regex, text, |part: Seq<char>| text_digest(part)),
        ),
        ActionView::Hash { matcher: None } => Some(text_digest(text)),
        ActionView::Mask { matcher: Some(regex), strategy } => Some(
            each_match(regex, text, |part: Seq<char>| masked_by(part, strategy, model)),
        ),
        ActionView::Mask { matcher: None, strategy } => Some(masked_by(text, strategy, model)),
        ActionView::Redact { matcher, replacement } => Some(replaced(matcher, text, replacement)),
        ActionView::RegexReplace { pattern, replacement } => Some(
            replaced(pattern, text, replacement),
        ),
    }
}

/// Whether `model` can be used for the action: it describes `masks`, or the action does not use
/// the default mask of a detector.
pub open spec fn fits<M: DetectorMasks>(action: ActionView, masks: M, model: MaskModel) -> bool {
    action matches ActionView::Mask { strategy, .. } ==> fits_strategy(strategy, masks, model)
}

/// Whether the action masks as a detector does by default.
pub open spec fn asks_detector(action: ActionView) -> bool {
    action matches ActionView::Mask { strategy, .. } && strategy is DetectorDefault
}

/// Whether `output` is a text with each match masked by a strategy.
pub open spec fn masks_matches<M: DetectorMasks>(
    regex: regex::Regex,
    strategy: StrategyView,
    masks: M,
    text: Seq<char>,
    output: Seq<char>,
) -> bool {
    let spans = match_spans(regex, text);
    exists|parts: Seq<Seq<char>>|
        parts.len() == spans.len() && output == #[trigger] spliced(text, spans, parts, 0)
            && forall|i: int|
            0 <= i < spans.len() ==> masks_with(
                strategy,
                masks,
                text.subrange(spans[i].0, spans[i].1),
                #[trigger] parts[i],
            )
}

/// Whether `left` is what an action makes of a text, with the default masks that `masks` gives.
pub open spec fn sanitizes_text<M: DetectorMasks>(
    action: ActionView,
    masks: M,
    text: Seq<char>,
    left: Option<Seq<char>>,
) -> bool {
    match action {
        ActionView::Mask { matcher, strategy } => left matches Some(output) && match matcher {
            Some(regex) => masks_matches(regex, strategy, masks, text, output),
            None => masks_with(strategy, masks, text, output),
        },
        _ => left == sanitized_text(action, no_masks(), text),
    }
}

/// Whether the backend works on the value at a path: on every value if it has no target paths.
pub open spec fn targeted(backend: BackendView, path: Seq<Seq<char>>) -> bool {
    backend.target_paths.len() == 0 || backend.target_paths.contains(rendered(path))
}

/// The value, or null for none.
pub open spec fn or_null(value: Option<JsonView>) -> JsonView {
    match value {
        Some(value) => value,
        None => JsonView::Null,
    }
}

/// What is left of a value at a path. A removed item of an array leaves null in its place; a
/// removed entry of an object is gone.
pub open spec fn sanitized(
    backend: BackendView,
    model: MaskModel,
    value: JsonView,
    path: Seq<Seq<char>>,
) -> Option<JsonView>
    decreases value,
{
    if backend.target_paths.len() > 0 && targeted(backend, path) && backend.action is Remove {
        None
    } else {
        match value {
            JsonView::String(text) => if targeted(backend, path) {
                match sanitized_text(backend.action, model, text) {
                    Some(text) => Some(JsonView::String(text)),
                    None => None,
                }
            } else {
                Some(value)
            },
            JsonView::Array(items) => Some(
                JsonView::Array(
                    Seq::new(
                        items.len(),
                        |i: int|
                            if 0 <= i < items.len() {
                                or_null(
                                    sanitized(
                                        backend,
                                        model,
                                        items[i],
                                        path.push(decimal(i as nat)),
                                    ),
                                )
                            } else {
                                JsonView::Null
                            },
                    ),
                ),
            ),
            JsonView::Object(entries) => Some(
                JsonView::Object(sanitized_entries(backend, model, entries, path)),
            ),
            other => Some(other),
        }
    }
}

/// What is left of the entries of the object at a path.
pub open spec fn sanitized_entries(
    backend: BackendView,
    model: MaskModel,
    entries: Seq<(Seq<char>, JsonView)>,
    path: Seq<Seq<char>>,
) -> Seq<(Seq<char>, JsonView)>
    decreases entries,
{
    if entries.len() == 0 {
        Seq::empty()
    } else {
        let (key, value) = entries.last();
        let front = sanitized_entries(backend, model, entries.drop_last(), path);
        match sanitized(backend, model, value, path.push(escaped(key))) {
            Some(value) => front.push((key, value)),
            None => front,
        }
    }
}

/// What is left of a whole value: null if it is removed.
pub open spec fn sanitized_whole(backend: BackendView, model: MaskModel, value: JsonView) -> JsonView {
    or_null(sanitized(backend, model, value, Seq::empty()))
}

/// Whether `left` is what is left of a value at a path, with the default masks that `masks` gives.
pub open spec fn leaves<M: DetectorMasks>(
    backend: BackendView,
    masks: M,
    value: JsonView,
    path: Seq<Seq<char>>,
    left: Option<JsonView>,
) -> bool
    decreases value,
{
    if removes(backend, path) {
        left is None
    } else {
        match value {
            JsonView::String(text) => if targeted(backend, path) {
                match left {
                    Some(JsonView::String(output)) => sanitizes_text(
                        backend.action,
                        masks,
                        text,
                        Some(output),
                    ),
                    Some(_) => false,
                    None => sanitizes_text(backend.action, masks, text, None),
                }
            } else {
                left == Some(value)
            },
            JsonView::Array(items) => match left {
                Some(JsonView::Array(kept)) => kept.len() == items.len() && forall|i: int|
                    0 <= i < items.len() ==> leaves(
                        backend,
                        masks,
                        #[trigger] items[i],
                        path.push(decimal(i as nat)),
                        Some(kept[i]),
                    ) || (kept[i] is Null && leaves(
                        backend,
                        masks,
                        items[i],
                        path.push(decimal(i as nat)),
                        None,
                    )),
                _ => false,
            },
            JsonView::Object(entries) => match left {
                Some(JsonView::Object(kept)) => leaves_entries(backend, masks, entries, path, kept),
                _ => false,
            },
            other => left == Some(other),
        }
    }
}

/// Whether `kept` is what is left of the entries of the object at a path.
pub open spec fn leaves_entries<M: DetectorMasks>(
    backend: BackendView,
    masks: M,
    entries: Seq<(Seq<char>, JsonView)>,
    path: Seq<Seq<char>>,
    kept: Seq<(Seq<char>, JsonView)>,
) -> bool
    decreases entries,
{
    if entries.len() == 0 {
        kept.len() == 0
    } else {
        let (key, value) = entries.last();
        let front = entries.drop_last();
        let below = path.push(escaped(key));
        ||| leaves(backend, masks, value, below, None) && leaves_entries(
            backend,
            masks,
            front,
            path,
            kept,
        )
        ||| kept.len() > 0 && kept.last().0 == key && leaves(
            backend,
            masks,
            value,
            below,
            Some(kept.last().1),
        ) && leaves_entries(backend, masks, front, path, kept.drop_last())
    }
}

/// Whether `left` is what is left of a value at a path, or null where it is removed.
pub open spec fn leaves_or_null<M: DetectorMasks>(
    backend: BackendView,
    masks: M,
    value: JsonView,
    path: Seq<Seq<char>>,
    left: JsonView,
) -> bool {
    ||| leaves(backend, masks, value, path, Some(left))
    ||| left is Null && leaves(backend, masks, value, path, None)
}

/// Whether `left` is what is left of a whole value, with the default masks that `masks` gives.
/// Where these are a function, and where no detector is asked, it is one value.
pub open spec fn sanitizes<M: DetectorMasks>(
    backend: BackendView,
    masks: M,
    value: JsonView,
    left: JsonView,
) -> bool {
    &&& leaves_or_null(backend, masks, value, Seq::empty(), left)
    &&& forall|model: MaskModel|
        #[trigger] fits(backend.action, masks, model) ==> left == sanitized_whole(
            backend,
            model,
            value,
        )
    &&& !asks_detector(backend.action) ==> left == sanitized_whole(backend, no_masks(), value)
}

/// Where `model` gives the default masks, an action makes one text of a text.
proof fn lemma_text_by_model<M: DetectorMasks>(
    action: ActionView,
    masks: M,
    model: MaskModel,
    text: Seq<char>,
    left: Option<Seq<char>>,
)
    requires
        fits(action, masks, model),
        sanitizes_text(action, masks, text, left),
    ensures
        left == sanitized_text(action, model, text),
{
    match action {
        ActionView::Mask { matcher: Some(regex), strategy } => {
            let output = left->Some_0;
            let spans = match_spans(regex, text);
            let parts = choose|parts: Seq<Seq<char>>|
                parts.len() == spans.len() && output == #[trigger] spliced(text, spans, parts, 0)
                    && forall|i: int|
                    0 <= i < spans.len() ==> masks_with(
                        strategy,
                        masks,
                        text.subrange(spans[i].0, spans[i].1),
                        #[trigger] parts[i],
                    );
            let part = |part: Seq<char>| masked_by(part, strategy, model);
            let expected = Seq::new(
                spans.len(),
                |i: int| part(text.subrange(spans[i].0, spans[i].1)),
            );
            assert(parts =~= expected);
            assert(output == each_match(regex, text, part));
        },
        _ => {},
    }
}

/// Where `model` gives the default masks, one value is left of a value.
pub proof fn left_by_model<M: DetectorMasks>(
    backend: BackendView,
    masks: M,
    model: MaskModel,
    value: JsonView,
    path: Seq<Seq<char>>,
    left: Option<JsonView>,
)
    requires
        fits(backend.action, masks, model),
        leaves(backend, masks, value, path, left),
    ensures
        left == sanitized(backend, model, value, path),
    decreases value, 0nat,
{
    if !removes(backend, path) {
        match value {
            JsonView::String(text) => if targeted(backend, path) {
                match left {
                    Some(output) => lemma_text_by_model(
                        backend.action,
                        masks,
                        model,
                        text,
                        Some(output->String_0),
                    ),
                    None => lemma_text_by_model(backend.action, masks, model, text, None),
                }
            },
            JsonView::Array(items) => {
                sanitized_array(backend, model, items, path);
                let kept = left->Some_0->Array_0;
                let expected = sanitized_items(backend, model, items, path);
                assert forall|i: int| 0 <= i < items.len() implies #[trigger] kept[i]
                    == expected[i] by {
                    let below = path.push(decimal(i as nat));
                    assert(leaves_or_null(backend, masks, items[i], below, kept[i]));
                    if leaves(backend, masks, items[i], below, Some(kept[i])) {
                        left_by_model(backend, masks, model, items[i], below, Some(kept[i]));
                    } else {
                        left_by_model(backend, masks, model, items[i], below, None);
                    }
                }
                assert(kept =~= expected);
            },
            JsonView::Object(entries) => {
                assert(decreases_to!(value => value->Object_0));
                lemma_entries_by_model(
                    backend,
                    masks,
                    model,
                    entries,
                    path,
                    left->Some_0->Object_0,
                );
            },
            _ => {},
        }
    }
}

/// Where `model` gives the default masks, one list is left of the entries of an object.
proof fn lemma_entries_by_model<M: DetectorMasks>(
    backend: BackendView,
    masks: M,
    model: MaskModel,
    entries: Seq<(Seq<char>, JsonView)>,
    path: Seq<Seq<char>>,
    kept: Seq<(Seq<char>, JsonView)>,
)
    requires
        fits(backend.action, masks, model),
        leaves_entries(backend, masks, entries, path, kept),
    ensures
        kept == sanitized_entries(backend, model, entries, path),
    decreases entries, 1nat,
{
    if entries.len() == 0 {
        assert(kept =~= Seq::empty());
    } else {
        let (key, value) = entries.last();
        let front = entries.drop_last();
        let below = path.push(escaped(key));
        assert(decreases_to!(entries => entries[entries.len() - 1]));
        assert(decreases_to!(entries[entries.len() - 1] => entries[entries.len() - 1].1));
        if leaves(backend, masks, value, below, None) && leaves_entries(
            backend,
            masks,
            front,
            path,
            kept,
        ) {
            left_by_model(backend, masks, model, value, below, None);
            lemma_entries_by_model(backend, masks, model, front, path, kept);
        } else {
            left_by_model(backend, masks, model, value, below, Some(kept.last().1));
            lemma_entries_by_model(backend, masks, model, front, path, kept.drop_last());
            assert(kept =~= kept.drop_last().push(kept.last()));
        }
    }
}

/// What is left of the items of the array at a path.
pub open spec fn sanitized_items(
    backend: BackendView,
    model: MaskModel,
    items: Seq<JsonView>,
    path: Seq<Seq<char>>,
) -> Seq<JsonView> {
    Seq::new(
        items.len(),
        |i: int| or_null(sanitized(backend, model, items[i], path.push(decimal(i as nat)))),
    )
}

/// Whether the backend removes the value at a path, whatever it is.
pub open spec fn removes(backend: BackendView, path: Seq<Seq<char>>) -> bool {
    backend.target_paths.len() > 0 && targeted(backend, path) && backend.action is Remove
}

/// What is left of an array that is not removed: an array of the same length, with what is left of
/// each item in its place.
pub proof fn sanitized_array(
    backend: BackendView,
    model: MaskModel,
    items: Seq<JsonView>,
    path: Seq<Seq<char>>,
)
    ensures
        !removes(backend, path) ==> sanitized(backend, model, JsonView::Array(items), path)
            == Some(JsonView::Array(sanitized_items(backend, model, items, path))),
{
    if !removes(backend, path) {
        let left = sanitized(backend, model, JsonView::Array(items), path)->Some_0->Array_0;
        assert(left =~= sanitized_items(backend, model, items, path));
    }
}

/// The view of what an action makes of a text.
pub open spec fn as_string(text: Option<Seq<char>>) -> Option<JsonView> {
    match text {
        Some(text) => Some(JsonView::String(text)),
        None => None,
    }
}

impl CompiledBuiltinBackend {
    /// Whether the backend works on the value at a path.
    pub fn matches_current_preorder_path(&self, path_segments: &[String]) -> (matched: bool)
        ensures
            matched == targeted(self@, texts(path_segments@)),
    {
        if self.target_paths.len() == 0 {
            return true;
        }
        let current: String = render_json_pointer_path(path_segments);
        let ghost paths = texts(self.target_paths@);
        let mut i: usize = 0;
        while i < self.target_paths.len()
            invariant
                i <= self.target_paths.len(),
                paths == texts(self.target_paths@),
                current@ == rendered(texts(path_segments@)),
                forall|j: int| 0 <= j < i ==> #[trigger] paths[j] != current@,
            decreases self.target_paths.len() - i,
        {
            assert(paths[i as int] == self.target_paths@[i as int]@);
            if self.target_paths[i] == current {
                assert(paths.contains(current@));
                return true;
            }
            i += 1;
        }
        false
    }

    /// What the action makes of a text: `None` if it removes it.
    pub fn sanitize_string_value<M: DetectorMasks>(&self, text: String, masks: &M) -> (result:
        Option<Json>)
        ensures
            match result {
                Some(Json::String(output)) => sanitizes_text(
                    self@.action,
                    *masks,
                    text@,
                    Some(output@),
                ),
                Some(_) => false,
                None => sanitizes_text(self@.action, *masks, text@, None),
            },
            forall|model: MaskModel|
                #[trigger] fits(self@.action, *masks, model) ==> option_view(result) == as_string(
                    sanitized_text(self@.action, model, text@),
                ),
            !asks_detector(self@.action) ==> option_view(result) == as_string(
                sanitized_text(self@.action, no_masks(), text@),
            ),
            result is None <==> self@.action is Remove,
            result matches Some(value) ==> value is String,
    {
        assert(!asks_detector(self@.action) ==> fits(self@.action, *masks, no_masks()));
        match &self.action {
            BuiltinAction::Remove => None,
            BuiltinAction::Hash { matcher } => {
                match matcher {
                    Some(regex) => {
                        let digest = |part: &str| -> (output: String)
                            ensures
                                output@ == text_digest(part@),
                            { hex_sha256(part) };
                        let output: String = replace_all_with(regex, text.as_str(), digest);
                        proof {
                            let part = |part: Seq<char>| text_digest(part);
                            lemma_replaced_with(*regex, text@, digest, part, output@);
                        }
                        Some(Json::String(output))
                    },
                    None => Some(Json::String(hex_sha256(text.as_str()))),
                }
            },
            BuiltinAction::Mask { matcher, strategy } => {
                match matcher {
                    Some(regex) => {
                        let mask = |part: &str| -> (output: String)
                            ensures
                                masks_with(strategy@, *masks, part@, output@),
                            { mask_with_strategy(part, strategy, masks) };
                        let output: String = replace_all_with(regex, text.as_str(), mask);
                        proof {
                            let spans = match_spans(*regex, text@);
                            let parts = choose|parts: Seq<Seq<char>>|
                                parts.len() == spans.len() && output@ == #[trigger] spliced(
                                    text@,
                                    spans,
                                    parts,
                                    0,
                                ) && forall|i: int|
                                    0 <= i < spans.len() ==> replaces(
                                        mask,
                                        text@.subrange(spans[i].0, spans[i].1),
                                        #[trigger] parts[i],
                                    );
                            assert forall|i: int| 0 <= i < spans.len() implies masks_with(
                                strategy@,
                                *masks,
                                text@.subrange(spans[i].0, spans[i].1),
                                #[trigger] parts[i],
                            ) by {
                                assert(replaces(
                                    mask,
                                    text@.subrange(spans[i].0, spans[i].1),
                                    parts[i],
                                ));
                            }
                            assert(masks_matches(*regex, strategy@, *masks, text@, output@));
                            assert forall|model: MaskModel| #[trigger]
                                fits(self@.action, *masks, model) implies Some(output@)
                                == sanitized_text(self@.action, model, text@) by {
                                lemma_text_by_model(
                                    self@.action,
                                    *masks,
                                    model,
                                    text@,
                                    Some(output@),
                                );
                            }
                        }
                        Some(Json::String(output))
                    },
                    None => Some(Json::String(mask_with_strategy(text.as_str(), strategy, masks))),
                }
            },
            BuiltinAction::Redact { matcher, replacement } => Some(
                Json::String(replace_matches(matcher, text.as_str(), replacement.as_str())),
            ),
            BuiltinAction::RegexReplace { pattern, replacement } => Some(
                Json::String(replace_matches(pattern, text.as_str(), replacement.as_str())),
            ),
        }
    }

    /// What is left of the value at a path.
    pub fn sanitize_json_preorder_dfs_at_path<M: DetectorMasks>(
        &self,
        value: Json,
        path_segments: &mut Vec<String>,
        masks: &M,
    ) -> (result: Option<Json>)
        ensures
            final(path_segments)@ == old(path_segments)@,
            leaves(self@, *masks, value@, texts(old(path_segments)@), option_view(result)),
            forall|model: MaskModel|
                #[trigger] fits(self@.action, *masks, model) ==> option_view(result) == sanitized(
                    self@,
                    model,
                    value@,
                    texts(old(path_segments)@),
                ),
            !asks_detector(self@.action) ==> option_view(result) == sanitized(
                self@,
                no_masks(),
                value@,
                texts(old(path_segments)@),
            ),
            result is None <==> self@.action is Remove && (self@.target_paths.contains(
                rendered(texts(old(path_segments)@)),
            ) || (self@.target_paths.len() == 0 && value@ is String)),
            !(self@.action is Remove) ==> same_shape(value@, result->Some_0@),
        decreases value,
    {
        let ghost path = texts(path_segments@);
        let ghost whole = value@;
        let targeted_here: bool = self.matches_current_preorder_path(path_segments.as_slice());
        let result: Option<Json> = if self.target_paths.len() > 0 && targeted_here && matches!(
            self.action,
            BuiltinAction::Remove
        ) {
            None
        } else {
            match value {
                Json::String(text) => {
                    if targeted_here {
                        self.sanitize_string_value(text, masks)
                    } else {
                        Some(Json::String(text))
                    }
                },
                Json::Array(items) => {
                    proof {
                        array_view(items);
                        assert(decreases_to!(value => value->Array_0));
                    }
                    let kept: Vec<Json> = self.sanitize_items(items, path_segments, masks);
                    proof {
                        array_view(kept);
                        let views = item_views(items@);
                        assert forall|i: int| 0 <= i < views.len() implies leaves_or_null(
                            self@,
                            *masks,
                            #[trigger] views[i],
                            path.push(decimal(i as nat)),
                            item_views(kept@)[i],
                        ) by {}
                    }
                    Some(Json::Array(kept))
                },
                Json::Object(entries) => {
                    proof {
                        object_view(entries);
                        assert(decreases_to!(value => value->Object_0));
                    }
                    let kept: Vec<(String, Json)> = self.sanitize_entries(
                        entries,
                        path_segments,
                        masks,
                    );
                    proof {
                        object_view(kept);
                    }
                    Some(Json::Object(kept))
                },
                other => Some(other),
            }
        };
        proof {
            let left = option_view(result);
            assert(leaves(self@, *masks, whole, path, left));
            assert forall|model: MaskModel| #[trigger]
                fits(self@.action, *masks, model) implies left == sanitized(
                self@,
                model,
                whole,
                path,
            ) by {
                left_by_model(self@, *masks, model, whole, path, left);
            }
            assert(!asks_detector(self@.action) ==> fits(self@.action, *masks, no_masks()));
            what_is_removed(self@, *masks, whole, path, left);
            if !(self@.action is Remove) {
                only_texts_change(self@, *masks, whole, path, left);
            }
        }
        result
    }

    /// What is left of the items of the array at a path.
    fn sanitize_items<M: DetectorMasks>(
        &self,
        items: Vec<Json>,
        path_segments: &mut Vec<String>,
        masks: &M,
    ) -> (kept: Vec<Json>)
        ensures
            final(path_segments)@ == old(path_segments)@,
            kept@.len() == items@.len(),
            forall|i: int|
                0 <= i < items@.len() ==> leaves_or_null(
                    self@,
                    *masks,
                    #[trigger] item_views(items@)[i],
                    texts(old(path_segments)@).push(decimal(i as nat)),
                    item_views(kept@)[i],
                ),
        decreases items,
    {
        let ghost path = texts(path_segments@);
        let ghost views = item_views(items@);
        let mut kept: Vec<Json> = Vec::new();
        let mut index: usize = 0;
        for item in it: items
            invariant
                it.seq() == items@,
                index == it.index(),
                index == kept.len(),
                views == item_views(items@),
                path_segments@ == old(path_segments)@,
                path == texts(path_segments@),
                forall|i: int|
                    0 <= i < index ==> leaves_or_null(
                        self@,
                        *masks,
                        #[trigger] views[i],
                        path.push(decimal(i as nat)),
                        item_views(kept@)[i],
                    ),
        {
            let ghost before = path_segments@;
            let ghost kept_before = item_views(kept@);
            let segment: String = write_position(index);
            proof {
                lemma_push_text(before, segment);
                assert(decreases_to!(items => items@));
                assert(decreases_to!(items@ => items@[index as int]));
                assert(item == items@[index as int]);
            }
            path_segments.push(segment);
            let left: Option<Json> = self.sanitize_json_preorder_dfs_at_path(
                item,
                path_segments,
                masks,
            );
            path_segments.pop();
            assert(path_segments@ =~= before);
            let item: Json = match left {
                Some(item) => item,
                None => Json::Null,
            };
            proof {
                lemma_push_item(kept@, item);
                assert(leaves_or_null(
                    self@,
                    *masks,
                    views[index as int],
                    path.push(decimal(index as nat)),
                    item@,
                ));
                assert forall|i: int| 0 <= i <= index implies leaves_or_null(
                    self@,
                    *masks,
                    #[trigger] views[i],
                    path.push(decimal(i as nat)),
                    kept_before.push(item@)[i],
                ) by {
                    if i < index {
                        assert(kept_before.push(item@)[i] == kept_before[i]);
                    }
                }
            }
            kept.push(item);
            index = kept.len();
        }
        kept
    }

    /// What is left of the entries of the object at a path.
    fn sanitize_entries<M: DetectorMasks>(
        &self,
        entries: Vec<(String, Json)>,
        path_segments: &mut Vec<String>,
        masks: &M,
    ) -> (kept: Vec<(String, Json)>)
        ensures
            final(path_segments)@ == old(path_segments)@,
            leaves_entries(
                self@,
                *masks,
                entry_views(entries@),
                texts(old(path_segments)@),
                entry_views(kept@),
            ),
        decreases entries,
    {
        let ghost path = texts(path_segments@);
        let ghost views = entry_views(entries@);
        let mut kept: Vec<(String, Json)> = Vec::new();
        let ghost mut index: int = 0;
        for entry in it: entries
            invariant
                it.seq() == entries@,
                index == it.index(),
                views == entry_views(entries@),
                path_segments@ == old(path_segments)@,
                path == texts(path_segments@),
                leaves_entries(self@, *masks, views.take(index), path, entry_views(kept@)),
        {
            let (key, value) = entry;
            let ghost before = path_segments@;
            let ghost kept_before = entry_views(kept@);
            let segment: String = escape_json_pointer_segment(key.as_str());
            proof {
                lemma_push_text(before, segment);
                assert(decreases_to!(entries => entries@));
                assert(decreases_to!(entries@ => entries@[index]));
                assert(decreases_to!(entries@[index] => entries@[index].1));
                assert(entry == entries@[index]);
            }
            path_segments.push(segment);
            let left: Option<Json> = self.sanitize_json_preorder_dfs_at_path(
                value,
                path_segments,
                masks,
            );
            path_segments.pop();
            assert(path_segments@ =~= before);
            proof {
                assert(views.take(index + 1).drop_last() =~= views.take(index));
                assert(views.take(index + 1).last() == views[index]);
                assert(views[index] == (key@, value@));
                assert(leaves(
                    self@,
                    *masks,
                    views[index].1,
                    path.push(escaped(views[index].0)),
                    option_view(left),
                ));
            }
            match left {
                Some(value) => {
                    proof {
                        lemma_push_entry(kept@, (key, value));
                        assert(kept_before.push((key@, value@)).drop_last() =~= kept_before);
                    }
                    kept.push((key, value));
                },
                None => {},
            }
            proof {
                index = index + 1;
            }
        }
        assert(views.take(index) =~= views);
        kept
    }

    /// What is left of a value: null if it is removed as a whole.
    pub fn sanitize_json_preorder_dfs<M: DetectorMasks>(&self, value: Json, masks: &M) -> (result:
        Json)
        ensures
            sanitizes(self@, *masks, value@, result@),
            !(self@.action is Remove) ==> same_shape(value@, result@),
    {
        let mut path_segments: Vec<String> = Vec::new();
        assert(!asks_detector(self@.action) ==> fits(self@.action, *masks, no_masks()));
        assert(texts(path_segments@) =~= Seq::empty());
        match self.sanitize_json_preorder_dfs_at_path(value, &mut path_segments, masks) {
            Some(value) => value,
            None => Json::Null,
        }
    }
}

} // verus!
