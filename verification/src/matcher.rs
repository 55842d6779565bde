//! Regular expressions: what they match in a text, and the text with its matches replaced.
use vstd::prelude::*;

verus! {

/// `regex::Regex`: a compiled regular expression.
#[verifier::external_type_specification]
#[verifier::external_body]
pub struct ExRegex(regex::Regex);

/// `regex::Error`: why a pattern did not compile.
#[verifier::external_type_specification]
#[verifier::external_body]
pub struct ExRegexError(regex::Error);

/// What `regex::Regex::new` returns for a pattern.
pub uninterp spec fn compiled(pattern: Seq<char>) -> Result<regex::Regex, regex::Error>;

/// The text that a `regex::Error` displays.
pub uninterp spec fn error_text(error: regex::Error) -> Seq<char>;

/// The successive non-overlapping matches of a regular expression in a text: where each begins
/// and where it ends, counted in characters.
pub uninterp spec fn match_spans(regex: regex::Regex, text: Seq<char>) -> Seq<(int, int)>;

/// What `regex::Regex::replace_all` puts for each match: the replacement with its references to
/// capture groups filled in.
pub uninterp spec fn expansions(
    regex: regex::Regex,
    text: Seq<char>,
    replacement: Seq<char>,
) -> Seq<Seq<char>>;

/// The text from `from` on with a part put for each span.
pub open spec fn spliced(
    text: Seq<char>,
    spans: Seq<(int, int)>,
    parts: Seq<Seq<char>>,
    from: int,
) -> Seq<char>
    decreases spans.len(),
{
    if spans.len() == 0 {
        text.skip(from)
    } else {
        text.subrange(from, spans[0].0) + parts[0] + spliced(
            text,
            spans.skip(1),
            parts.skip(1),
            spans[0].1,
        )
    }
}

/// Calls `regex::Regex::new`. Claimed of it: what it returns depends on the pattern alone.
#[verifier::external_body]
pub(crate) fn compile(pattern: &str) -> (result: Result<regex::Regex, regex::Error>)
    ensures
        result == compiled(pattern@),
{
    regex::Regex::new(pattern)
}

/// Calls `ToString::to_string` of a `regex::Error`. Claimed of it: the text depends on the error
/// alone.
#[verifier::external_body]
pub(crate) fn describe(error: &regex::Error) -> (text: String)
    ensures
        text@ == error_text(*error),
{
    error.to_string()
}

/// Whether `replace`, called with a text that reads `input`, can return a text that reads
/// `output`.
pub open spec fn replaces<F: Fn(&str) -> String>(
    replace: F,
    input: Seq<char>,
    output: Seq<char>,
) -> bool {
    exists|text: &str, result: String|
        text@ == input && result@ == output && #[trigger] call_ensures(replace, (text,), result)
}

/// Whether `result` is `text` with, for each match, something that `replace` can return for the
/// matched part.
pub open spec fn replaced_with<F: Fn(&str) -> String>(
    regex: regex::Regex,
    text: Seq<char>,
    replace: F,
    result: Seq<char>,
) -> bool {
    let spans = match_spans(regex, text);
    exists|parts: Seq<Seq<char>>|
        parts.len() == spans.len() && result == #[trigger] spliced(text, spans, parts, 0)
            && forall|i: int|
            0 <= i < spans.len() ==> replaces(
                replace,
                text.subrange(spans[i].0, spans[i].1),
                #[trigger] parts[i],
            )
}

/// `text` with `part` of each match put for that match.
pub open spec fn each_match(
    regex: regex::Regex,
    text: Seq<char>,
    part: spec_fn(Seq<char>) -> Seq<char>,
) -> Seq<char> {
    let spans = match_spans(regex, text);
    spliced(
        text,
        spans,
        Seq::new(spans.len(), |i: int| part(text.subrange(spans[i].0, spans[i].1))),
        0,
    )
}

/// Calls `regex::Regex::replace_all` with a closure. Claimed of it: the text between the matches
/// is kept, and each match gives way to what the closure returns for the matched part.
#[verifier::external_body]
pub(crate) fn replace_all_with<F: Fn(&str) -> String>(
    regex: &regex::Regex,
    text: &str,
    replace: F,
) -> (result: String)
    requires
        forall|part: &str| call_requires(replace, (part,)),
    ensures
        replaced_with(*regex, text@, replace, result@),
{
    let part = |captures: &regex::Captures<'_>| {
        replace(captures.get(0).map(|part| part.as_str()).unwrap_or(""))
    };
    regex.replace_all(text, part).into_owned()
}

/// A replacement that is a function of the matched part puts its value for each match.
pub proof fn lemma_replaced_with<F: Fn(&str) -> String>(
    regex: regex::Regex,
    text: Seq<char>,
    replace: F,
    part: spec_fn(Seq<char>) -> Seq<char>,
    result: Seq<char>,
)
    requires
        replaced_with(regex, text, replace, result),
        forall|input: Seq<char>, output: Seq<char>|
            #[trigger] replaces(replace, input, output) ==> output == part(input),
    ensures
        result == each_match(regex, text, part),
{
    let spans = match_spans(regex, text);
    let parts = choose|parts: Seq<Seq<char>>|
        parts.len() == spans.len() && result == #[trigger] spliced(text, spans, parts, 0)
            && forall|i: int|
            0 <= i < spans.len() ==> replaces(
                replace,
                text.subrange(spans[i].0, spans[i].1),
                #[trigger] parts[i],
            );
    let expected = Seq::new(spans.len(), |i: int| part(text.subrange(spans[i].0, spans[i].1)));
    assert(parts =~= expected);
}

/// What is put for each match: the replacement as it is, or, where it has a `$`, with its
/// references to capture groups filled in.
pub open spec fn replacements(
    regex: regex::Regex,
    text: Seq<char>,
    replacement: Seq<char>,
) -> Seq<Seq<char>> {
    if replacement.contains('$') {
        expansions(regex, text, replacement)
    } else {
        Seq::new(match_spans(regex, text).len(), |i: int| replacement)
    }
}

/// `text` with the replacement put for each match.
pub open spec fn replaced(
    regex: regex::Regex,
    text: Seq<char>,
    replacement: Seq<char>,
) -> Seq<char> {
    spliced(text, match_spans(regex, text), replacements(regex, text, replacement), 0)
}

/// Calls `regex::Regex::replace_all` with a replacement text. Claimed of it: the text between the
/// matches is kept, and each match gives way to the replacement with its references filled in. A
/// replacement without `$` has no references.
#[verifier::external_body]
fn replace_all(regex: &regex::Regex, text: &str, replacement: &str) -> (result: String)
    ensures
        replacement@.contains('$') ==> result@ == spliced(
            text@,
            match_spans(*regex, text@),
            expansions(*regex, text@, replacement@),
            0,
        ),
        !replacement@.contains('$') ==> result@ == spliced(
            text@,
            match_spans(*regex, text@),
            Seq::new(match_spans(*regex, text@).len(), |i: int| replacement@),
            0,
        ),
{
    regex.replace_all(text, replacement).into_owned()
}

/// Puts the replacement for each match.
pub fn replace_matches(regex: &regex::Regex, text: &str, replacement: &str) -> (result: String)
    ensures
        result@ == replaced(*regex, text@, replacement@),
{
    let result: String = replace_all(regex, text, replacement);
    proof {
        let count = match_spans(*regex, text@).len();
        assert(!replacement@.contains('$') ==> Seq::new(count, |i: int| replacement@)
            =~= replacements(*regex, text@, replacement@));
    }
    result
}

/// A text in which nothing matches is left as it is.
pub proof fn text_without_match_is_kept(
    regex: regex::Regex,
    text: Seq<char>,
    replacement: Seq<char>,
    part: spec_fn(Seq<char>) -> Seq<char>,
)
    requires
        match_spans(regex, text).len() == 0,
    ensures
        replaced(regex, text, replacement) == text,
        each_match(regex, text, part) == text,
{
    assert(text.skip(0) =~= text);
}

/// A text that matches as a whole gives way as a whole.
pub proof fn whole_match_is_replaced(
    regex: regex::Regex,
    text: Seq<char>,
    replacement: Seq<char>,
    part: spec_fn(Seq<char>) -> Seq<char>,
)
    requires
        match_spans(regex, text) == seq![(0int, text.len() as int)],
        !replacement.contains('$'),
    ensures
        replaced(regex, text, replacement) == replacement,
        each_match(regex, text, part) == part(text),
{
    let spans = match_spans(regex, text);
    let rest = spans.skip(1);
    assert(rest.len() == 0);
    let constant = replacements(regex, text, replacement);
    assert(spliced(text, rest, constant.skip(1), text.len() as int) =~= Seq::empty());
    assert(replaced(regex, text, replacement) =~= replacement);
    let parts = Seq::new(spans.len(), |i: int| part(text.subrange(spans[i].0, spans[i].1)));
    assert(spliced(text, rest, parts.skip(1), text.len() as int) =~= Seq::empty());
    assert(text.subrange(0, text.len() as int) =~= text);
    assert(each_match(regex, text, part) =~= part(text));
}

/// Replacing keeps the text between the matches, and puts for each match the replacement, which is
/// expanded only where it has a `$`.
pub proof fn each_match_gives_way(
    regex: regex::Regex,
    text: &str,
    replacement: &str,
    result: String,
)
    requires
        call_ensures(replace_matches, (&regex, text, replacement), result),
    ensures
        replacement@.contains('$') ==> result@ == spliced(
            text@,
            match_spans(regex, text@),
            expansions(regex, text@, replacement@),
            0,
        ),
        !replacement@.contains('$') ==> exists|parts: Seq<Seq<char>>|
            parts.len() == match_spans(regex, text@).len() && result@ == #[trigger] spliced(
                text@,
                match_spans(regex, text@),
                parts,
                0,
            ) && forall|i: int| 0 <= i < parts.len() ==> #[trigger] parts[i] == replacement@,
{
    if !replacement@.contains('$') {
        let parts = replacements(regex, text@, replacement@);
        assert(result@ == spliced(text@, match_spans(regex, text@), parts, 0));
    }
}

/// Whether spans lie in order in a text, from a place on.
pub open spec fn in_order(text: Seq<char>, spans: Seq<(int, int)>, from: int) -> bool
    decreases spans.len(),
{
    if spans.len() == 0 {
        0 <= from <= text.len()
    } else {
        0 <= from <= spans[0].0 && spans[0].0 <= spans[0].1 && in_order(
            text,
            spans.skip(1),
            spans[0].1,
        )
    }
}

/// Putting each matched part in its own place gives the text again.
pub proof fn matched_parts_make_the_text(
    text: Seq<char>,
    spans: Seq<(int, int)>,
    parts: Seq<Seq<char>>,
    from: int,
)
    requires
        in_order(text, spans, from),
        parts.len() == spans.len(),
        forall|i: int|
            0 <= i < spans.len() ==> #[trigger] parts[i] == text.subrange(spans[i].0, spans[i].1),
    ensures
        0 <= from <= text.len(),
        spliced(text, spans, parts, from) == text.skip(from),
    decreases spans.len(),
{
    if spans.len() > 0 {
        let (start, end) = spans[0];
        assert forall|i: int| 0 <= i < spans.skip(1).len() implies #[trigger] parts.skip(1)[i]
            == text.subrange(spans.skip(1)[i].0, spans.skip(1)[i].1) by {
            assert(parts.skip(1)[i] == parts[i + 1]);
        }
        matched_parts_make_the_text(text, spans.skip(1), parts.skip(1), end);
        assert(parts[0] == text.subrange(start, end));
        assert(text.subrange(from, start) + text.subrange(start, end) + text.skip(end)
            =~= text.skip(from));
    }
}

/// Other parts for the matches change nothing but these: two texts with parts of the same lengths
/// have the same length, and the same characters wherever the parts have.
pub proof fn only_the_parts_differ(
    text: Seq<char>,
    spans: Seq<(int, int)>,
    a: Seq<Seq<char>>,
    b: Seq<Seq<char>>,
    from: int,
    same: int,
)
    requires
        a.len() == spans.len(),
        b.len() == spans.len(),
        0 <= same <= spans.len(),
        forall|i: int| 0 <= i < same ==> #[trigger] a[i] == b[i],
    ensures
        same == spans.len() ==> spliced(text, spans, a, from) == spliced(text, spans, b, from),
        spliced(text, spans, a, from).len() - total(a) == spliced(text, spans, b, from).len()
            - total(b),
    decreases spans.len(),
{
    if spans.len() > 0 {
        let less = if same > 0 {
            same - 1
        } else {
            0
        };
        assert forall|i: int| 0 <= i < less implies #[trigger] a.skip(1)[i] == b.skip(1)[i] by {
            assert(a.skip(1)[i] == a[i + 1] && b.skip(1)[i] == b[i + 1]);
        }
        only_the_parts_differ(text, spans.skip(1), a.skip(1), b.skip(1), spans[0].1, less);
        if same > 0 {
            assert(a[0] == b[0]);
        }
    }
}

/// The number of characters of all parts.
pub open spec fn total(parts: Seq<Seq<char>>) -> int
    decreases parts.len(),
{
    if parts.len() == 0 {
        0
    } else {
        parts[0].len() + total(parts.skip(1))
    }
}

/// The text up to the first match is kept, what is put for it follows, and the text behind the
/// last match ends the whole.
pub proof fn text_around_the_matches(
    text: Seq<char>,
    spans: Seq<(int, int)>,
    parts: Seq<Seq<char>>,
    from: int,
)
    requires
        in_order(text, spans, from),
        parts.len() == spans.len() > 0,
    ensures
        (text.subrange(from, spans[0].0) + parts[0]).is_prefix_of(spliced(text, spans, parts, from)),
        (parts.last() + text.skip(spans.last().1)).is_suffix_of(spliced(text, spans, parts, from)),
    decreases spans.len(),
{
    let whole = spliced(text, spans, parts, from);
    let head = text.subrange(from, spans[0].0) + parts[0];
    let rest = spliced(text, spans.skip(1), parts.skip(1), spans[0].1);
    assert(whole == head + rest);
    assert(whole.subrange(0, head.len() as int) =~= head);
    let tail = parts.last() + text.skip(spans.last().1);
    if spans.len() == 1 {
        assert(rest == text.skip(spans[0].1));
        assert(whole =~= text.subrange(from, spans[0].0) + tail);
        assert(whole.subrange(whole.len() - tail.len(), whole.len() as int) =~= tail);
    } else {
        text_around_the_matches(text, spans.skip(1), parts.skip(1), spans[0].1);
        assert(spans.skip(1).last() == spans.last() && parts.skip(1).last() == parts.last());
        assert(tail.is_suffix_of(rest));
        assert(whole.subrange(whole.len() - tail.len(), whole.len() as int) =~= rest.subrange(
            rest.len() - tail.len(),
            rest.len() as int,
        ));
    }
}

} // verus!
