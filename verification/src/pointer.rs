//! JSON pointers: paths into a JSON value, written as `/`-separated segments.
use vstd::prelude::*;

use crate::text::{chars_of, lemma_push_text, texts};

verus! {

/// How a character is written inside a segment.
pub open spec fn escaped_char(ch: char) -> Seq<char> {
    if ch == '~' {
        seq!['~', '0']
    } else if ch == '/' {
        seq!['~', '1']
    } else {
        seq![ch]
    }
}

/// The segment that stands for an object key: `~` is written `~0` and `/` is written `~1`.
pub open spec fn escaped(key: Seq<char>) -> Seq<char>
    decreases key.len(),
{
    if key.len() == 0 {
        Seq::empty()
    } else {
        escaped_char(key[0]) + escaped(key.skip(1))
    }
}

/// `text` with each `~` followed by `code` turned into `plain`, from the left.
pub open spec fn decoded(text: Seq<char>, code: char, plain: char) -> Seq<char>
    decreases text.len(),
{
    if text.len() == 0 {
        Seq::empty()
    } else if text.len() >= 2 && text[0] == '~' && text[1] == code {
        seq![plain] + decoded(text.skip(2), code, plain)
    } else {
        seq![text[0]] + decoded(text.skip(1), code, plain)
    }
}

/// The key that a segment stands for: `~1` is read as `/`, and after that `~0` as `~`.
pub open spec fn unescaped(segment: Seq<char>) -> Seq<char> {
    decoded(decoded(segment, '1', '/'), '0', '~')
}

/// The pieces of `text` between its slashes. There is always one more piece than slashes.
pub open spec fn pieces(text: Seq<char>) -> Seq<Seq<char>>
    decreases text.len(),
{
    if text.len() == 0 {
        seq![Seq::empty()]
    } else if text[0] == '/' {
        seq![Seq::empty()] + pieces(text.skip(1))
    } else {
        extended(seq![text[0]], pieces(text.skip(1)))
    }
}

/// The pieces with `start` put in front of the first one.
pub open spec fn extended(start: Seq<char>, rest: Seq<Seq<char>>) -> Seq<Seq<char>> {
    seq![start + rest[0]] + rest.skip(1)
}

/// The keys that a pointer leads through: none unless it starts with a slash.
pub open spec fn pointer_keys(pointer: Seq<char>) -> Option<Seq<Seq<char>>> {
    if pointer.len() > 0 && pointer[0] == '/' {
        let segments = pieces(pointer.skip(1));
        Some(Seq::new(segments.len(), |i: int| unescaped(segments[i])))
    } else {
        None
    }
}

/// The pointer made of the given segments, each behind a slash.
pub open spec fn rendered(segments: Seq<Seq<char>>) -> Seq<char>
    decreases segments.len(),
{
    if segments.len() == 0 {
        Seq::empty()
    } else {
        seq!['/'] + segments[0] + rendered(segments.skip(1))
    }
}

/// The segments for a list of keys.
pub open spec fn all_escaped(keys: Seq<Seq<char>>) -> Seq<Seq<char>> {
    Seq::new(keys.len(), |i: int| escaped(keys[i]))
}

/// There is at least one piece.
proof fn lemma_pieces_nonempty(text: Seq<char>)
    ensures
        pieces(text).len() > 0,
    decreases text.len(),
{
    if text.len() > 0 {
        lemma_pieces_nonempty(text.skip(1));
    }
}

/// Writes an object key as a segment.
pub fn escape_json_pointer_segment(segment: &str) -> (written: String)
    ensures
        written@ == escaped(segment@),
{
    let chars: Vec<char> = chars_of(segment);
    let mut written: String = String::new();
    let mut i: usize = 0;
    assert(chars@.skip(0) =~= chars@);
    while i < chars.len()
        invariant
            i <= chars.len(),
            written@ + escaped(chars@.skip(i as int)) == escaped(chars@),
        decreases chars.len() - i,
    {
        let ghost rest = chars@.skip(i as int);
        let ghost before = written@;
        if chars[i] == '~' {
            written.push('~');
            written.push('0');
        } else if chars[i] == '/' {
            written.push('~');
            written.push('1');
        } else {
            written.push(chars[i]);
        }
        assert(rest[0] == chars@[i as int]);
        assert(rest.skip(1) =~= chars@.skip(i + 1));
        assert(written@ =~= before + escaped_char(rest[0]));
        assert(written@ + escaped(chars@.skip(i + 1)) =~= before + escaped(rest));
        i += 1;
    }
    assert(written@ + escaped(chars@.skip(i as int)) =~= written@);
    written
}

/// Turns each `~` followed by `code` into `plain`.
fn decode(chars: &Vec<char>, code: char, plain: char) -> (read: Vec<char>)
    ensures
        read@ == decoded(chars@, code, plain),
{
    let mut read: Vec<char> = Vec::new();
    let mut i: usize = 0;
    assert(chars@.skip(0) =~= chars@);
    while i < chars.len()
        invariant
            i <= chars.len(),
            read@ + decoded(chars@.skip(i as int), code, plain) == decoded(chars@, code, plain),
        decreases chars.len() - i,
    {
        let ghost rest = chars@.skip(i as int);
        let ghost before = read@;
        assert(rest.skip(1) =~= chars@.skip(i + 1));
        if chars.len() - i >= 2 && chars[i] == '~' && chars[i + 1] == code {
            assert(rest.skip(2) =~= chars@.skip(i + 2));
            read.push(plain);
            i += 2;
        } else {
            read.push(chars[i]);
            i += 1;
        }
        assert(read@ + decoded(chars@.skip(i as int), code, plain) =~= before + decoded(
            rest,
            code,
            plain,
        ));
    }
    assert(read@ + decoded(chars@.skip(i as int), code, plain) =~= read@);
    read
}

/// Reads a segment back as the object key it stands for.
pub fn unescape_json_pointer_segment(segment: &str) -> (key: String)
    ensures
        key@ == unescaped(segment@),
{
    let slashes: Vec<char> = decode(&chars_of(segment), '1', '/');
    let chars: Vec<char> = decode(&slashes, '0', '~');
    let mut key: String = String::new();
    let mut i: usize = 0;
    while i < chars.len()
        invariant
            i <= chars.len(),
            key@ == chars@.take(i as int),
        decreases chars.len() - i,
    {
        key.push(chars[i]);
        i += 1;
        assert(key@ =~= chars@.take(i as int));
    }
    assert(key@ =~= chars@);
    key
}

/// The keys that a pointer leads through, or `None` if it does not start with a slash.
pub fn json_pointer_segments(pointer: &str) -> (keys: Option<Vec<String>>)
    ensures
        match keys {
            Some(keys) => pointer_keys(pointer@) == Some(texts(keys@)),
            None => pointer_keys(pointer@) is None,
        },
{
    let chars: Vec<char> = chars_of(pointer);
    if chars.len() == 0 || chars[0] != '/' {
        return None;
    }
    let ghost path = pointer@.skip(1);
    let ghost segments = pieces(path);
    let mut keys: Vec<String> = Vec::new();
    let mut segment: String = String::new();
    let mut i: usize = 1;
    proof {
        lemma_pieces_nonempty(path);
        assert(extended(Seq::empty(), pieces(path)) =~= pieces(path)) by {
            assert(Seq::<char>::empty() + pieces(path)[0] =~= pieces(path)[0]);
        }
        assert(path.skip(0) =~= path);
    }
    while i < chars.len()
        invariant
            chars@ == pointer@,
            1 <= i <= chars.len(),
            path == pointer@.skip(1),
            segments == pieces(path),
            keys.len() < segments.len(),
            segments.skip(keys.len() as int) == extended(segment@, pieces(path.skip(i - 1))),
            forall|j: int|
                0 <= j < keys.len() ==> #[trigger] texts(keys@)[j] == unescaped(segments[j]),
        decreases chars.len() - i,
    {
        let ghost rest = path.skip(i - 1);
        proof {
            assert(rest[0] == chars@[i as int]);
            assert(rest.skip(1) =~= path.skip(i as int));
            lemma_pieces_nonempty(rest.skip(1));
        }
        if chars[i] == '/' {
            let key: String = unescape_json_pointer_segment(segment.as_str());
            proof {
                let open = segments.skip(keys.len() as int);
                assert(segment@ + Seq::empty() =~= segment@);
                assert(open[0] == segment@);
                assert(open[0] == segments[keys.len() as int]);
                assert(open.skip(1) =~= pieces(rest.skip(1)));
                assert(open.skip(1) =~= segments.skip(keys.len() + 1));
                assert(extended(Seq::empty(), pieces(rest.skip(1))) =~= pieces(rest.skip(1))) by {
                    assert(Seq::<char>::empty() + pieces(rest.skip(1))[0] =~= pieces(
                        rest.skip(1),
                    )[0]);
                }
                lemma_push_text(keys@, key);
            }
            keys.push(key);
            segment = String::new();
        } else {
            let ghost before = segment@;
            segment.push(chars[i]);
            proof {
                let tail = pieces(rest.skip(1));
                assert(before + (seq![rest[0]] + tail[0]) =~= segment@ + tail[0]);
                assert(extended(before, extended(seq![rest[0]], tail)) =~= extended(
                    segment@,
                    tail,
                ));
            }
        }
        i += 1;
    }
    let key: String = unescape_json_pointer_segment(segment.as_str());
    proof {
        let open = segments.skip(keys.len() as int);
        assert(path.skip(i - 1) =~= Seq::empty());
        assert(segment@ + Seq::empty() =~= segment@);
        assert(open =~= seq![segment@]);
        assert(open[0] == segments[keys.len() as int]);
        lemma_push_text(keys@, key);
    }
    keys.push(key);
    proof {
        let expected = Seq::new(segments.len(), |j: int| unescaped(segments[j]));
        assert(texts(keys@) =~= expected);
    }
    Some(keys)
}

/// The pointer made of the given segments.
pub fn render_json_pointer_path(path_segments: &[String]) -> (pointer: String)
    ensures
        pointer@ == rendered(texts(path_segments@)),
{
    let ghost segments = texts(path_segments@);
    let mut pointer: String = String::new();
    let mut i: usize = 0;
    assert(segments.skip(0) =~= segments);
    while i < path_segments.len()
        invariant
            i <= path_segments.len(),
            segments == texts(path_segments@),
            pointer@ + rendered(segments.skip(i as int)) == rendered(segments),
        decreases path_segments.len() - i,
    {
        let ghost rest = segments.skip(i as int);
        let ghost before = pointer@;
        pointer.push('/');
        pointer.append(path_segments[i].as_str());
        assert(rest[0] == path_segments@[i as int]@);
        assert(rest.skip(1) =~= segments.skip(i + 1));
        assert(pointer@ + rendered(rest.skip(1)) =~= before + rendered(rest));
        i += 1;
    }
    assert(pointer@ + rendered(segments.skip(i as int)) =~= pointer@);
    pointer
}

/// A key with only its tildes escaped.
spec fn tilde_escaped(key: Seq<char>) -> Seq<char>
    decreases key.len(),
{
    if key.len() == 0 {
        Seq::empty()
    } else if key[0] == '~' {
        seq!['~', '0'] + tilde_escaped(key.skip(1))
    } else {
        seq![key[0]] + tilde_escaped(key.skip(1))
    }
}

/// Reading back the slashes of a segment leaves its tildes escaped.
proof fn lemma_slashes_decoded(key: Seq<char>)
    ensures
        decoded(escaped(key), '1', '/') == tilde_escaped(key),
    decreases key.len(),
{
    reveal_with_fuel(decoded, 3);
    if key.len() > 0 {
        let rest = escaped(key.skip(1));
        lemma_slashes_decoded(key.skip(1));
        let whole = escaped(key);
        if key[0] == '~' {
            assert(whole.skip(1) =~= seq!['0'] + rest);
            assert(whole.skip(1).skip(1) =~= rest);
            assert(decoded(whole, '1', '/') =~= tilde_escaped(key));
        } else if key[0] == '/' {
            assert(whole.skip(2) =~= rest);
        } else {
            assert(whole.skip(1) =~= rest);
        }
    }
}

/// Reading back the tildes gives the key.
proof fn lemma_tildes_decoded(key: Seq<char>)
    ensures
        decoded(tilde_escaped(key), '0', '~') == key,
    decreases key.len(),
{
    if key.len() > 0 {
        let rest = tilde_escaped(key.skip(1));
        let whole = tilde_escaped(key);
        lemma_tildes_decoded(key.skip(1));
        if key[0] == '~' {
            assert(whole.skip(2) =~= rest);
        } else {
            assert(whole.skip(1) =~= rest);
        }
        assert(decoded(whole, '0', '~') =~= key);
    }
}

/// Reading a written key gives the key back.
pub proof fn unescape_undoes_escape(key: Seq<char>)
    ensures
        unescaped(escaped(key)) == key,
{
    lemma_slashes_decoded(key);
    lemma_tildes_decoded(key);
}

/// No two keys are written the same.
pub proof fn escape_is_injective(a: Seq<char>, b: Seq<char>)
    requires
        escaped(a) == escaped(b),
    ensures
        a == b,
{
    unescape_undoes_escape(a);
    unescape_undoes_escape(b);
}

/// A written key holds no slash.
pub proof fn escaped_has_no_slash(key: Seq<char>)
    ensures
        !escaped(key).contains('/'),
    decreases key.len(),
{
    if key.len() > 0 {
        escaped_has_no_slash(key.skip(1));
        let head = escaped_char(key[0]);
        let rest = escaped(key.skip(1));
        assert forall|i: int| 0 <= i < escaped(key).len() implies escaped(key)[i] != '/' by {
            if i >= head.len() {
                assert(escaped(key)[i] == rest[i - head.len()]);
                assert(rest.contains(rest[i - head.len()]));
            }
        }
    }
}

/// Splitting a segment followed by more of a pointer splits off that segment.
proof fn lemma_pieces_of_rendered(first: Seq<char>, more: Seq<Seq<char>>)
    requires
        !first.contains('/'),
    ensures
        pieces(first + rendered(more)) == seq![first] + (if more.len() == 0 {
            Seq::empty()
        } else {
            pieces(rendered(more).skip(1))
        }),
    decreases first.len(),
{
    let text = first + rendered(more);
    let tail = if more.len() == 0 {
        Seq::<Seq<char>>::empty()
    } else {
        pieces(rendered(more).skip(1))
    };
    if first.len() == 0 {
        assert(text =~= rendered(more));
        if more.len() == 0 {
            assert(pieces(text) =~= seq![first] + tail);
        } else {
            assert(text[0] == '/');
            assert(first =~= Seq::empty());
        }
    } else {
        assert(first.contains(first[0]));
        assert(text.skip(1) =~= first.skip(1) + rendered(more));
        assert(!first.skip(1).contains('/')) by {
            if first.skip(1).contains('/') {
                let i = choose|i: int| 0 <= i < first.skip(1).len() && first.skip(1)[i] == '/';
                assert(first[i + 1] == '/');
            }
        }
        lemma_pieces_of_rendered(first.skip(1), more);
        let rest = pieces(text.skip(1));
        assert(rest[0] == first.skip(1));
        assert(seq![text[0]] + rest[0] =~= first);
        assert(pieces(text) =~= seq![first] + tail);
    }
}

/// Splitting a pointer without its first slash gives its segments back.
proof fn lemma_pieces_undo_rendered(segments: Seq<Seq<char>>)
    requires
        segments.len() > 0,
        forall|i: int| 0 <= i < segments.len() ==> !(#[trigger] segments[i]).contains('/'),
    ensures
        pieces(rendered(segments).skip(1)) == segments,
    decreases segments.len(),
{
    let more = segments.skip(1);
    lemma_pieces_of_rendered(segments[0], more);
    assert(rendered(segments).skip(1) =~= segments[0] + rendered(more));
    if more.len() > 0 {
        assert forall|i: int| 0 <= i < more.len() implies !(#[trigger] more[i]).contains('/') by {
            assert(more[i] == segments[i + 1]);
        }
        lemma_pieces_undo_rendered(more);
    }
    assert(pieces(rendered(segments).skip(1)) =~= segments);
}

/// A pointer made of written keys leads through those keys again.
pub proof fn pointer_keys_of_rendered(keys: Seq<Seq<char>>)
    requires
        keys.len() > 0,
    ensures
        pointer_keys(rendered(all_escaped(keys))) == Some(keys),
{
    let segments = all_escaped(keys);
    assert forall|i: int| 0 <= i < segments.len() implies !(#[trigger] segments[i]).contains(
        '/',
    ) by {
        escaped_has_no_slash(keys[i]);
    }
    lemma_pieces_undo_rendered(segments);
    assert(rendered(segments)[0] == '/');
    let read = Seq::new(segments.len(), |i: int| unescaped(segments[i]));
    assert forall|i: int| 0 <= i < keys.len() implies read[i] == keys[i] by {
        unescape_undoes_escape(keys[i]);
    }
    assert(read =~= keys);
}

/// The pieces of a text hold no slash, and rendering them gives the text back behind a slash.
pub proof fn pieces_rejoin(text: Seq<char>)
    ensures
        rendered(pieces(text)) == seq!['/'] + text,
        forall|i: int| 0 <= i < pieces(text).len() ==> !(#[trigger] pieces(text)[i]).contains('/'),
    decreases text.len(),
{
    let whole = pieces(text);
    if text.len() == 0 {
        assert(whole.skip(1) =~= Seq::empty());
        assert(rendered(whole) =~= seq!['/'] + text);
    } else {
        let rest = pieces(text.skip(1));
        pieces_rejoin(text.skip(1));
        lemma_pieces_nonempty(text.skip(1));
        if text[0] == '/' {
            assert(whole.skip(1) =~= rest);
            assert forall|i: int| 0 <= i < whole.len() implies !(#[trigger] whole[i]).contains(
                '/',
            ) by {
                if i > 0 {
                    assert(whole[i] == rest[i - 1]);
                }
            }
        } else {
            assert(whole.skip(1) =~= rest.skip(1));
            assert forall|i: int| 0 <= i < whole.len() implies !(#[trigger] whole[i]).contains(
                '/',
            ) by {
                if i > 0 {
                    assert(whole[i] == rest[i]);
                } else {
                    assert(!rest[0].contains('/'));
                    assert forall|j: int| 0 <= j < whole[0].len() implies whole[0][j] != '/' by {
                        if j > 0 {
                            assert(rest[0].contains(rest[0][j - 1]));
                        }
                    }
                }
            }
            assert(rendered(rest) == seq!['/'] + rest[0] + rendered(rest.skip(1)));
            assert((seq!['/'] + text.skip(1)).skip(1) =~= text.skip(1));
            assert(rendered(rest).skip(1) =~= rest[0] + rendered(rest.skip(1)));
        }
        assert(text =~= seq![text[0]] + text.skip(1));
        assert(rendered(whole) == seq!['/'] + whole[0] + rendered(whole.skip(1)));
        assert(whole[0] + rendered(whole.skip(1)) =~= text);
        assert(rendered(whole) =~= seq!['/'] + text);
    }
}

/// A pointer made of segments without slashes belongs to one list of segments only.
pub proof fn rendered_is_injective(a: Seq<Seq<char>>, b: Seq<Seq<char>>)
    requires
        forall|i: int| 0 <= i < a.len() ==> !(#[trigger] a[i]).contains('/'),
        forall|i: int| 0 <= i < b.len() ==> !(#[trigger] b[i]).contains('/'),
        rendered(a) == rendered(b),
    ensures
        a == b,
{
    if a.len() > 0 && b.len() > 0 {
        lemma_pieces_undo_rendered(a);
        lemma_pieces_undo_rendered(b);
    } else if a.len() > 0 {
        assert(rendered(a)[0] == '/');
    } else if b.len() > 0 {
        assert(rendered(b)[0] == '/');
    } else {
        assert(a =~= b);
    }
}

/// Rendering joined lists of segments is joining their renderings.
pub proof fn rendered_of_joined(a: Seq<Seq<char>>, b: Seq<Seq<char>>)
    ensures
        rendered(a + b) == rendered(a) + rendered(b),
    decreases a.len(),
{
    if a.len() == 0 {
        assert(a + b =~= b);
        assert(rendered(a) + rendered(b) =~= rendered(b));
    } else {
        rendered_of_joined(a.skip(1), b);
        assert((a + b).skip(1) =~= a.skip(1) + b);
        assert(rendered(a + b) =~= rendered(a) + rendered(b));
    }
}

/// A pointer of one segment is that segment behind a slash, and one of none is empty.
pub proof fn rendered_of_one(segment: Seq<char>)
    ensures
        rendered(seq![segment]) == seq!['/'] + segment,
        rendered(Seq::empty()) == Seq::<char>::empty(),
{
    reveal_with_fuel(rendered, 2);
    assert(seq![segment].skip(1) =~= Seq::empty());
    assert(rendered(seq![segment]) =~= seq!['/'] + segment);
}

/// A key is written character by character: a tilde as `~0`, a slash as `~1`, any other character
/// as it is.
pub proof fn escaped_by_character(a: Seq<char>, b: Seq<char>, ch: char)
    ensures
        escaped(a + b) == escaped(a) + escaped(b),
        escaped(Seq::empty()) == Seq::<char>::empty(),
        escaped(seq!['~']) == seq!['~', '0'],
        escaped(seq!['/']) == seq!['~', '1'],
        ch != '~' && ch != '/' ==> escaped(seq![ch]) == seq![ch],
    decreases a.len(),
{
    reveal_with_fuel(escaped, 2);
    assert(seq![ch].skip(1) =~= Seq::empty());
    assert(seq!['~'].skip(1) =~= Seq::empty());
    assert(seq!['/'].skip(1) =~= Seq::empty());
    assert(escaped(seq![ch]) =~= escaped_char(ch));
    assert(escaped(seq!['~']) =~= escaped_char('~'));
    assert(escaped(seq!['/']) =~= escaped_char('/'));
    if a.len() == 0 {
        assert(a + b =~= b);
        assert(escaped(a) + escaped(b) =~= escaped(b));
    } else {
        escaped_by_character(a.skip(1), b, ch);
        assert((a + b).skip(1) =~= a.skip(1) + b);
        assert(escaped(a + b) =~= escaped(a) + escaped(b));
    }
}

/// Decoding a text in two parts, where no tilde stands before the second, decodes both.
proof fn lemma_decoded_parts(a: Seq<char>, b: Seq<char>, code: char, plain: char)
    requires
        a.len() > 0 ==> a.last() != '~',
    ensures
        decoded(a + b, code, plain) == decoded(a, code, plain) + decoded(b, code, plain),
        plain != '~' && a.len() > 0 ==> decoded(a, code, plain).len() > 0 && decoded(
            a,
            code,
            plain,
        ).last() != '~',
    decreases a.len(),
{
    let whole = a + b;
    if a.len() == 0 {
        assert(whole =~= b);
        assert(decoded(a, code, plain) + decoded(b, code, plain) =~= decoded(b, code, plain));
    } else if a.len() >= 2 && a[0] == '~' && a[1] == code {
        assert(whole.skip(2) =~= a.skip(2) + b);
        lemma_decoded_parts(a.skip(2), b, code, plain);
        assert(decoded(whole, code, plain) =~= decoded(a, code, plain) + decoded(b, code, plain));
        if a.len() == 2 {
            assert(decoded(a.skip(2), code, plain) =~= Seq::empty());
        }
    } else {
        assert(a[0] == '~' ==> a.len() >= 2);
        assert(whole.skip(1) =~= a.skip(1) + b);
        lemma_decoded_parts(a.skip(1), b, code, plain);
        assert(decoded(whole, code, plain) =~= decoded(a, code, plain) + decoded(b, code, plain));
        if a.len() == 1 {
            assert(decoded(a.skip(1), code, plain) =~= Seq::empty());
        }
    }
}

/// A segment is read part by part, where no part but the last ends with a tilde.
pub proof fn unescaped_by_parts(a: Seq<char>, b: Seq<char>)
    requires
        a.len() > 0 ==> a.last() != '~',
    ensures
        unescaped(a + b) == unescaped(a) + unescaped(b),
{
    lemma_decoded_parts(a, b, '1', '/');
    lemma_decoded_parts(decoded(a, '1', '/'), decoded(b, '1', '/'), '0', '~');
}

/// The smallest parts of a segment: `~0` is a tilde, `~1` is a slash, any other character is read
/// as it is, and so is a tilde with no such digit behind it.
pub proof fn unescaped_of_the_smallest_parts(ch: char, rest: Seq<char>)
    ensures
        unescaped(Seq::empty()) == Seq::<char>::empty(),
        unescaped(seq!['~', '0']) == seq!['~'],
        unescaped(seq!['~', '1']) == seq!['/'],
        unescaped(seq![ch]) == seq![ch],
        (rest.len() == 0 || (rest[0] != '0' && rest[0] != '1')) ==> unescaped(seq!['~'] + rest)
            == seq!['~'] + unescaped(rest),
{
    reveal_with_fuel(decoded, 4);
    assert(seq![ch].skip(1) =~= Seq::empty());
    assert(decoded(seq![ch], '1', '/') =~= seq![ch]);
    assert(decoded(seq![ch], '0', '~') =~= seq![ch]);
    assert(seq!['~', '0'].skip(1) =~= seq!['0']);
    assert(seq!['~', '0'].skip(2) =~= Seq::empty());
    assert(seq!['0'].skip(1) =~= Seq::empty());
    assert(decoded(seq!['~', '0'], '1', '/') =~= seq!['~', '0']);
    assert(decoded(seq!['~', '0'], '0', '~') =~= seq!['~']);
    assert(seq!['~', '1'].skip(2) =~= Seq::empty());
    assert(decoded(seq!['~', '1'], '1', '/') =~= seq!['/']);
    assert(seq!['/'].skip(1) =~= Seq::empty());
    assert(decoded(seq!['/'], '0', '~') =~= seq!['/']);
    if rest.len() == 0 || (rest[0] != '0' && rest[0] != '1') {
        let text = seq!['~'] + rest;
        assert(text.skip(1) =~= rest);
        let first = decoded(rest, '1', '/');
        assert(decoded(text, '1', '/') =~= seq!['~'] + first);
        if rest.len() > 0 && first.len() > 0 {
            assert(first[0] != '0');
        }
        assert((seq!['~'] + first).skip(1) =~= first);
        assert(decoded(seq!['~'] + first, '0', '~') =~= seq!['~'] + decoded(first, '0', '~'));
    }
}

/// The keys of a pointer are its segments, each read: the pointer is the segments behind slashes,
/// and no segment holds a slash. A text that starts with no slash has none.
pub proof fn keys_are_the_segments_read(pointer: &str, keys: Option<Vec<String>>)
    requires
        call_ensures(json_pointer_segments, (pointer,), keys),
    ensures
        keys is Some <==> pointer@.len() > 0 && pointer@[0] == '/',
        keys matches Some(keys) ==> exists|segments: Seq<Seq<char>>| #[trigger]
            rendered(segments) == pointer@ && segments.len() == keys@.len() && forall|i: int|
                0 <= i < segments.len() ==> !(#[trigger] segments[i]).contains('/') && keys@[i]@
                    == unescaped(segments[i]),
{
    if pointer@.len() > 0 && pointer@[0] == '/' {
        let segments = pieces(pointer@.skip(1));
        pieces_rejoin(pointer@.skip(1));
        assert(seq!['/'] + pointer@.skip(1) =~= pointer@);
        let read = texts(keys->Some_0@);
        assert(read.len() == segments.len());
        assert forall|i: int| 0 <= i < segments.len() implies !(#[trigger] segments[i]).contains('/')
            && keys->Some_0@[i]@ == unescaped(segments[i]) by {
            assert(read[i] == keys->Some_0@[i]@);
        }
        assert(rendered(segments) == pointer@);
    }
}

} // verus!
