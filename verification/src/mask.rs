//! Masking: which characters of a text stay readable.
use vstd::prelude::*;

use crate::config::{BuiltinBackendConfig, BuiltinDetector, ConfigView, DetectorView};
use crate::text::chars_of;

verus! {

/// How a matched text is masked.
#[derive(Debug)]
pub enum BuiltinMaskStrategy {
    /// Keeps characters at both ends and masks the ones between.
    Generic { mask_char: String, unmasked_prefix: usize, unmasked_suffix: usize },
    /// Masks as the detector does by default.
    DetectorDefault { detector: BuiltinDetector, mask_char: String },
}

/// A mask strategy as a mathematical value.
pub enum StrategyView {
    Generic { mask_char: Seq<char>, unmasked_prefix: nat, unmasked_suffix: nat },
    DetectorDefault { detector: DetectorView, mask_char: Seq<char> },
}

impl View for BuiltinMaskStrategy {
    type V = StrategyView;

    open spec fn view(&self) -> StrategyView {
        match self {
            BuiltinMaskStrategy::Generic { mask_char, unmasked_prefix, unmasked_suffix } => {
                StrategyView::Generic {
                    mask_char: mask_char@,
                    unmasked_prefix: *unmasked_prefix as nat,
                    unmasked_suffix: *unmasked_suffix as nat,
                }
            },
            BuiltinMaskStrategy::DetectorDefault { detector, mask_char } => {
                StrategyView::DetectorDefault { detector: detector@, mask_char: mask_char@ }
            },
        }
    }
}

/// The masks that detectors have by default.
pub trait DetectorMasks {
    /// The text as the detector masks it by default.
    fn default_mask(&self, detector: &BuiltinDetector, text: &str, mask_char: &str) -> String;
}

/// Whether `model` gives what `masks` returns for each detector, text and mask character.
pub open spec fn describes_masks<M: DetectorMasks>(masks: M, model: MaskModel) -> bool {
    forall|detector: &BuiltinDetector, text: &str, mask_char: &str, result: String|
        #[trigger] call_ensures(M::default_mask, (&masks, detector, text, mask_char), result)
            ==> result@ == model(detector@, text@, mask_char@)
}

/// Whether `output` is what a detector can give as the default mask of a text.
pub open spec fn masks_by_default<M: DetectorMasks>(
    masks: M,
    detector: DetectorView,
    mask_char: Seq<char>,
    text: Seq<char>,
    output: Seq<char>,
) -> bool {
    exists|with: &BuiltinDetector, part: &str, mask: &str, result: String|
        with@ == detector && part@ == text && mask@ == mask_char && result@ == output
            && #[trigger] call_ensures(M::default_mask, (&masks, with, part, mask), result)
}

/// Whether `output` is a text masked by a strategy, with the default masks that `masks` gives.
pub open spec fn masks_with<M: DetectorMasks>(
    strategy: StrategyView,
    masks: M,
    text: Seq<char>,
    output: Seq<char>,
) -> bool {
    match strategy {
        StrategyView::Generic { mask_char, unmasked_prefix, unmasked_suffix } => output == masked(
            text,
            mask_char,
            unmasked_prefix,
            unmasked_suffix,
        ),
        StrategyView::DetectorDefault { detector, mask_char } => masks_by_default(
            masks,
            detector,
            mask_char,
            text,
            output,
        ),
    }
}

/// Whether `model` can be used for the strategy: it describes `masks`, or the strategy does not
/// use the default mask of a detector.
pub open spec fn fits_strategy<M: DetectorMasks>(
    strategy: StrategyView,
    masks: M,
    model: MaskModel,
) -> bool {
    strategy is DetectorDefault ==> describes_masks(masks, model)
}

/// A function from detector, text and mask character to the masked text.
pub type MaskModel = spec_fn(DetectorView, Seq<char>, Seq<char>) -> Seq<char>;

/// A model for where no detector is asked: every text as it is.
pub open spec fn no_masks() -> MaskModel {
    |detector: DetectorView, text: Seq<char>, mask_char: Seq<char>| text
}

/// `text` written `count` times.
pub open spec fn repeated(text: Seq<char>, count: nat) -> Seq<char>
    decreases count,
{
    if count == 0 {
        Seq::empty()
    } else {
        repeated(text, (count - 1) as nat) + text
    }
}

/// `text` with `mask` for each character but the first `prefix` and the last `suffix`. A text
/// that has no others is kept.
pub open spec fn masked(text: Seq<char>, mask: Seq<char>, prefix: nat, suffix: nat) -> Seq<char> {
    if text.len() <= prefix + suffix {
        text
    } else {
        text.take(prefix as int) + repeated(mask, (text.len() - prefix - suffix) as nat)
            + text.skip(text.len() - suffix)
    }
}

/// `text` masked by a strategy, where `model` gives the default masks of the detectors.
pub open spec fn masked_by(text: Seq<char>, strategy: StrategyView, model: MaskModel) -> Seq<char> {
    match strategy {
        StrategyView::Generic { mask_char, unmasked_prefix, unmasked_suffix } => masked(
            text,
            mask_char,
            unmasked_prefix,
            unmasked_suffix,
        ),
        StrategyView::DetectorDefault { detector, mask_char } => model(detector, text, mask_char),
    }
}

/// The mask strategy of a configuration: the default of its detector, unless the configuration
/// says how many characters stay readable. The mask is `*` unless the configuration has another.
pub open spec fn strategy_of(config: ConfigView, detector: Option<DetectorView>) -> StrategyView {
    let mask_char = match config.mask_char {
        Some(mask_char) => mask_char,
        None => "*"@,
    };
    match detector {
        Some(detector) if config.unmasked_prefix is None && config.unmasked_suffix is None => {
            StrategyView::DetectorDefault { detector, mask_char }
        },
        _ => StrategyView::Generic {
            mask_char,
            unmasked_prefix: match config.unmasked_prefix {
                Some(count) => count,
                None => 0,
            },
            unmasked_suffix: match config.unmasked_suffix {
                Some(count) => count,
                None => 0,
            },
        },
    }
}

/// Masks all but the first `unmasked_prefix` and the last `unmasked_suffix` characters.
pub fn mask_text(text: &str, mask_char: &str, unmasked_prefix: usize, unmasked_suffix: usize) -> (
output: String)
    ensures
        output@ == masked(text@, mask_char@, unmasked_prefix as nat, unmasked_suffix as nat),
{
    let chars: Vec<char> = chars_of(text);
    let len: usize = chars.len();
    if len <= unmasked_prefix.saturating_add(unmasked_suffix) {
        return text.to_owned();
    }
    let mut output: String = String::new();
    let mut i: usize = 0;
    while i < unmasked_prefix
        invariant
            i <= unmasked_prefix <= chars.len(),
            output@ == chars@.take(i as int),
        decreases unmasked_prefix - i,
    {
        output.push(chars[i]);
        i += 1;
        assert(output@ =~= chars@.take(i as int));
    }
    let count: usize = len - unmasked_prefix - unmasked_suffix;
    let ghost kept = output@;
    let mut done: usize = 0;
    assert(output@ =~= kept + repeated(mask_char@, 0));
    while done < count
        invariant
            done <= count,
            output@ == kept + repeated(mask_char@, done as nat),
        decreases count - done,
    {
        output.append(mask_char);
        done += 1;
        assert(output@ =~= kept + repeated(mask_char@, done as nat));
    }
    let ghost hidden = output@;
    let start: usize = len - unmasked_suffix;
    let mut j: usize = start;
    assert(output@ =~= hidden + chars@.subrange(start as int, j as int));
    while j < len
        invariant
            start <= j <= len,
            len == chars.len(),
            output@ == hidden + chars@.subrange(start as int, j as int),
        decreases len - j,
    {
        output.push(chars[j]);
        j += 1;
        assert(output@ =~= hidden + chars@.subrange(start as int, j as int));
    }
    assert(chars@.subrange(start as int, len as int) =~= chars@.skip(start as int));
    output
}

/// The mask strategy of a configuration.
pub fn build_mask_strategy(config: &BuiltinBackendConfig, detector: Option<BuiltinDetector>) -> (
strategy: BuiltinMaskStrategy)
    ensures
        strategy@ == strategy_of(
            config@,
            match detector {
                Some(detector) => Some(detector@),
                None => None,
            },
        ),
{
    let mask_char: String = match &config.mask_char {
        Some(mask_char) => mask_char.clone(),
        None => "*".to_owned(),
    };
    match detector {
        Some(detector) if config.unmasked_prefix.is_none() && config.unmasked_suffix.is_none() => {
            BuiltinMaskStrategy::DetectorDefault { detector, mask_char }
        },
        _ => BuiltinMaskStrategy::Generic {
            mask_char,
            unmasked_prefix: config.unmasked_prefix.unwrap_or(0),
            unmasked_suffix: config.unmasked_suffix.unwrap_or(0),
        },
    }
}

/// Masks a text by a strategy.
pub fn mask_with_strategy<M: DetectorMasks>(
    text: &str,
    strategy: &BuiltinMaskStrategy,
    masks: &M,
) -> (output: String)
    ensures
        masks_with(strategy@, *masks, text@, output@),
        forall|model: MaskModel|
            #[trigger] fits_strategy(strategy@, *masks, model) ==> output@ == masked_by(
                text@,
                strategy@,
                model,
            ),
{
    match strategy {
        BuiltinMaskStrategy::Generic { mask_char, unmasked_prefix, unmasked_suffix } => mask_text(
            text,
            mask_char.as_str(),
            *unmasked_prefix,
            *unmasked_suffix,
        ),
        BuiltinMaskStrategy::DetectorDefault { detector, mask_char } => masks.default_mask(
            detector,
            text,
            mask_char.as_str(),
        ),
    }
}

/// Repeating a text multiplies its length.
proof fn lemma_repeated_len(text: Seq<char>, count: nat)
    ensures
        repeated(text, count).len() == text.len() * count,
    decreases count,
{
    if count > 0 {
        lemma_repeated_len(text, (count - 1) as nat);
        assert(text.len() * (count - 1) + text.len() == text.len() * count) by (nonlinear_arith)
            requires
                count > 0,
        ;
    } else {
        assert(text.len() * 0 == 0) by (nonlinear_arith);
    }
}

/// A mask of one character keeps the length of the text.
pub proof fn single_character_mask_keeps_length(
    text: Seq<char>,
    mask: char,
    prefix: nat,
    suffix: nat,
)
    ensures
        masked(text, seq![mask], prefix, suffix).len() == text.len(),
{
    if text.len() > prefix + suffix {
        let count = (text.len() - prefix - suffix) as nat;
        lemma_repeated_len(seq![mask], count);
        assert(1 * count == count) by (nonlinear_arith);
    }
}

/// The ends that a mask leaves readable are the ends of the text.
pub proof fn masked_text_keeps_its_ends(
    text: Seq<char>,
    mask: Seq<char>,
    prefix: nat,
    suffix: nat,
)
    requires
        prefix + suffix <= text.len(),
    ensures
        masked(text, mask, prefix, suffix).len() >= prefix + suffix,
        masked(text, mask, prefix, suffix).take(prefix as int) == text.take(prefix as int),
        masked(text, mask, prefix, suffix).skip(
            masked(text, mask, prefix, suffix).len() - suffix,
        ) == text.skip(text.len() - suffix),
{
    let result = masked(text, mask, prefix, suffix);
    assert(result.take(prefix as int) =~= text.take(prefix as int));
    assert(result.skip(result.len() - suffix) =~= text.skip(text.len() - suffix));
}

/// Two texts of the same length with the same readable ends are masked to the same text: the mask
/// tells nothing of the characters between.
pub proof fn masked_text_hides_the_middle(
    a: Seq<char>,
    b: Seq<char>,
    mask: Seq<char>,
    prefix: nat,
    suffix: nat,
)
    requires
        a.len() == b.len(),
        prefix + suffix < a.len(),
        a.take(prefix as int) == b.take(prefix as int),
        a.skip(a.len() - suffix) == b.skip(b.len() - suffix),
    ensures
        masked(a, mask, prefix, suffix) == masked(b, mask, prefix, suffix),
{
}

/// Repeating a text repeats its characters in order.
proof fn lemma_repeated_at(text: Seq<char>, count: nat, round: int, j: int)
    requires
        0 <= round < count,
        0 <= j < text.len(),
    ensures
        repeated(text, count).len() == text.len() * count,
        text.len() * round + j < repeated(text, count).len(),
        repeated(text, count)[text.len() * round + j] == text[j],
    decreases count,
{
    lemma_repeated_len(text, count);
    lemma_repeated_len(text, (count - 1) as nat);
    let len = text.len() as int;
    assert(len * round + j < len * count) by (nonlinear_arith)
        requires
            0 <= round < count,
            0 <= j < len,
    ;
    if round == count - 1 {
        assert(repeated(text, count)[len * round + j] == text[j]);
    } else {
        lemma_repeated_at(text, (count - 1) as nat, round, j);
        assert(repeated(text, count)[len * round + j] == repeated(text, (count - 1) as nat)[len
            * round + j]);
    }
}

/// A masked text, character by character: a text of no more characters than stay readable is kept;
/// of any other, the first and the last stay, and each one between gives way to the mask.
pub proof fn masked_text_by_character(
    text: &str,
    mask: &str,
    prefix: usize,
    suffix: usize,
    output: String,
    i: int,
    round: int,
    j: int,
)
    requires
        call_ensures(mask_text, (text, mask, prefix, suffix), output),
    ensures
        text@.len() <= prefix + suffix ==> output@ == text@,
        text@.len() > prefix + suffix ==> {
            let hidden = text@.len() - prefix - suffix;
            &&& output@.len() == prefix + mask@.len() * hidden + suffix
            &&& 0 <= i < prefix ==> output@[i] == text@[i]
            &&& 0 <= i < suffix ==> output@[output@.len() - 1 - i] == text@[text@.len() - 1 - i]
            &&& 0 <= round < hidden && 0 <= j < mask@.len() ==> output@[prefix + (mask@.len()
                * round + j)] == mask@[j]
        },
{
    if text@.len() > prefix + suffix {
        let hidden = (text@.len() - prefix - suffix) as nat;
        let middle = repeated(mask@, hidden);
        let head = text@.take(prefix as int);
        let tail = text@.skip(text@.len() - suffix);
        lemma_repeated_len(mask@, hidden);
        assert(output@ == head + middle + tail);
        if 0 <= i < suffix {
            assert(output@[output@.len() - 1 - i] == tail[tail.len() - 1 - i]);
        }
        if 0 <= round < hidden && 0 <= j < mask@.len() {
            lemma_repeated_at(mask@, hidden, round, j);
            assert(output@[prefix + (mask@.len() * round + j)] == middle[mask@.len() * round + j]);
        }
    }
}

/// A strategy is made of the settings: the default of the detector where there is one and no count
/// is set, and otherwise the counts, each zero where it is not set. The mask is the configured one,
/// or an asterisk.
pub proof fn strategy_is_made_of_the_settings(
    config: BuiltinBackendConfig,
    detector: Option<BuiltinDetector>,
    strategy: BuiltinMaskStrategy,
)
    requires
        call_ensures(build_mask_strategy, (&config, detector), strategy),
    ensures
        strategy is DetectorDefault <==> detector is Some && config.unmasked_prefix is None
            && config.unmasked_suffix is None,
        match strategy {
            BuiltinMaskStrategy::DetectorDefault { detector: with, mask_char } => with.kind
                == detector->Some_0.kind && with.pattern@ == detector->Some_0.pattern@
                && mask_char@ == match config.mask_char {
                Some(mask) => mask@,
                None => "*"@,
            },
            BuiltinMaskStrategy::Generic { mask_char, unmasked_prefix, unmasked_suffix } => {
                &&& mask_char@ == match config.mask_char {
                    Some(mask) => mask@,
                    None => "*"@,
                }
                &&& unmasked_prefix == match config.unmasked_prefix {
                    Some(count) => count,
                    None => 0,
                }
                &&& unmasked_suffix == match config.unmasked_suffix {
                    Some(count) => count,
                    None => 0,
                }
            },
        },
{
    assert(strategy@ == strategy_of(
        config@,
        match detector {
            Some(detector) => Some(detector@),
            None => None,
        },
    ));
}

/// A text masked by a strategy is the text masked by its counts, or what the detector gives for
/// that very text and mask.
pub proof fn strategy_is_followed<M: DetectorMasks>(
    text: &str,
    strategy: BuiltinMaskStrategy,
    masks: M,
    output: String,
)
    requires
        call_ensures(mask_with_strategy::<M>, (text, &strategy, &masks), output),
    ensures
        match strategy {
            BuiltinMaskStrategy::Generic { mask_char, unmasked_prefix, unmasked_suffix } => output@
                == masked(text@, mask_char@, unmasked_prefix as nat, unmasked_suffix as nat),
            BuiltinMaskStrategy::DetectorDefault { detector, mask_char } => exists|
                with: &BuiltinDetector,
                part: &str,
                mask: &str,
                result: String,
            |
                with.kind == detector.kind && with.pattern@ == detector.pattern@ && part@ == text@
                    && mask@ == mask_char@ && result@ == output@ && #[trigger] call_ensures(
                    M::default_mask,
                    (&masks, with, part, mask),
                    result,
                ),
        },
{
    match strategy {
        BuiltinMaskStrategy::DetectorDefault { detector, mask_char } => {
            assert(masks_by_default(masks, detector@, mask_char@, text@, output@));
            let (with, part, mask, result) = choose|
                with: &BuiltinDetector,
                part: &str,
                mask: &str,
                result: String,
            |
                with@ == detector@ && part@ == text@ && mask@ == mask_char@ && result@ == output@
                    && #[trigger] call_ensures(M::default_mask, (&masks, with, part, mask), result);
            assert(with@ == detector@);
        },
        _ => {},
    }
}

} // verus!
