//! How the two inputs of a comparison are to be read, what is tried for an
//! input whose kind is to be inferred, and the bytes that an input of
//! hexadecimal digits stands for.

use vstd::prelude::*;

verus! {

/// Indicates the type of input for an argument.
#[derive(Clone, Copy, Debug, PartialEq, Eq, Structural)]
pub enum InputType {
    /// The kind is to be inferred from the input.
    Auto,
    /// The input is the name of a file.
    File,
    /// The input is a string of pairs of hexadecimal digits.
    Hex,
    /// The input is a stream of values.
    Ion,
}

/// More than two input mode flags were given.
#[derive(Clone, Copy, Debug, PartialEq, Eq, Structural)]
pub struct TooManyInputModes;

/// How often each of the three input mode flags was given, and where on
/// the command line each was given last.
#[derive(Clone, Copy, Debug)]
pub struct InputModeFlags {
    pub file_count: u8,
    pub ion_count: u8,
    pub hex_count: u8,
    pub file_index: Option<usize>,
    pub ion_index: Option<usize>,
    pub hex_index: Option<usize>,
}

impl InputModeFlags {
    /// Where two different flags were each given once, the place of both
    /// on the command line is known.
    pub open spec fn well_formed(self) -> bool {
        let counts = (self.file_count, self.ion_count, self.hex_count);
        &&& counts == (1u8, 1u8, 0u8) ==> self.file_index is Some && self.ion_index is Some
        &&& counts == (1u8, 0u8, 1u8) ==> self.file_index is Some && self.hex_index is Some
        &&& counts == (0u8, 1u8, 1u8) ==> self.ion_index is Some && self.hex_index is Some
    }

    /// Whether the flags can be read: where two different flags were each
    /// given once, the place of both is known.
    pub fn places_are_known(&self) -> (known: bool)
        ensures
            known == self.well_formed(),
    {
        if self.file_count == 1 && self.ion_count == 1 && self.hex_count == 0 {
            self.file_index.is_some() && self.ion_index.is_some()
        } else if self.file_count == 1 && self.ion_count == 0 && self.hex_count == 1 {
            self.file_index.is_some() && self.hex_index.is_some()
        } else if self.file_count == 0 && self.ion_count == 1 && self.hex_count == 1 {
            self.ion_index.is_some() && self.hex_index.is_some()
        } else {
            true
        }
    }
}

/// The modes for two different flags that were each given once: the flag
/// that comes first on the command line is for the first input.
pub open spec fn ordered_pair(
    first: InputType,
    first_index: Option<usize>,
    second: InputType,
    second_index: Option<usize>,
) -> (InputType, InputType) {
    if first_index->0 < second_index->0 {
        (first, second)
    } else {
        (second, first)
    }
}

/// The modes of the two inputs: without flags both are inferred; one flag
/// is for the first input; a flag given twice is for both; two different
/// flags are taken in the order they were given; anything more is too
/// much.
pub open spec fn input_modes(flags: InputModeFlags) -> Result<
    (InputType, InputType),
    TooManyInputModes,
> {
    let counts = (flags.file_count, flags.ion_count, flags.hex_count);
    if counts == (0u8, 0u8, 0u8) {
        Ok((InputType::Auto, InputType::Auto))
    } else if counts == (1u8, 0u8, 0u8) {
        Ok((InputType::File, InputType::Auto))
    } else if counts == (0u8, 1u8, 0u8) {
        Ok((InputType::Ion, InputType::Auto))
    } else if counts == (0u8, 0u8, 1u8) {
        Ok((InputType::Hex, InputType::Auto))
    } else if counts == (2u8, 0u8, 0u8) {
        Ok((InputType::File, InputType::File))
    } else if counts == (0u8, 2u8, 0u8) {
        Ok((InputType::Ion, InputType::Ion))
    } else if counts == (0u8, 0u8, 2u8) {
        Ok((InputType::Hex, InputType::Hex))
    } else if counts == (1u8, 1u8, 0u8) {
        Ok(ordered_pair(InputType::File, flags.file_index, InputType::Ion, flags.ion_index))
    } else if counts == (1u8, 0u8, 1u8) {
        Ok(ordered_pair(InputType::File, flags.file_index, InputType::Hex, flags.hex_index))
    } else if counts == (0u8, 1u8, 1u8) {
        Ok(ordered_pair(InputType::Ion, flags.ion_index, InputType::Hex, flags.hex_index))
    } else {
        Err(TooManyInputModes)
    }
}

/// Reads the input modes of the two inputs from the flags.
pub fn read_input_modes(flags: &InputModeFlags) -> (result: Result<
    (InputType, InputType),
    TooManyInputModes,
>)
    requires
        flags.well_formed(),
    ensures
        result == input_modes(*flags),
{
    let total_is_small = flags.file_count <= 2 && flags.ion_count <= 2 && flags.hex_count <= 2;
    if !total_is_small {
        return Err(TooManyInputModes);
    }
    let total = flags.file_count + flags.ion_count + flags.hex_count;
    if total > 2 {
        return Err(TooManyInputModes);
    }
    if total == 0 {
        return Ok((InputType::Auto, InputType::Auto));
    }
    if flags.file_count == total {
        let second = if total == 2 {
            InputType::File
        } else {
            InputType::Auto
        };
        return Ok((InputType::File, second));
    }
    if flags.ion_count == total {
        let second = if total == 2 {
            InputType::Ion
        } else {
            InputType::Auto
        };
        return Ok((InputType::Ion, second));
    }
    if flags.hex_count == total {
        let second = if total == 2 {
            InputType::Hex
        } else {
            InputType::Auto
        };
        return Ok((InputType::Hex, second));
    }
    // two different flags, each given once
    match (flags.file_index, flags.ion_index, flags.hex_index) {
        (Some(file), Some(ion), _) if flags.hex_count == 0 => if file < ion {
            Ok((InputType::File, InputType::Ion))
        } else {
            Ok((InputType::Ion, InputType::File))
        },
        (Some(file), _, Some(hex)) if flags.ion_count == 0 => if file < hex {
            Ok((InputType::File, InputType::Hex))
        } else {
            Ok((InputType::Hex, InputType::File))
        },
        (_, Some(ion), Some(hex)) => if ion < hex {
            Ok((InputType::Ion, InputType::Hex))
        } else {
            Ok((InputType::Hex, InputType::Ion))
        },
        _ => Err(TooManyInputModes),
    }
}

/// The value of a hexadecimal digit in either letter case; none for any
/// other byte.
pub open spec fn hex_value(byte: u8) -> Option<int> {
    if 48 <= byte <= 57 {
        Some(byte - 48)
    } else if 97 <= byte <= 102 {
        Some(byte - 87)
    } else if 65 <= byte <= 70 {
        Some(byte - 55)
    } else {
        None
    }
}

/// Whether a byte is ASCII white space.
pub open spec fn is_space(byte: u8) -> bool {
    byte == 32 || (9 <= byte <= 13)
}

/// The bytes that a text of pairs of hexadecimal digits stands for. White
/// space may stand before, between and behind the pairs, not inside one;
/// none where the text holds anything else.
pub open spec fn hex_decoded(text: Seq<u8>) -> Option<Seq<u8>>
    decreases text.len(),
{
    if text.len() == 0 {
        Some(Seq::empty())
    } else if is_space(text[0]) {
        hex_decoded(text.skip(1))
    } else if text.len() >= 2 && hex_value(text[0]) is Some && hex_value(text[1]) is Some {
        match hex_decoded(text.skip(2)) {
            Some(rest) => Some(
                seq![(16 * hex_value(text[0])->0 + hex_value(text[1])->0) as u8] + rest,
            ),
            None => None,
        }
    } else {
        None
    }
}

/// The bytes read so far, followed by what the rest of the text stands for.
pub open spec fn hex_continued(read: Seq<u8>, rest: Option<Seq<u8>>) -> Option<Seq<u8>> {
    match rest {
        Some(bytes) => Some(read + bytes),
        None => None,
    }
}

/// The value of a hexadecimal digit.
fn hex_digit_value(byte: u8) -> (value: Option<u8>)
    ensures
        match value {
            Some(digit) => hex_value(byte) == Some(digit as int) && digit < 16,
            None => hex_value(byte) is None,
        },
{
    if 48 <= byte && byte <= 57 {
        Some(byte - 48)
    } else if 97 <= byte && byte <= 102 {
        Some(byte - 87)
    } else if 65 <= byte && byte <= 70 {
        Some(byte - 55)
    } else {
        None
    }
}

/// Reads the bytes that a text of pairs of hexadecimal digits stands for.
pub fn bytes_from_hex(text: &[u8]) -> (result: Option<Vec<u8>>)
    ensures
        match result {
            Some(bytes) => hex_decoded(text@) == Some(bytes@),
            None => hex_decoded(text@) is None,
        },
{
    let mut bytes: Vec<u8> = Vec::new();
    let mut i: usize = 0;
    assert(text@.skip(0) =~= text@);
    assert(Seq::<u8>::empty() + hex_decoded(text@)->0 =~= hex_decoded(text@)->0);
    while i < text.len()
        invariant
            i <= text.len(),
            hex_decoded(text@) == hex_continued(bytes@, hex_decoded(text@.skip(i as int))),
        decreases text.len() - i,
    {
        let ghost rest = text@.skip(i as int);
        assert(rest.len() > 0 && rest[0] == text@[i as int]);
        let byte = text[i];
        if byte == 32 || (9 <= byte && byte <= 13) {
            assert(rest.skip(1) =~= text@.skip(i + 1));
            i += 1;
        } else {
            if text.len() - i < 2 {
                return None;
            }
            assert(rest[1] == text@[i + 1]);
            match (hex_digit_value(byte), hex_digit_value(text[i + 1])) {
                (Some(high), Some(low)) => {
                    let ghost before = bytes@;
                    bytes.push(16 * high + low);
                    proof {
                        assert(rest.skip(2) =~= text@.skip(i + 2));
                        let tail = hex_decoded(rest.skip(2));
                        if tail is Some {
                            assert(before + (seq![(16 * high + low) as u8] + tail->0) =~= bytes@
                                + tail->0);
                        }
                    }
                    i += 2;
                },
                _ => {
                    return None;
                },
            }
        }
    }
    proof {
        assert(text@.skip(i as int) =~= Seq::<u8>::empty());
        assert(bytes@ + Seq::<u8>::empty() =~= bytes@);
    }
    Some(bytes)
}

/// The kinds that an input is tried as, in order, where its kind is to be
/// inferred: an input that is no text is a stream of values; a text that
/// is the name of an existing file is that file; any other text is tried
/// as a stream of values first and as hexadecimal digits second.
pub open spec fn inferred_attempts(is_text: bool, names_existing_file: bool) -> Seq<InputType> {
    if !is_text {
        seq![InputType::Ion]
    } else if names_existing_file {
        seq![InputType::File]
    } else {
        seq![InputType::Ion, InputType::Hex]
    }
}

/// The kinds that an input is tried as, in order, where its kind is to be
/// inferred. The input is what the first attempt that succeeds reads; where
/// none succeeds, the failure of the first attempt is the one to report.
pub fn attempts_in_auto_mode(is_text: bool, names_existing_file: bool) -> (attempts: Vec<
    InputType,
>)
    ensures
        attempts@ == inferred_attempts(is_text, names_existing_file),
{
    let mut attempts: Vec<InputType> = Vec::new();
    if !is_text {
        attempts.push(InputType::Ion);
    } else if names_existing_file {
        attempts.push(InputType::File);
    } else {
        attempts.push(InputType::Ion);
        attempts.push(InputType::Hex);
    }
    attempts
}

/// What is to be done once an attempt to read an input has come back.
#[derive(Clone, Copy, Debug, PartialEq, Eq, Structural)]
pub enum AutoModeStep {
    /// The attempt at this position succeeded: what it read is the input.
    Take(usize),
    /// The attempt at this position is to be made next.
    Try(usize),
    /// No attempt succeeded: the failure of the attempt at this position is
    /// the one to report.
    Report(usize),
}

/// The step after the attempt at `tried`, of `count` attempts, has come
/// back: a success is taken; after a failure the next attempt is made; and
/// after the failure of the last one the failure of the first is reported.
pub open spec fn next_in_auto_mode(count: int, tried: int, succeeded: bool) -> AutoModeStep {
    if succeeded {
        AutoModeStep::Take(tried as usize)
    } else if tried + 1 < count {
        AutoModeStep::Try((tried + 1) as usize)
    } else {
        AutoModeStep::Report(0)
    }
}

/// Decides what follows the attempt at `tried`.
pub fn step_in_auto_mode(attempts: &Vec<InputType>, tried: usize, succeeded: bool) -> (step:
    AutoModeStep)
    requires
        tried < attempts@.len(),
    ensures
        step == (if succeeded {
            AutoModeStep::Take(tried)
        } else if tried + 1 < attempts@.len() {
            AutoModeStep::Try((tried + 1) as usize)
        } else {
            AutoModeStep::Report(0)
        }),
        step == next_in_auto_mode(attempts@.len() as int, tried as int, succeeded),
{
    if succeeded {
        AutoModeStep::Take(tried)
    } else if attempts.len() - tried > 1 {
        AutoModeStep::Try(tried + 1)
    } else {
        AutoModeStep::Report(0)
    }
}

/// Where the steps end when the attempts are made one after the other from
/// `tried` on and `outcomes` says of each whether it succeeds.
pub open spec fn settled_in_auto_mode(outcomes: Seq<bool>, tried: int) -> AutoModeStep
    decreases outcomes.len() - tried,
{
    if 0 <= tried < outcomes.len() {
        let step = next_in_auto_mode(outcomes.len() as int, tried, outcomes[tried]);
        if step is Try {
            settled_in_auto_mode(outcomes, tried + 1)
        } else {
            step
        }
    } else {
        AutoModeStep::Report(0)
    }
}

/// Whether no attempt before the position `until` succeeds.
pub open spec fn none_succeeds_before(outcomes: Seq<bool>, until: int) -> bool {
    forall|j: int| 0 <= j < until && j < outcomes.len() ==> !outcomes[j]
}

/// The input is what the first attempt that succeeds reads; where none
/// succeeds, the failure of the first attempt is reported. No other end is
/// possible.
pub proof fn lemma_auto_mode_outcome(outcomes: Seq<bool>)
    requires
        0 < outcomes.len() <= usize::MAX,
    ensures
        match settled_in_auto_mode(outcomes, 0) {
            AutoModeStep::Take(taken) => taken < outcomes.len() && outcomes[taken as int]
                && none_succeeds_before(outcomes, taken as int),
            AutoModeStep::Report(reported) => reported == 0 && none_succeeds_before(
                outcomes,
                outcomes.len() as int,
            ),
            AutoModeStep::Try(_) => false,
        },
{
    lemma_auto_mode_from(outcomes, 0);
}

/// The same from any attempt on, given that none before it succeeded.
proof fn lemma_auto_mode_from(outcomes: Seq<bool>, tried: int)
    requires
        0 <= tried < outcomes.len() <= usize::MAX,
        none_succeeds_before(outcomes, tried),
    ensures
        match settled_in_auto_mode(outcomes, tried) {
            AutoModeStep::Take(taken) => taken < outcomes.len() && outcomes[taken as int]
                && none_succeeds_before(outcomes, taken as int),
            AutoModeStep::Report(reported) => reported == 0 && none_succeeds_before(
                outcomes,
                outcomes.len() as int,
            ),
            AutoModeStep::Try(_) => false,
        },
    decreases outcomes.len() - tried,
{
    if !outcomes[tried] && tried + 1 < outcomes.len() {
        lemma_auto_mode_from(outcomes, tried + 1);
    }
}

} // verus!
