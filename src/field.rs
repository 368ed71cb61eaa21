//! The validated field collector: what one line of operator input does to
//! the collection of one field, and the texts shown around it.

use vstd::prelude::*;
use crate::text::{bold, bold_spec, color, color_spec, dec, decimal, digit_char, BLUE, RED, YELLOW};

verus! {

/// Why a raw value was refused.
#[derive(Clone, Copy, Debug, PartialEq, Eq, Structural)]
pub enum RoostError {
    /// The text is not a non-negative integer that fits a `usize`.
    InvalidValue,
    /// The number lies below the field's minimum.
    TooSmall,
    /// The number lies above the field's maximum.
    TooBig,
}

impl RoostError {
    /// A short description of the failure, for the operator.
    pub fn details(&self) -> (r: &'static str)
        ensures
            r@ == self.details_spec(),
    {
        proof {
            reveal_strlit("invalid value");
            reveal_strlit("value is too smol");
            reveal_strlit("value is too big");
        }
        match self {
            RoostError::InvalidValue => "invalid value",
            RoostError::TooSmall => "value is too smol",
            RoostError::TooBig => "value is too big",
        }
    }

    pub open spec fn details_spec(&self) -> Seq<char> {
        match self {
            RoostError::InvalidValue => "invalid value"@,
            RoostError::TooSmall => "value is too smol"@,
            RoostError::TooBig => "value is too big"@,
        }
    }
}

/// The characters that `char::is_whitespace` accepts: those with the
/// Unicode White_Space property.
pub open spec fn is_ws(c: char) -> bool {
    let u = c as u32;
    (0x9 <= u && u <= 0xd) || u == 0x20 || u == 0x85 || u == 0xa0 || u == 0x1680 || (0x2000 <= u
        && u <= 0x200a) || u == 0x2028 || u == 0x2029 || u == 0x202f || u == 0x205f || u == 0x3000
}

/// `s` without its trailing whitespace.
pub open spec fn trimmed(s: Seq<char>) -> Seq<char>
    decreases s.len(),
{
    if s.len() > 0 && is_ws(s.last()) {
        trimmed(s.drop_last())
    } else {
        s
    }
}

/// Whether `c` is one of the ASCII digits.
pub open spec fn is_digit(c: char) -> bool {
    48 <= c as u32 && c as u32 <= 57
}

/// The number that the digits `s` spell.
pub open spec fn digits_value(s: Seq<char>) -> nat
    decreases s.len(),
{
    if s.len() == 0 {
        0
    } else {
        10 * digits_value(s.drop_last()) + (s.last() as u32 - 48) as nat
    }
}

/// The digits of a numeral: all of `s` but an optional leading `+`.
pub open spec fn numeral_body(s: Seq<char>) -> Seq<char> {
    if s.len() > 0 && s[0] == '+' {
        s.drop_first()
    } else {
        s
    }
}

/// The `usize` that `s` spells in decimal (with an optional `+` in front),
/// if it spells one.
pub open spec fn parse_usize(s: Seq<char>) -> Option<nat> {
    let body = numeral_body(s);
    if body.len() > 0 && (forall|i: int| 0 <= i < body.len() ==> is_digit(#[trigger] body[i]))
        && digits_value(body) <= usize::MAX {
        Some(digits_value(body))
    } else {
        None
    }
}

/// The inclusive range a numeric field accepts.
#[derive(Clone, Copy, Debug, PartialEq, Eq, Structural)]
pub struct IntRange {
    pub min: usize,
    pub max: usize,
}

impl IntRange {
    /// What checking `s` against the range gives.
    pub open spec fn check_spec(&self, s: Seq<char>) -> Result<usize, RoostError> {
        match parse_usize(s) {
            None => Err(RoostError::InvalidValue),
            Some(v) => if v < self.min {
                Err(RoostError::TooSmall)
            } else if v > self.max {
                Err(RoostError::TooBig)
            } else {
                Ok(v as usize)
            },
        }
    }

    /// Reads `raw_value` as a non-negative integer and checks it against the
    /// range.
    pub fn parse(&self, raw_value: &str) -> (r: Result<usize, RoostError>)
        ensures
            r == self.check_spec(raw_value@),
    {
        match parse_number(raw_value) {
            None => Err(RoostError::InvalidValue),
            Some(value) => if value < self.min {
                Err(RoostError::TooSmall)
            } else if value > self.max {
                Err(RoostError::TooBig)
            } else {
                Ok(value)
            },
        }
    }
}

/// The validator of a numeric field that accepts `min_value ..= max_value`.
pub fn int_factory(min_value: usize, max_value: usize) -> (r: IntRange)
    ensures
        r.min == min_value,
        r.max == max_value,
{
    IntRange { min: min_value, max: max_value }
}

/// The validator of a text field: every text is accepted as it is.
pub fn string(raw: &str) -> (r: Result<String, RoostError>)
    ensures
        r matches Ok(s) && s@ == raw@,
{
    Ok(String::from_str(raw))
}

proof fn lemma_digits_value_grows(s: Seq<char>, k: int)
    requires
        0 <= k <= s.len(),
        forall|i: int| 0 <= i < s.len() ==> is_digit(#[trigger] s[i]),
    ensures
        digits_value(s.take(k)) <= digits_value(s),
    decreases s.len() - k,
{
    if k < s.len() {
        lemma_digits_value_grows(s, k + 1);
        assert(s.take(k + 1).drop_last() =~= s.take(k));
    } else {
        assert(s.take(k) =~= s);
    }
}

/// The number that `s` spells, if `parse_usize` gives one.
fn parse_number(s: &str) -> (r: Option<usize>)
    ensures
        r == (match parse_usize(s@) {
            Some(v) => Some(v as usize),
            None => None,
        }),
{
    let n = s.unicode_len();
    let mut start: usize = 0;
    if n > 0 && s.get_char(0) == '+' {
        start = 1;
    }
    let ghost body = numeral_body(s@);
    assert(body =~= s@.subrange(start as int, n as int));
    if start == n {
        return None;
    }
    let mut i: usize = start;
    while i < n
        invariant
            start <= i <= n,
            n == s@.len(),
            body == s@.subrange(start as int, n as int),
            body == numeral_body(s@),
            body.len() > 0,
            forall|j: int| start <= j < i ==> is_digit(#[trigger] s@[j]),
        decreases n - i,
    {
        let c = s.get_char(i);
        if !((c as u32) >= 48 && (c as u32) <= 57) {
            assert(!is_digit(body[i - start]));
            assert(parse_usize(s@) is None);
            return None;
        }
        i = i + 1;
    }
    assert(forall|j: int| 0 <= j < body.len() ==> is_digit(#[trigger] body[j])) by {
        assert forall|j: int| 0 <= j < body.len() implies is_digit(#[trigger] body[j]) by {
            assert(body[j] == s@[start + j]);
        }
    }
    let mut acc: usize = 0;
    let mut i: usize = start;
    while i < n
        invariant
            start <= i <= n,
            n == s@.len(),
            body == s@.subrange(start as int, n as int),
            body == numeral_body(s@),
            body.len() > 0,
            forall|j: int| 0 <= j < body.len() ==> is_digit(#[trigger] body[j]),
            acc == digits_value(body.take(i - start)),
        decreases n - i,
    {
        let c = s.get_char(i);
        proof {
            assert(body[i - start] == c);
            assert(is_digit(body[i - start]));
            assert(body.take(i - start + 1).drop_last() =~= body.take(i - start));
            assert(body.take(i - start + 1).last() == c);
        }
        let d = (c as u32 - 48) as usize;
        assert(digits_value(body.take(i - start + 1)) == 10 * acc + d);
        match acc.checked_mul(10) {
            None => {
                proof {
                    lemma_digits_value_grows(body, i - start + 1);
                }
                return None;
            },
            Some(m) => match m.checked_add(d) {
                None => {
                    proof {
                        lemma_digits_value_grows(body, i - start + 1);
                    }
                    return None;
                },
                Some(v) => {
                    acc = v;
                },
            },
        }
        i = i + 1;
    }
    assert(body.take(n - start) =~= body);
    Some(acc)
}

/// The two kinds of field: free text and a number within a range.
#[derive(Clone, Copy, Debug, PartialEq, Eq, Structural)]
pub enum Validator {
    Text,
    Int(IntRange),
}

/// A collected value.
#[derive(Debug)]
pub enum FieldValue {
    Text(String),
    Int(usize),
}

impl FieldValue {
    /// A copy of the value.
    pub fn duplicate(&self) -> (r: FieldValue)
        ensures
            r == *self,
    {
        match self {
            FieldValue::Text(s) => FieldValue::Text(s.clone()),
            FieldValue::Int(n) => FieldValue::Int(*n),
        }
    }

    pub open spec fn display_spec(&self) -> Seq<char> {
        match self {
            FieldValue::Text(s) => s@,
            FieldValue::Int(n) => dec(*n as nat),
        }
    }

    /// The value as the operator would type it.
    pub fn display(&self) -> (r: String)
        ensures
            r@ == self.display_spec(),
    {
        match self {
            FieldValue::Text(s) => s.clone(),
            FieldValue::Int(n) => decimal(*n),
        }
    }
}

impl Validator {
    /// Why the validator refuses the text `s`, if it does.
    pub open spec fn refusal(&self, s: Seq<char>) -> Option<RoostError> {
        match self {
            Validator::Text => None,
            Validator::Int(range) => match range.check_spec(s) {
                Ok(_) => None,
                Err(e) => Some(e),
            },
        }
    }

    /// Whether `x` is the value that the validator makes of the text `s`.
    pub open spec fn makes(&self, s: Seq<char>, x: FieldValue) -> bool {
        match self {
            Validator::Text => x matches FieldValue::Text(t) && t@ == s,
            Validator::Int(range) => range.check_spec(s) matches Ok(n) && x == FieldValue::Int(n),
        }
    }

    /// What the field's value is called in messages.
    pub open spec fn kind_spec(&self) -> Seq<char> {
        match self {
            Validator::Text => "text"@,
            Validator::Int(_) => "number"@,
        }
    }

    /// What the field's value is called in messages.
    pub fn kind(&self) -> (r: &'static str)
        ensures
            r@ == self.kind_spec(),
    {
        match self {
            Validator::Text => "text",
            Validator::Int(_) => "number",
        }
    }

    /// Validates and parses one non-empty raw value.
    pub fn validate(&self, raw: &str) -> (r: Result<FieldValue, RoostError>)
        ensures
            match r {
                Ok(x) => self.refusal(raw@) is None && self.makes(raw@, x),
                Err(e) => self.refusal(raw@) == Some(e),
            },
    {
        match self {
            Validator::Text => match string(raw) {
                Ok(s) => Ok(FieldValue::Text(s)),
                Err(e) => Err(e),
            },
            Validator::Int(range) => match range.parse(raw) {
                Ok(n) => Ok(FieldValue::Int(n)),
                Err(e) => Err(e),
            },
        }
    }
}

/// What one line of input does to the collection of a field.
#[derive(Debug)]
pub enum Step {
    /// The field has its value.
    Done(FieldValue),
    /// The line was blank and the field has no default: ask again.
    Empty,
    /// The validator refused the line: ask again.
    Invalid(RoostError),
}

/// Whether the line `raw` ends the collection of a field.
pub open spec fn finishes(v: Validator, default: Option<FieldValue>, raw: Seq<char>) -> bool {
    let t = trimmed(raw);
    if t.len() == 0 {
        default is Some
    } else {
        v.refusal(t) is None
    }
}

/// Whether the line `raw` gives the field the value `x`.
pub open spec fn yields(
    v: Validator,
    default: Option<FieldValue>,
    raw: Seq<char>,
    x: FieldValue,
) -> bool {
    let t = trimmed(raw);
    if t.len() == 0 {
        default == Some(x)
    } else {
        v.makes(t, x)
    }
}

/// Whether `c` is whitespace.
fn is_whitespace(c: char) -> (r: bool)
    ensures
        r == is_ws(c),
{
    let u = c as u32;
    (0x9 <= u && u <= 0xd) || u == 0x20 || u == 0x85 || u == 0xa0 || u == 0x1680 || (0x2000 <= u
        && u <= 0x200a) || u == 0x2028 || u == 0x2029 || u == 0x202f || u == 0x205f || u == 0x3000
}

/// `s` without its trailing whitespace.
pub fn trim_end(s: &str) -> (r: &str)
    ensures
        r@ == trimmed(s@),
{
    let mut k = s.unicode_len();
    assert(s@.subrange(0, k as int) =~= s@);
    while k > 0 && is_whitespace(s.get_char(k - 1))
        invariant
            k <= s@.len(),
            trimmed(s@.subrange(0, k as int)) == trimmed(s@),
        decreases k,
    {
        assert(s@.subrange(0, k as int).drop_last() =~= s@.subrange(0, k - 1));
        k = k - 1;
    }
    assert(trimmed(s@.subrange(0, k as int)) == s@.subrange(0, k as int));
    s.substring_char(0, k)
}

/// What the input line `raw` does to the field that `validator` checks and
/// that has `default` as its default: a blank line gives the default without
/// consulting the validator, or is refused where there is none; any other
/// line, without its trailing whitespace, is handed to the validator.
pub fn field_step(raw: &str, validator: &Validator, default: &Option<FieldValue>) -> (r: Step)
    ensures
        (r is Done) == finishes(*validator, *default, raw@),
        r matches Step::Done(x) ==> yields(*validator, *default, raw@, x),
        trimmed(raw@).len() == 0 && default is None ==> r is Empty,
        trimmed(raw@).len() > 0 && !(r is Done) ==> r == Step::Invalid(
            validator.refusal(trimmed(raw@))->0,
        ),
{
    let t = trim_end(raw);
    if t.unicode_len() == 0 {
        match default {
            Some(d) => Step::Done(d.duplicate()),
            None => Step::Empty,
        }
    } else {
        match validator.validate(t) {
            Ok(x) => Step::Done(x),
            Err(e) => Step::Invalid(e),
        }
    }
}

/// What collecting a field from `lines` may return: the value of the first
/// line that finishes it and how many lines were read up to it, or nothing
/// where no line finishes it.
pub open spec fn collected(
    v: Validator,
    default: Option<FieldValue>,
    lines: Seq<String>,
    r: Option<(FieldValue, usize)>,
) -> bool {
    match r {
        Some((x, k)) => {
            &&& 1 <= k <= lines.len()
            &&& finishes(v, default, lines[k - 1]@)
            &&& yields(v, default, lines[k - 1]@, x)
            &&& forall|j: int| 0 <= j < k - 1 ==> !finishes(v, default, #[trigger] lines[j]@)
        },
        None => forall|j: int| 0 <= j < lines.len() ==> !finishes(v, default, #[trigger] lines[j]@),
    }
}

/// Collects a field from the input lines in turn, asking again after each
/// line that does not finish it, and stops at the end of `lines`.
pub fn collect_lines(validator: &Validator, default: &Option<FieldValue>, lines: &Vec<String>) -> (r:
    Option<(FieldValue, usize)>)
    ensures
        collected(*validator, *default, lines@, r),
{
    let mut i: usize = 0;
    while i < lines.len()
        invariant
            i <= lines@.len(),
            forall|j: int| 0 <= j < i ==> !finishes(*validator, *default, #[trigger] lines@[j]@),
        decreases lines@.len() - i,
    {
        match field_step(lines[i].as_str(), validator, default) {
            Step::Done(x) => {
                return Some((x, i + 1));
            },
            _ => {},
        }
        i = i + 1;
    }
    None
}

/// The validator of the end of the span, given the line's length and the
/// span's start, and the default of that field: the last character of the
/// line. The field takes the index of the span's last character.
pub fn end_offset_field(line_len: usize, spos: usize) -> (r: (Validator, FieldValue))
    requires
        1 <= line_len,
        spos <= line_len,
        spos < usize::MAX,
    ensures
        r.0 == Validator::Int(IntRange { min: (spos + 1) as usize, max: (line_len - 1) as usize }),
        r.1 == FieldValue::Int((line_len - 1) as usize),
{
    (Validator::Int(int_factory(spos + 1, line_len - 1)), FieldValue::Int(line_len - 1))
}

/// The end of the span, one past the last character `entered` that the end
/// field gave. The span stays within the line, and is empty only where it
/// starts at the line's end.
pub fn span_end(line_len: usize, spos: usize, entered: usize) -> (r: usize)
    requires
        1 <= line_len,
        spos <= line_len,
        entered == line_len - 1 || spos + 1 <= entered <= line_len - 1,
    ensures
        r == entered + 1,
        spos <= r <= line_len,
        spos < line_len ==> spos < r,
{
    entered + 1
}

/// A blank line on a field with a default gives the default whatever the
/// validator: the validator plays no part in it.
pub proof fn lemma_blank_gives_default(
    v1: Validator,
    v2: Validator,
    default: Option<FieldValue>,
    raw: Seq<char>,
    x: FieldValue,
)
    requires
        trimmed(raw).len() == 0,
        default is Some,
    ensures
        finishes(v1, default, raw),
        finishes(v2, default, raw),
        yields(v1, default, raw, x) == (default == Some(x)),
        yields(v1, default, raw, x) == yields(v2, default, raw, x),
{
}

/// A field without a default is not finished by blank lines: after `k`
/// blank lines and one line that the validator accepts, collection returns
/// that line's value, having read `k + 1` lines.
pub proof fn lemma_required_field_waits(
    v: Validator,
    lines: Seq<String>,
    k: int,
    r: Option<(FieldValue, usize)>,
)
    requires
        collected(v, None, lines, r),
        0 <= k < lines.len(),
        forall|j: int| 0 <= j < k ==> trimmed(#[trigger] lines[j]@).len() == 0,
        trimmed(lines[k]@).len() > 0,
        v.refusal(trimmed(lines[k]@)) is None,
    ensures
        r matches Some((x, n)) && n == k + 1 && v.makes(trimmed(lines[k]@), x),
{
    assert(finishes(v, None, lines[k]@));
    match r {
        Some((x, n)) => {
            if n - 1 < k {
                assert(!finishes(v, None, lines[n - 1]@));
            } else if n - 1 > k {
                assert(!finishes(v, None, lines[k]@));
            }
        },
        None => {
            assert(!finishes(v, None, lines[k]@));
        },
    }
}

proof fn lemma_dec_digits(n: nat)
    ensures
        dec(n).len() > 0,
        forall|i: int| 0 <= i < dec(n).len() ==> is_digit(#[trigger] dec(n)[i]),
        dec(n)[0] != '+',
        digits_value(dec(n)) == n,
    decreases n,
{
    let d = n % 10;
    assert(digit_char(d) as u32 == 48 + d);
    if n >= 10 {
        lemma_dec_digits(n / 10);
        assert(dec(n).drop_last() =~= dec(n / 10));
    } else {
        assert(dec(n).drop_last() =~= Seq::<char>::empty());
        assert(digits_value(Seq::<char>::empty()) == 0);
    }
}

/// A numeric field reads every `usize` written in decimal as that number,
/// and refuses it as too small below the range's minimum, as too big above
/// its maximum (where it is not also below the minimum), and accepts it
/// within.
pub proof fn lemma_range_verdicts(range: IntRange, v: usize)
    ensures
        parse_usize(dec(v as nat)) == Some(v as nat),
        v < range.min ==> range.check_spec(dec(v as nat)) == Err::<usize, RoostError>(
            RoostError::TooSmall,
        ),
        range.min <= v && v > range.max ==> range.check_spec(dec(v as nat)) == Err::<usize, RoostError>(
            RoostError::TooBig,
        ),
        range.min <= v <= range.max ==> range.check_spec(dec(v as nat)) == Ok::<
            usize,
            RoostError,
        >(v),
{
    lemma_dec_digits(v as nat);
}

/// The prompt of the field `name`, with its default where it has one.
pub open spec fn prompt_spec(name: Seq<char>, default: Option<Seq<char>>) -> Seq<char> {
    let shown = match default {
        Some(d) => name + color_spec(" (default="@ + d + ")"@, 4),
        None => name,
    };
    bold_spec(shown + ": "@)
}

/// The bold prompt of the field `name`: `name: `, or
/// `name (default=...): ` with the default in blue.
pub fn make_prompt(name: String, default: Option<String>) -> (r: String)
    ensures
        r@ == prompt_spec(
            name@,
            match default {
                Some(d) => Some(d@),
                None => None,
            },
        ),
{
    let mut prompt = name;
    if let Some(default_value) = default {
        let mut shown = String::from_str(" (default=");
        shown.append(default_value.as_str());
        shown.append(")");
        prompt.append(color(shown, BLUE).as_str());
    }
    prompt.append(": ");
    bold(prompt)
}

/// The complaint about a blank line on a field without a default.
pub open spec fn empty_error_spec(name: Seq<char>) -> Seq<char> {
    bold_spec(color_spec("ERR: field '"@ + name + "' cannot be empty"@, 1))
}

/// The complaint about the line `raw` that the validator refused.
pub open spec fn invalid_error_spec(raw: Seq<char>, kind: Seq<char>, error: RoostError) -> Seq<
    char,
> {
    bold_spec(
        color_spec(
            "ERR: '"@ + raw + "' is not a valid "@ + kind + " ("@ + error.details_spec() + ")"@,
            3,
        ),
    )
}

/// The bold red complaint about a blank line on the field `name`.
pub fn empty_field_error(name: &str) -> (r: String)
    ensures
        r@ == empty_error_spec(name@),
{
    let mut text = String::from_str("ERR: field '");
    text.append(name);
    text.append("' cannot be empty");
    bold(color(text, RED))
}

/// The bold yellow complaint about the value `raw` that `validator`
/// refused with `error`.
pub fn invalid_value_error(raw: &str, validator: &Validator, error: RoostError) -> (r: String)
    ensures
        r@ == invalid_error_spec(raw@, validator.kind_spec(), error),
{
    let mut text = String::from_str("ERR: '");
    text.append(raw);
    text.append("' is not a valid ");
    text.append(validator.kind());
    text.append(" (");
    text.append(error.details());
    text.append(")");
    bold(color(text, YELLOW))
}

} // verus!
