//! The lexical primitives: indentation, blanks, line endings, keywords, texts,
//! integers, decimal numbers, dates and comment lines.

use crate::errors::{Context, DataError, ErrorModel, Failure, FailureModel, Mismatch};
use crate::model::{advances, fits, Model, Outcome, Parsed};
use crate::text::{after, between, cut_after, head, is_ascii_byte, tail};
use crate::types::{Date, Position, PositionModel};
use vstd::prelude::*;
use vstd::string::*;

verus! {

/// A soft failure to find `context` at the start of `s`.
pub open spec fn soft<T>(s: Seq<u8>, context: Context) -> Outcome<T> {
    Err(
        FailureModel::Soft(
            ErrorModel::Mismatch(Mismatch { remaining: s.len() as usize, context }),
        ),
    )
}

/// A hard failure to find `context` at the start of `s`.
pub open spec fn hard<T>(s: Seq<u8>, context: Context) -> Outcome<T> {
    Err(
        FailureModel::Hard(
            ErrorModel::Mismatch(Mismatch { remaining: s.len() as usize, context }),
        ),
    )
}

/// Fails softly at the start of `input`.
pub fn fail_soft<'a, T: Model>(input: &'a str, context: Context) -> (r: Parsed<'a, T>)
    ensures
        r.model() == soft::<T::M>(input.model(), context),
{
    Err(Failure::Soft(DataError::from_error_kind(input.as_bytes().len(), context)))
}

/// Fails hard at the start of `input`.
pub fn fail_hard<'a, T: Model>(input: &'a str, context: Context) -> (r: Parsed<'a, T>)
    ensures
        r.model() == hard::<T::M>(input.model(), context),
{
    Err(Failure::Hard(DataError::from_error_kind(input.as_bytes().len(), context)))
}

/// A class of bytes that a token is made of.
#[derive(Debug, Clone, Copy, PartialEq, Eq, Structural)]
pub enum Class {
    /// A space or a tab.
    Blank,
    /// An ASCII digit.
    Digit,
    /// An ASCII letter or digit, an apostrophe or a hyphen.
    Word,
}

impl Class {
    /// True when `b` belongs to the class.
    pub open spec fn has(self, b: u8) -> bool {
        match self {
            Class::Blank => b == 0x20 || b == 0x09,
            Class::Digit => 0x30 <= b <= 0x39,
            Class::Word => (0x30 <= b <= 0x39) || (0x41 <= b <= 0x5a) || (0x61 <= b <= 0x7a) || b
                == 0x27 || b == 0x2d,
        }
    }

    /// Tests whether `b` belongs to the class.
    pub fn contains(self, b: u8) -> (yes: bool)
        ensures
            yes == self.has(b),
    {
        match self {
            Class::Blank => b == 0x20 || b == 0x09,
            Class::Digit => 0x30 <= b && b <= 0x39,
            Class::Word => (0x30 <= b && b <= 0x39) || (0x41 <= b && b <= 0x5a) || (0x61 <= b && b
                <= 0x7a) || b == 0x27 || b == 0x2d,
        }
    }
}

/// The offset at which the run of `class` bytes that starts at `from` ends.
pub open spec fn run(s: Seq<u8>, class: Class, from: int) -> int
    decreases s.len() - from,
{
    if 0 <= from < s.len() && class.has(s[from]) {
        run(s, class, from + 1)
    } else {
        from
    }
}

/// The offset of the first byte `b` at or behind `from`, or the length of `s`
/// where there is none.
pub open spec fn find(s: Seq<u8>, b: u8, from: int) -> int
    decreases s.len() - from,
{
    if 0 <= from < s.len() && s[from] != b {
        find(s, b, from + 1)
    } else {
        from
    }
}

/// A run ends inside the text, behind bytes of its class.
pub proof fn lemma_run(s: Seq<u8>, class: Class, from: int)
    requires
        0 <= from <= s.len(),
    ensures
        from <= run(s, class, from) <= s.len(),
        forall|i: int| from <= i < run(s, class, from) ==> class.has(#[trigger] s[i]),
        run(s, class, from) < s.len() ==> !class.has(s[run(s, class, from)]),
    decreases s.len() - from,
{
    if from < s.len() && class.has(s[from]) {
        lemma_run(s, class, from + 1);
    }
}

/// A search ends inside the text, behind bytes other than the one sought.
pub proof fn lemma_find(s: Seq<u8>, b: u8, from: int)
    requires
        0 <= from <= s.len(),
    ensures
        from <= find(s, b, from) <= s.len(),
        forall|i: int| from <= i < find(s, b, from) ==> #[trigger] s[i] != b,
        find(s, b, from) < s.len() ==> s[find(s, b, from)] == b,
    decreases s.len() - from,
{
    if from < s.len() && s[from] != b {
        lemma_find(s, b, from + 1);
    }
}

/// Finds where the run of `class` bytes that starts at `from` ends.
pub fn run_end(bytes: &[u8], class: Class, from: usize) -> (end: usize)
    requires
        from <= bytes@.len(),
    ensures
        end == run(bytes@, class, from as int),
        from <= end <= bytes@.len(),
{
    let mut i: usize = from;
    while i < bytes.len() && class.contains(bytes[i])
        invariant
            from <= i <= bytes@.len(),
            run(bytes@, class, from as int) == run(bytes@, class, i as int),
        decreases bytes@.len() - i,
    {
        i += 1;
    }
    i
}

/// Finds the first byte `b` at or behind `from`.
pub fn find_byte(bytes: &[u8], b: u8, from: usize) -> (at: usize)
    requires
        from <= bytes@.len(),
    ensures
        at == find(bytes@, b, from as int),
        from <= at <= bytes@.len(),
{
    let mut i: usize = from;
    while i < bytes.len() && bytes[i] != b
        invariant
            from <= i <= bytes@.len(),
            find(bytes@, b, from as int) == find(bytes@, b, i as int),
        decreases bytes@.len() - i,
    {
        i += 1;
    }
    i
}

/// Tests whether `bytes` begins with `literal`.
pub fn starts_with(bytes: &[u8], literal: &[u8]) -> (yes: bool)
    ensures
        yes == literal@.is_prefix_of(bytes@),
{
    if literal.len() > bytes.len() {
        return false;
    }
    let mut i: usize = 0;
    while i < literal.len()
        invariant
            i <= literal@.len() <= bytes@.len(),
            forall|j: int| 0 <= j < i ==> literal@[j] == bytes@[j],
        decreases literal@.len() - i,
    {
        if literal[i] != bytes[i] {
            assert(bytes@.subrange(0, literal@.len() as int)[i as int] != literal@[i as int]);
            return false;
        }
        i += 1;
    }
    assert(literal@ =~= bytes@.subrange(0, literal@.len() as int));
    true
}

/// The keyword `literal` at the start of `s`.
pub open spec fn spec_tag(s: Seq<u8>, literal: Seq<u8>, context: Context) -> Outcome<()> {
    if literal.is_prefix_of(s) {
        Ok((tail(s, literal.len() as int), ()))
    } else {
        soft(s, context)
    }
}

/// Reads the keyword `literal`. Where the text does not begin with it, the
/// failure is soft and names `context`.
pub fn tag<'a>(input: &'a str, literal: &str, context: Context) -> (r: Parsed<'a, ()>)
    ensures
        r.model() == spec_tag(input.model(), literal.model(), context),
        fits(input, r),
{
    if starts_with(input.as_bytes(), literal.as_bytes()) {
        Ok((cut_after(input, literal), ()))
    } else {
        fail_soft(input, context)
    }
}

/// One line ending at the start of `s`: a line feed, or a carriage return and
/// a line feed.
pub open spec fn spec_line_ending(s: Seq<u8>) -> Outcome<()> {
    if s.len() >= 1 && s[0] == 0x0a {
        Ok((tail(s, 1), ()))
    } else if s.len() >= 2 && s[0] == 0x0d && s[1] == 0x0a {
        Ok((tail(s, 2), ()))
    } else {
        soft(s, Context::LineEnding)
    }
}

/// Reads one line ending.
pub fn line_ending<'a>(input: &'a str) -> (r: Parsed<'a, ()>)
    ensures
        r.model() == spec_line_ending(input.model()),
        advances(input, r),
{
    let bytes = input.as_bytes();
    if bytes.len() >= 1 && bytes[0] == 0x0a {
        Ok((after(input, 1), ()))
    } else if bytes.len() >= 2 && bytes[0] == 0x0d && bytes[1] == 0x0a {
        Ok((after(input, 2), ()))
    } else {
        fail_soft(input, Context::LineEnding)
    }
}

/// What is left of `s` behind the line endings it begins with.
pub open spec fn spec_line_endings(s: Seq<u8>) -> Seq<u8>
    decreases s.len(),
{
    match spec_line_ending(s) {
        Ok((rest, _)) => if rest.len() < s.len() {
            spec_line_endings(rest)
        } else {
            s
        },
        Err(_) => s,
    }
}

/// Skips the line endings that `input` begins with.
pub fn line_endings<'a>(input: &'a str) -> (rest: &'a str)
    ensures
        rest.model() == spec_line_endings(input.model()),
        rest.model().len() <= input.model().len(),
{
    let mut rest = input;
    loop
        invariant
            spec_line_endings(rest.model()) == spec_line_endings(input.model()),
            rest.model().len() <= input.model().len(),
        decreases rest.model().len(),
    {
        match line_ending(rest) {
            Ok((next, _)) => {
                rest = next;
            },
            Err(_) => {
                return rest;
            },
        }
    }
}

/// One unit of indentation at the start of `s`: a tab, or four spaces.
pub open spec fn spec_indent(s: Seq<u8>) -> Outcome<()> {
    if s.len() >= 1 && s[0] == 0x09 {
        Ok((tail(s, 1), ()))
    } else if s.len() >= 4 && s[0] == 0x20 && s[1] == 0x20 && s[2] == 0x20 && s[3] == 0x20 {
        Ok((tail(s, 4), ()))
    } else {
        soft(s, Context::Indent)
    }
}

/// Reads one unit of indentation: one tab, or exactly four spaces.
pub fn indent<'a>(input: &'a str) -> (r: Parsed<'a, ()>)
    ensures
        r.model() == spec_indent(input.model()),
        advances(input, r),
{
    let bytes = input.as_bytes();
    if bytes.len() >= 1 && bytes[0] == 0x09 {
        Ok((after(input, 1), ()))
    } else if bytes.len() >= 4 && bytes[0] == 0x20 && bytes[1] == 0x20 && bytes[2] == 0x20
        && bytes[3] == 0x20 {
        Ok((after(input, 4), ()))
    } else {
        fail_soft(input, Context::Indent)
    }
}

/// `depth` units of indentation at the start of `s`.
pub open spec fn spec_indents(s: Seq<u8>, depth: nat) -> Outcome<()>
    decreases depth,
{
    if depth == 0 {
        Ok((s, ()))
    } else {
        match spec_indent(s) {
            Ok((rest, _)) => spec_indents(rest, (depth - 1) as nat),
            Err(e) => Err(e),
        }
    }
}

/// Reads `depth` units of indentation.
pub fn indents<'a>(input: &'a str, depth: usize) -> (r: Parsed<'a, ()>)
    ensures
        r.model() == spec_indents(input.model(), depth as nat),
        fits(input, r),
        depth > 0 ==> advances(input, r),
        r matches Ok((rest, _)) ==> rest.model().len() + depth <= input.model().len(),
{
    let mut rest = input;
    let mut left: usize = depth;
    while left > 0
        invariant
            spec_indents(rest.model(), left as nat) == spec_indents(input.model(), depth as nat),
            rest.model().len() + (depth - left) <= input.model().len(),
            left <= depth,
        decreases left,
    {
        match indent(rest) {
            Ok((next, _)) => {
                rest = next;
                left -= 1;
            },
            Err(e) => {
                return Err(e);
            },
        }
    }
    Ok((rest, ()))
}

/// What is left of `s` behind the units of indentation it begins with.
pub open spec fn spec_any_indents(s: Seq<u8>) -> Seq<u8>
    decreases s.len(),
{
    match spec_indent(s) {
        Ok((rest, _)) => if rest.len() < s.len() {
            spec_any_indents(rest)
        } else {
            s
        },
        Err(_) => s,
    }
}

/// Skips the units of indentation that `input` begins with.
pub fn any_indents<'a>(input: &'a str) -> (rest: &'a str)
    ensures
        rest.model() == spec_any_indents(input.model()),
        rest.model().len() <= input.model().len(),
{
    let mut rest = input;
    loop
        invariant
            spec_any_indents(rest.model()) == spec_any_indents(input.model()),
            rest.model().len() <= input.model().len(),
        decreases rest.model().len(),
    {
        match indent(rest) {
            Ok((next, _)) => {
                rest = next;
            },
            Err(_) => {
                return rest;
            },
        }
    }
}

/// One or more blanks at the start of `s`.
pub open spec fn spec_space1(s: Seq<u8>) -> Outcome<()> {
    if run(s, Class::Blank, 0) >= 1 {
        Ok((tail(s, run(s, Class::Blank, 0)), ()))
    } else {
        soft(s, Context::Space)
    }
}

/// Reads one or more spaces or tabs.
pub fn space1<'a>(input: &'a str) -> (r: Parsed<'a, ()>)
    ensures
        r.model() == spec_space1(input.model()),
        advances(input, r),
{
    let end = run_end(input.as_bytes(), Class::Blank, 0);
    if end >= 1 {
        proof {
            lemma_run(input.model(), Class::Blank, 0);
        }
        Ok((after(input, end), ()))
    } else {
        fail_soft(input, Context::Space)
    }
}

/// What is left of `s` behind the blanks it begins with.
pub open spec fn spec_space0(s: Seq<u8>) -> Seq<u8> {
    tail(s, run(s, Class::Blank, 0))
}

/// Skips the spaces and tabs that `input` begins with.
pub fn space0<'a>(input: &'a str) -> (rest: &'a str)
    ensures
        rest.model() == spec_space0(input.model()),
        rest.model().len() <= input.model().len(),
{
    let end = run_end(input.as_bytes(), Class::Blank, 0);
    proof {
        lemma_run(input.model(), Class::Blank, 0);
    }
    after(input, end)
}

/// The first of two outcomes unless it is a soft failure, then the second.
pub open spec fn or_else<T>(first: Outcome<T>, second: Outcome<T>) -> Outcome<T> {
    match first {
        Err(FailureModel::Soft(_)) => second,
        _ => first,
    }
}

/// A run between two `quote` bytes at the start of `s`, taken as it stands.
/// A text that opens the quote and never closes it fails hard.
pub open spec fn spec_quoted(s: Seq<u8>, quote: u8) -> Outcome<Seq<u8>> {
    if s.len() >= 1 && s[0] == quote {
        let end = find(s, quote, 1);
        if end < s.len() {
            Ok((tail(s, end + 1), s.subrange(1, end)))
        } else {
            hard(tail(s, 1), Context::ClosingQuote)
        }
    } else {
        soft(s, Context::Text)
    }
}

/// Reads a run between two `quote` bytes.
pub fn quoted<'a>(input: &'a str, quote: u8) -> (r: Parsed<'a, &'a str>)
    requires
        is_ascii_byte(quote),
    ensures
        r.model() == spec_quoted(input.model(), quote),
        advances(input, r),
{
    let bytes = input.as_bytes();
    if bytes.len() >= 1 && bytes[0] == quote {
        let end = find_byte(bytes, quote, 1);
        if end < bytes.len() {
            proof {
                lemma_find(input.model(), quote, 1);
            }
            let token = between(input, 1, end);
            Ok((after(input, end + 1), token))
        } else {
            fail_hard(after(input, 1), Context::ClosingQuote)
        }
    } else {
        fail_soft(input, Context::Text)
    }
}

/// A run of one or more word bytes at the start of `s`.
pub open spec fn spec_word(s: Seq<u8>) -> Outcome<Seq<u8>> {
    let end = run(s, Class::Word, 0);
    if end >= 1 {
        Ok((tail(s, end), head(s, end)))
    } else {
        soft(s, Context::Text)
    }
}

/// Reads a run of one or more ASCII letters, digits, apostrophes and hyphens.
pub fn alphanumeric_or_other_ok1<'a>(input: &'a str) -> (r: Parsed<'a, &'a str>)
    ensures
        r.model() == spec_word(input.model()),
        advances(input, r),
{
    let end = run_end(input.as_bytes(), Class::Word, 0);
    if end >= 1 {
        proof {
            lemma_run(input.model(), Class::Word, 0);
        }
        Ok((after(input, end), between(input, 0, end)))
    } else {
        fail_soft(input, Context::Text)
    }
}

/// A text at the start of `s`: a double-quoted run, else a run of word bytes,
/// else a backtick-quoted run.
pub open spec fn spec_string(s: Seq<u8>) -> Outcome<Seq<u8>> {
    or_else(spec_quoted(s, 0x22), or_else(spec_word(s), spec_quoted(s, 0x60)))
}

/// Reads a text in one of its three forms, tried in this order: between
/// double quotes, a bare word, between backticks.
pub fn string<'a>(input: &'a str) -> (r: Parsed<'a, &'a str>)
    ensures
        r.model() == spec_string(input.model()),
        advances(input, r),
{
    match quoted(input, 0x22) {
        Err(Failure::Soft(_)) => match alphanumeric_or_other_ok1(input) {
            Err(Failure::Soft(_)) => quoted(input, 0x60),
            other => other,
        },
        other => other,
    }
}

/// The bytes of `s` up to its first line feed.
pub open spec fn spec_until_line_feed(s: Seq<u8>) -> Outcome<Seq<u8>> {
    let end = find(s, 0x0a, 0);
    if end < s.len() {
        Ok((tail(s, end), head(s, end)))
    } else {
        soft(s, Context::ResourcePath)
    }
}

/// Reads up to the next line feed, which it leaves unread.
pub fn until_line_feed<'a>(input: &'a str) -> (r: Parsed<'a, &'a str>)
    ensures
        r.model() == spec_until_line_feed(input.model()),
        fits(input, r),
{
    let bytes = input.as_bytes();
    let end = find_byte(bytes, 0x0a, 0);
    if end < bytes.len() {
        proof {
            lemma_find(input.model(), 0x0a, 0);
        }
        Ok((after(input, end), between(input, 0, end)))
    } else {
        fail_soft(input, Context::ResourcePath)
    }
}

/// A resource path at the start of `s`: a double-quoted run, else what stands
/// before the next line feed.
pub open spec fn spec_resource_path(s: Seq<u8>) -> Outcome<Seq<u8>> {
    or_else(spec_quoted(s, 0x22), spec_until_line_feed(s))
}

/// Reads a resource path: a text between double quotes, or else the rest of
/// the line, slashes and blanks included.
pub fn resource_path<'a>(input: &'a str) -> (r: Parsed<'a, &'a str>)
    ensures
        r.model() == spec_resource_path(input.model()),
        fits(input, r),
{
    match quoted(input, 0x22) {
        Err(Failure::Soft(_)) => until_line_feed(input),
        other => other,
    }
}

/// The number that the decimal digits `digits` write.
pub open spec fn digits_value(digits: Seq<u8>) -> nat
    decreases digits.len(),
{
    if digits.len() == 0 {
        0
    } else {
        digits_value(digits.drop_last()) * 10 + (digits.last() - 0x30) as nat
    }
}

/// More digits never write a smaller number.
pub proof fn lemma_digits_value_grows(digits: Seq<u8>, k: int)
    requires
        0 <= k <= digits.len(),
        forall|i: int| 0 <= i < digits.len() ==> Class::Digit.has(#[trigger] digits[i]),
    ensures
        digits_value(digits.subrange(0, k)) <= digits_value(digits),
    decreases digits.len() - k,
{
    if k == digits.len() {
        assert(digits.subrange(0, k) =~= digits);
    } else {
        lemma_digits_value_grows(digits, k + 1);
        assert(digits.subrange(0, k + 1).drop_last() =~= digits.subrange(0, k));
    }
}

/// An integer at the start of `s`: a run of one or more digits that write a
/// number no greater than `max`.
pub open spec fn spec_integer(s: Seq<u8>, max: u64) -> Outcome<u64> {
    let end = run(s, Class::Digit, 0);
    if end >= 1 && digits_value(head(s, end)) <= max {
        Ok((tail(s, end), digits_value(head(s, end)) as u64))
    } else {
        soft(s, Context::Integer)
    }
}

/// Reads one or more ASCII digits as a number. Fails softly where there is no
/// digit, and where the number is greater than `max`.
pub fn integer<'a>(input: &'a str, max: u64) -> (r: Parsed<'a, u64>)
    ensures
        r.model() == spec_integer(input.model(), max),
        advances(input, r),
        r matches Ok((_, value)) ==> value <= max,
{
    let bytes = input.as_bytes();
    let end = run_end(bytes, Class::Digit, 0);
    if end == 0 {
        return fail_soft(input, Context::Integer);
    }
    proof {
        lemma_run(input.model(), Class::Digit, 0);
    }
    let ghost digits = head(input.model(), end as int);
    let mut value: u64 = 0;
    let mut i: usize = 0;
    while i < end
        invariant
            i <= end <= bytes@.len(),
            bytes@ == input.model(),
            end == run(input.model(), Class::Digit, 0),
            digits == head(input.model(), end as int),
            forall|j: int| 0 <= j < end ==> Class::Digit.has(#[trigger] bytes@[j]),
            value == digits_value(digits.subrange(0, i as int)),
            value <= max,
        decreases end - i,
    {
        let digit: u64 = (bytes[i] - 0x30) as u64;
        proof {
            assert(digits.subrange(0, i + 1).drop_last() =~= digits.subrange(0, i as int));
            assert(digits.subrange(0, i + 1).last() == bytes@[i as int]);
            lemma_digits_value_grows(digits, i + 1);
        }
        let ghost next = digits.subrange(0, i + 1);
        assert(digits_value(next) == value * 10 + digit);
        if digit > max || value > (max - digit) / 10 {
            assert(value * 10 + digit > max);
            return fail_soft(input, Context::Integer);
        }
        value = value * 10 + digit;
        i += 1;
    }
    proof {
        assert(digits.subrange(0, end as int) =~= digits);
    }
    Ok((after(input, end), value))
}

/// The offset behind a sign at `from`, or `from` where there is none.
pub open spec fn sign_end(s: Seq<u8>, from: int) -> int {
    if 0 <= from < s.len() && (s[from] == 0x2b || s[from] == 0x2d) {
        from + 1
    } else {
        from
    }
}

/// The offset at which the mantissa that starts at `from` ends: digits with
/// an optional point and more digits, or a point and digits.
pub open spec fn mantissa_end(s: Seq<u8>, from: int) -> Option<int> {
    let whole = run(s, Class::Digit, from);
    if whole > from {
        if whole < s.len() && s[whole] == 0x2e {
            Some(run(s, Class::Digit, whole + 1))
        } else {
            Some(whole)
        }
    } else if 0 <= from < s.len() && s[from] == 0x2e && run(s, Class::Digit, from + 1) > from + 1 {
        Some(run(s, Class::Digit, from + 1))
    } else {
        None
    }
}

/// A decimal number at the start of `s`: an optional sign, a mantissa, and an
/// optional exponent made of `e` or `E`, an optional sign and digits. The
/// value is the number as written. An exponent without digits fails hard.
pub open spec fn spec_number(s: Seq<u8>) -> Outcome<Seq<u8>> {
    match mantissa_end(s, sign_end(s, 0)) {
        None => soft(s, Context::Number),
        Some(mantissa) => if mantissa < s.len() && (s[mantissa] == 0x65 || s[mantissa] == 0x45) {
            let from = sign_end(s, mantissa + 1);
            let end = run(s, Class::Digit, from);
            if end > from {
                Ok((tail(s, end), head(s, end)))
            } else {
                hard(tail(s, from), Context::Exponent)
            }
        } else {
            Ok((tail(s, mantissa), head(s, mantissa)))
        },
    }
}

/// Finds the end of an optional sign at `from`.
fn skip_sign(bytes: &[u8], from: usize) -> (end: usize)
    requires
        from <= bytes@.len(),
    ensures
        end == sign_end(bytes@, from as int),
        from <= end <= bytes@.len(),
{
    if from < bytes.len() && (bytes[from] == 0x2b || bytes[from] == 0x2d) {
        from + 1
    } else {
        from
    }
}

/// Finds the end of the mantissa that starts at `from`.
fn skip_mantissa(bytes: &[u8], from: usize) -> (end: Option<usize>)
    requires
        from <= bytes@.len(),
    ensures
        match end {
            Some(e) => mantissa_end(bytes@, from as int) == Some(e as int) && from < e
                <= bytes@.len() && is_ascii_byte(bytes@[e - 1]),
            None => mantissa_end(bytes@, from as int) is None,
        },
{
    let whole = run_end(bytes, Class::Digit, from);
    proof {
        lemma_run(bytes@, Class::Digit, from as int);
    }
    if whole > from {
        if whole < bytes.len() && bytes[whole] == 0x2e {
            let end = run_end(bytes, Class::Digit, whole + 1);
            proof {
                lemma_run(bytes@, Class::Digit, whole + 1);
            }
            Some(end)
        } else {
            Some(whole)
        }
    } else if from < bytes.len() && bytes[from] == 0x2e {
        let end = run_end(bytes, Class::Digit, from + 1);
        proof {
            lemma_run(bytes@, Class::Digit, from + 1);
        }
        if end > from + 1 {
            Some(end)
        } else {
            None
        }
    } else {
        None
    }
}

/// Reads a decimal number and returns it as written: an optional sign,
/// digits with an optional fraction or a fraction alone, and an optional
/// exponent.
pub fn number<'a>(input: &'a str) -> (r: Parsed<'a, &'a str>)
    ensures
        r.model() == spec_number(input.model()),
        advances(input, r),
{
    let bytes = input.as_bytes();
    let start = skip_sign(bytes, 0);
    match skip_mantissa(bytes, start) {
        None => fail_soft(input, Context::Number),
        Some(mantissa) => {
            if mantissa < bytes.len() && (bytes[mantissa] == 0x65 || bytes[mantissa] == 0x45) {
                let from = skip_sign(bytes, mantissa + 1);
                let end = run_end(bytes, Class::Digit, from);
                if end > from {
                    proof {
                        lemma_run(input.model(), Class::Digit, from as int);
                    }
                    Ok((after(input, end), between(input, 0, end)))
                } else {
                    fail_hard(after(input, from), Context::Exponent)
                }
            } else {
                Ok((after(input, mantissa), between(input, 0, mantissa)))
            }
        },
    }
}

/// The offset behind the mark that opens a comment at the start of `s`: two
/// slashes, or a hash.
pub open spec fn comment_mark_end(s: Seq<u8>) -> Option<int> {
    if s.len() >= 2 && s[0] == 0x2f && s[1] == 0x2f {
        Some(2)
    } else if s.len() >= 1 && s[0] == 0x23 {
        Some(1)
    } else {
        None
    }
}

/// A comment line at the start of `s`: the mark, and all up to and with the
/// next line feed.
pub open spec fn spec_comment_hole(s: Seq<u8>) -> Outcome<()> {
    match comment_mark_end(s) {
        Some(from) => {
            let end = find(s, 0x0a, from);
            if end < s.len() {
                Ok((tail(s, end + 1), ()))
            } else {
                soft(s, Context::Comment)
            }
        },
        None => soft(s, Context::Comment),
    }
}

/// Reads a comment: a line that starts with `//` or `#`, through its line
/// feed. The comment itself is dropped.
pub fn comment_hole<'a>(input: &'a str) -> (r: Parsed<'a, ()>)
    ensures
        r.model() == spec_comment_hole(input.model()),
        advances(input, r),
{
    let bytes = input.as_bytes();
    let from: usize = if bytes.len() >= 2 && bytes[0] == 0x2f && bytes[1] == 0x2f {
        2
    } else if bytes.len() >= 1 && bytes[0] == 0x23 {
        1
    } else {
        return fail_soft(input, Context::Comment);
    };
    let end = find_byte(bytes, 0x0a, from);
    if end < bytes.len() {
        proof {
            lemma_find(input.model(), 0x0a, from as int);
        }
        Ok((after(input, end + 1), ()))
    } else {
        fail_soft(input, Context::Comment)
    }
}

/// A date at the start of `s`: day, month and year, with blanks between.
pub open spec fn spec_date(s: Seq<u8>) -> Outcome<Date> {
    match spec_integer(s, 0xff) {
        Err(e) => Err(e),
        Ok((a, day)) => match spec_space1(a) {
            Err(e) => Err(e),
            Ok((b, _)) => match spec_integer(b, 0xff) {
                Err(e) => Err(e),
                Ok((c, month)) => match spec_space1(c) {
                    Err(e) => Err(e),
                    Ok((d, _)) => match spec_integer(d, 0xffff) {
                        Err(e) => Err(e),
                        Ok((rest, year)) => Ok(
                            (rest, Date { year: year as u16, month: month as u8, day: day as u8 }),
                        ),
                    },
                },
            },
        },
    }
}

/// Reads a date: three integers in the order day, month, year.
pub fn date<'a>(input: &'a str) -> (r: Parsed<'a, Date>)
    ensures
        r.model() == spec_date(input.model()),
        advances(input, r),
{
    let (a, day) = integer(input, 0xff)?;
    let (b, _) = space1(a)?;
    let (c, month) = integer(b, 0xff)?;
    let (d, _) = space1(c)?;
    let (rest, year) = integer(d, 0xffff)?;
    Ok((rest, Date { year: year as u16, month: month as u8, day: day as u8 }))
}

/// A position at the start of `s`: two decimal numbers with blanks between.
pub open spec fn spec_position(s: Seq<u8>) -> Outcome<PositionModel> {
    match spec_number(s) {
        Err(e) => Err(e),
        Ok((a, x)) => match spec_space1(a) {
            Err(e) => Err(e),
            Ok((b, _)) => match spec_number(b) {
                Err(e) => Err(e),
                Ok((rest, y)) => Ok((rest, PositionModel { x, y })),
            },
        },
    }
}

/// Reads a position: two decimal numbers.
pub fn position<'a>(input: &'a str) -> (r: Parsed<'a, Position<'a>>)
    ensures
        r.model() == spec_position(input.model()),
        advances(input, r),
{
    let (a, x) = number(input)?;
    let (b, _) = space1(a)?;
    let (rest, y) = number(b)?;
    Ok((rest, Position { x, y }))
}

/// An outcome with its failure, if it is one, made hard.
pub open spec fn spec_hardened<T>(outcome: Outcome<T>) -> Outcome<T> {
    match outcome {
        Ok(done) => Ok(done),
        Err(failure) => Err(failure.harden()),
    }
}

/// Makes the failure of `result`, if it is one, hard.
pub fn hardened<'a, T: Model>(result: Parsed<'a, T>) -> (r: Parsed<'a, T>)
    ensures
        r.model() == spec_hardened(result.model()),
        result matches Ok(done) ==> r == Ok::<(&'a str, T), Failure>(done),
        result is Err ==> r is Err,
{
    match result {
        Ok(done) => Ok(done),
        Err(failure) => Err(failure.harden()),
    }
}

/// The failure of a record of kind `data_type` that was read up to `s` and
/// lacks `field`.
pub open spec fn invalid<T>(s: Seq<u8>, data_type: &'static str, field: &'static str) -> Outcome<
    T,
> {
    Err(
        FailureModel::Hard(
            ErrorModel::Validation {
                remaining: s.len() as usize,
                data_type: data_type@,
                field: field@,
            },
        ),
    )
}

/// Fails for a record of kind `data_type` that was read up to `rest` and
/// lacks `field`.
pub fn fail_invalid<'a, T: Model>(
    rest: &'a str,
    data_type: &'static str,
    field: &'static str,
) -> (r: Parsed<'a, T>)
    ensures
        r.model() == (Err::<(Seq<u8>, T::M), FailureModel>(
            FailureModel::Hard(
                ErrorModel::Validation {
                    remaining: rest.model().len() as usize,
                    data_type: data_type@,
                    field: field@,
                },
            ),
        )),
{
    Err(
        Failure::Hard(
            DataError::Validation { remaining: rest.as_bytes().len(), data_type, field },
        ),
    )
}

} // verus!
