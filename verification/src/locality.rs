//! What a parser reads depends on the bytes it reads and on one more.
//!
//! Two texts that begin alike are read alike as far as they agree: a parser
//! that succeeds on one and stops short of where they part succeeds on the
//! other, with the same value, after as many bytes. This is what lets two
//! lines of a record change places.

use crate::errors::FailureModel;
use crate::fields::{at_field, spec_item, spec_line, Rule};
use crate::helpers::{
    find, lemma_find, lemma_run, mantissa_end, run, sign_end, spec_date, spec_indent, spec_indents,
    spec_integer, spec_line_ending, spec_line_endings, spec_number, spec_position, spec_quoted,
    spec_space0, spec_space1, spec_string, spec_tag, spec_word, Class,
};
use crate::model::{Model, Outcome};
use crate::text::{head, tail};
use crate::values::{
    date_rule, flag_rule, fleet_rule, number_rule, path_rule, position_rule, spec_fleet, spec_u16,
    string_rule, u16_rule, u32_rule, u64_rule,
};
use vstd::prelude::*;
use vstd::string::*;
use vstd::utf8::*;

verus! {

/// True when `s` and `t` hold the same first `n` bytes.
pub open spec fn agree(s: Seq<u8>, t: Seq<u8>, n: int) -> bool {
    &&& 0 <= n <= s.len()
    &&& n <= t.len()
    &&& forall|i: int| 0 <= i < n ==> s[i] == t[i]
}

/// True when `outcome`, read from `s`, succeeded after `k` bytes with the
/// value `v`.
pub open spec fn reads<T>(outcome: Outcome<T>, s: Seq<u8>, k: int, v: T) -> bool {
    0 <= k <= s.len() && outcome == Ok::<(Seq<u8>, T), FailureModel>((tail(s, k), v))
}

/// Texts that agree up to `n` agree behind their first `k` bytes up to
/// `n - k`.
pub proof fn lemma_agree_tail(s: Seq<u8>, t: Seq<u8>, n: int, k: int)
    requires
        agree(s, t, n),
        0 <= k <= n,
    ensures
        agree(tail(s, k), tail(t, k), n - k),
{
    assert forall|i: int| 0 <= i < n - k implies tail(s, k)[i] == tail(t, k)[i] by {
        assert(s[i + k] == t[i + k]);
    }
}

/// Texts that agree up to `n` have the same first `k` bytes, for `k` up to
/// `n`.
pub proof fn lemma_agree_head(s: Seq<u8>, t: Seq<u8>, n: int, from: int, to: int)
    requires
        agree(s, t, n),
        0 <= from <= to <= n,
    ensures
        s.subrange(from, to) == t.subrange(from, to),
{
    assert(s.subrange(from, to) =~= t.subrange(from, to));
}

/// The tail of a tail is a tail.
pub proof fn lemma_tail_tail(s: Seq<u8>, j: int, k: int)
    requires
        0 <= j,
        0 <= k,
        j + k <= s.len(),
    ensures
        tail(tail(s, j), k) == tail(s, j + k),
{
    assert(tail(tail(s, j), k) =~= tail(s, j + k));
}

/// A run that ends before two texts part ends at the same place in both.
pub proof fn lemma_run_agree(s: Seq<u8>, t: Seq<u8>, n: int, class: Class, from: int)
    requires
        agree(s, t, n),
        0 <= from <= n,
        run(s, class, from) < n,
    ensures
        run(t, class, from) == run(s, class, from),
    decreases s.len() - from,
{
    if from < s.len() && class.has(s[from]) {
        lemma_run(s, class, from + 1);
        lemma_run_agree(s, t, n, class, from + 1);
    }
}

/// A search that ends before two texts part ends at the same place in both.
pub proof fn lemma_find_agree(s: Seq<u8>, t: Seq<u8>, n: int, b: u8, from: int)
    requires
        agree(s, t, n),
        0 <= from <= n,
        find(s, b, from) < n,
    ensures
        find(t, b, from) == find(s, b, from),
    decreases s.len() - from,
{
    if from < s.len() && s[from] != b {
        lemma_find(s, b, from + 1);
        lemma_find_agree(s, t, n, b, from + 1);
    }
}

/// Indentation is read alike from texts that agree as far as it goes.
pub proof fn lemma_indents_local(s: Seq<u8>, t: Seq<u8>, n: int, depth: nat)
    requires
        agree(s, t, n),
        spec_indents(s, depth) matches Ok((rest, _)) && s.len() - rest.len() <= n,
    ensures
        spec_indents(s, depth) matches Ok((rest, _)) && rest.len() <= s.len() && reads(
            spec_indents(s, depth),
            s,
            s.len() - rest.len(),
            (),
        ) && reads(spec_indents(t, depth), t, s.len() - rest.len(), ()),
    decreases depth,
{
    if depth == 0 {
        assert(tail(s, 0) =~= s);
        assert(tail(t, 0) =~= t);
    } else {
        let a = spec_indent(s)->Ok_0.0;
        let k = s.len() - a.len();
        lemma_indents_fits(a, (depth - 1) as nat);
        lemma_agree_tail(s, t, n, k);
        assert(spec_indent(t) == Ok::<(Seq<u8>, ()), FailureModel>((tail(t, k), ())));
        lemma_indents_local(a, tail(t, k), n - k, (depth - 1) as nat);
        let rest = spec_indents(a, (depth - 1) as nat)->Ok_0.0;
        lemma_tail_tail(s, k, a.len() - rest.len());
        lemma_tail_tail(t, k, a.len() - rest.len());
    }
}

/// Indentation leaves no more unread than it was given.
pub proof fn lemma_indents_fits(s: Seq<u8>, depth: nat)
    ensures
        spec_indents(s, depth) matches Ok((rest, _)) ==> rest.len() <= s.len(),
    decreases depth,
{
    if depth > 0 {
        match spec_indent(s) {
            Ok((a, _)) => {
                lemma_indents_fits(a, (depth - 1) as nat);
            },
            Err(_) => {},
        }
    }
}

/// A keyword is read alike from texts that agree as far as it goes.
pub proof fn lemma_tag_local(
    s: Seq<u8>,
    t: Seq<u8>,
    n: int,
    keyword: Seq<u8>,
    context: crate::errors::Context,
)
    requires
        agree(s, t, n),
        spec_tag(s, keyword, context) is Ok,
        keyword.len() <= n,
    ensures
        reads(spec_tag(s, keyword, context), s, keyword.len() as int, ()),
        reads(spec_tag(t, keyword, context), t, keyword.len() as int, ()),
{
    assert(keyword =~= t.subrange(0, keyword.len() as int)) by {
        assert(keyword =~= s.subrange(0, keyword.len() as int));
        lemma_agree_head(s, t, n, 0, keyword.len() as int);
    }
}

/// Blanks are read alike from texts that agree one byte further than the
/// blanks go.
pub proof fn lemma_space1_local(s: Seq<u8>, t: Seq<u8>, n: int)
    requires
        agree(s, t, n),
        spec_space1(s) matches Ok((rest, _)) && s.len() - rest.len() < n,
    ensures
        spec_space1(s) matches Ok((rest, _)) && rest.len() <= s.len() && reads(
            spec_space1(s),
            s,
            s.len() - rest.len(),
            (),
        ) && reads(spec_space1(t), t, s.len() - rest.len(), ()),
{
    lemma_run(s, Class::Blank, 0);
    lemma_run_agree(s, t, n, Class::Blank, 0);
}

/// A line ending is read alike from texts that agree as far as it goes.
pub proof fn lemma_line_ending_local(s: Seq<u8>, t: Seq<u8>, n: int)
    requires
        agree(s, t, n),
        spec_line_ending(s) matches Ok((rest, _)) && s.len() - rest.len() <= n,
    ensures
        spec_line_ending(s) matches Ok((rest, _)) && rest.len() <= s.len() && reads(
            spec_line_ending(s),
            s,
            s.len() - rest.len(),
            (),
        ) && reads(spec_line_ending(t), t, s.len() - rest.len(), ()),
{
}

/// True when `rule`, where it succeeds on `s`, leaves a tail of `s`.
pub open spec fn leaves_tail<T>(rule: Rule<T>, s: Seq<u8>) -> bool {
    match rule(s) {
        Ok((rest, v)) => rest.len() <= s.len() && reads(rule(s), s, s.len() - rest.len(), v),
        Err(_) => true,
    }
}

/// True when `rule`, where it succeeds on `s` and stops short of `n`, reads
/// the same from every text that agrees with `s` up to `n`.
pub open spec fn reads_alike<T>(rule: Rule<T>, s: Seq<u8>, t: Seq<u8>, n: int) -> bool {
    match rule(s) {
        Ok((rest, v)) => agree(s, t, n) && s.len() - rest.len() < n ==> reads(
            rule(t),
            t,
            s.len() - rest.len(),
            v,
        ),
        Err(_) => true,
    }
}

/// True when `rule` leaves a tail of what it was given, and reads alike
/// from texts that agree one byte further than it reads.
pub open spec fn steady<T>(rule: Rule<T>) -> bool {
    &&& forall|s: Seq<u8>| #[trigger] leaves_tail(rule, s)
    &&& forall|s: Seq<u8>, t: Seq<u8>, n: int| #[trigger] reads_alike(rule, s, t, n)
}

/// A quoted text is read alike from texts that agree as far as it goes.
pub proof fn lemma_quoted_local(s: Seq<u8>, t: Seq<u8>, n: int, quote: u8)
    requires
        agree(s, t, n),
        spec_quoted(s, quote) matches Ok((rest, _)) && s.len() - rest.len() <= n,
    ensures
        spec_quoted(s, quote) matches Ok((rest, v)) && reads(
            spec_quoted(t, quote),
            t,
            s.len() - rest.len(),
            v,
        ),
{
    lemma_find(s, quote, 1);
    lemma_find_agree(s, t, n, quote, 1);
    let end = find(s, quote, 1);
    lemma_agree_head(s, t, n, 1, end);
}

/// A quoted text leaves a tail of what it was given.
pub proof fn lemma_quoted_fits(s: Seq<u8>, quote: u8)
    ensures
        spec_quoted(s, quote) matches Ok((rest, v)) ==> rest.len() < s.len() && reads(
            spec_quoted(s, quote),
            s,
            s.len() - rest.len(),
            v,
        ),
{
    if s.len() >= 1 {
        lemma_find(s, quote, 1);
    }
}

/// A bare word is read alike from texts that agree one byte further than it
/// goes.
pub proof fn lemma_word_local(s: Seq<u8>, t: Seq<u8>, n: int)
    requires
        agree(s, t, n),
        spec_word(s) matches Ok((rest, _)) && s.len() - rest.len() < n,
    ensures
        spec_word(s) matches Ok((rest, v)) && reads(spec_word(t), t, s.len() - rest.len(), v),
{
    lemma_run(s, Class::Word, 0);
    lemma_run_agree(s, t, n, Class::Word, 0);
    lemma_agree_head(s, t, n, 0, run(s, Class::Word, 0));
}

/// A text is read steadily.
pub proof fn lemma_string_steady()
    ensures
        steady(string_rule()),
{
    let rule = string_rule();
    assert forall|s: Seq<u8>| #[trigger] leaves_tail(rule, s) by {
        lemma_quoted_fits(s, 0x22);
        lemma_quoted_fits(s, 0x60);
        lemma_run(s, Class::Word, 0);
    }
    assert forall|s: Seq<u8>, t: Seq<u8>, n: int| #[trigger] reads_alike(rule, s, t, n) by {
        if rule(s) is Ok && agree(s, t, n) && s.len() - rule(s)->Ok_0.0.len() < n {
            lemma_quoted_fits(s, 0x22);
            lemma_quoted_fits(s, 0x60);
            lemma_run(s, Class::Word, 0);
            lemma_run(t, Class::Word, 0);
            if spec_quoted(s, 0x22) is Ok {
                lemma_quoted_local(s, t, n, 0x22);
            } else if spec_word(s) is Ok {
                lemma_word_local(s, t, n);
            } else {
                if run(t, Class::Word, 0) >= 1 {
                    assert(Class::Word.has(t[0]));
                    assert(s[0] == t[0]);
                }
                lemma_quoted_local(s, t, n, 0x60);
            }
        }
    }
}

/// A resource path is read steadily.
pub proof fn lemma_path_steady()
    ensures
        steady(path_rule()),
{
    let rule = path_rule();
    assert forall|s: Seq<u8>| #[trigger] leaves_tail(rule, s) by {
        lemma_quoted_fits(s, 0x22);
        lemma_find(s, 0x0a, 0);
    }
    assert forall|s: Seq<u8>, t: Seq<u8>, n: int| #[trigger] reads_alike(rule, s, t, n) by {
        if rule(s) is Ok && agree(s, t, n) && s.len() - rule(s)->Ok_0.0.len() < n {
            lemma_quoted_fits(s, 0x22);
            lemma_find(s, 0x0a, 0);
            if spec_quoted(s, 0x22) is Ok {
                lemma_quoted_local(s, t, n, 0x22);
            } else {
                lemma_find_agree(s, t, n, 0x0a, 0);
                lemma_agree_head(s, t, n, 0, find(s, 0x0a, 0));
            }
        }
    }
}

/// A decimal number leaves a tail of what it was given.
pub proof fn lemma_number_fits(s: Seq<u8>)
    ensures
        spec_number(s) matches Ok((rest, v)) ==> rest.len() < s.len() && reads(
            spec_number(s),
            s,
            s.len() - rest.len(),
            v,
        ),
{
    let from = sign_end(s, 0);
    lemma_run(s, Class::Digit, from);
    let whole = run(s, Class::Digit, from);
    if whole < s.len() {
        lemma_run(s, Class::Digit, whole + 1);
    }
    if from < s.len() {
        lemma_run(s, Class::Digit, from + 1);
    }
    match mantissa_end(s, from) {
        Some(mantissa) => {
            if mantissa < s.len() {
                let digits = sign_end(s, mantissa + 1);
                lemma_run(s, Class::Digit, digits);
            }
        },
        None => {},
    }
}

/// A decimal number is read alike from texts that agree one byte further
/// than it goes.
pub proof fn lemma_number_local(s: Seq<u8>, t: Seq<u8>, n: int)
    requires
        agree(s, t, n),
        spec_number(s) matches Ok((rest, _)) && s.len() - rest.len() < n,
    ensures
        spec_number(s) matches Ok((rest, v)) && reads(spec_number(t), t, s.len() - rest.len(), v),
{
    lemma_number_fits(s);
    let from = sign_end(s, 0);
    lemma_run(s, Class::Digit, from);
    let whole = run(s, Class::Digit, from);
    if whole > from {
        if whole < s.len() && s[whole] == 0x2e {
            lemma_run(s, Class::Digit, whole + 1);
        }
    } else {
        lemma_run(s, Class::Digit, from + 1);
    }
    let mantissa = mantissa_end(s, from)->0;
    assert(from <= whole <= mantissa <= s.len());
    let exponent = mantissa < s.len() && (s[mantissa] == 0x65 || s[mantissa] == 0x45);
    let digits = sign_end(s, mantissa + 1);
    if exponent {
        lemma_run(s, Class::Digit, digits);
    }
    let end = if exponent {
        run(s, Class::Digit, digits)
    } else {
        mantissa
    };
    assert(spec_number(s) == Ok::<(Seq<u8>, Seq<u8>), FailureModel>((tail(s, end), head(s, end))));
    assert(mantissa <= end < n);
    assert(sign_end(t, 0) == from);
    lemma_run_agree(s, t, n, Class::Digit, from);
    if whole > from {
        if whole < s.len() && s[whole] == 0x2e {
            lemma_run_agree(s, t, n, Class::Digit, whole + 1);
        }
    } else {
        lemma_run_agree(s, t, n, Class::Digit, from + 1);
    }
    assert(mantissa_end(t, from) == Some(mantissa));
    if exponent {
        assert(sign_end(t, mantissa + 1) == digits);
        lemma_run_agree(s, t, n, Class::Digit, digits);
    }
    lemma_agree_head(s, t, n, 0, end);
}

/// A decimal number is read steadily.
pub proof fn lemma_number_steady()
    ensures
        steady(number_rule()),
{
    let rule = number_rule();
    assert forall|s: Seq<u8>| #[trigger] leaves_tail(rule, s) by {
        lemma_number_fits(s);
    }
    assert forall|s: Seq<u8>, t: Seq<u8>, n: int| #[trigger] reads_alike(rule, s, t, n) by {
        if rule(s) is Ok && agree(s, t, n) && s.len() - rule(s)->Ok_0.0.len() < n {
            lemma_number_local(s, t, n);
        }
    }
}

/// An integer is read alike from texts that agree one byte further than it
/// goes.
pub proof fn lemma_integer_local(s: Seq<u8>, t: Seq<u8>, n: int, max: u64)
    requires
        agree(s, t, n),
        spec_integer(s, max) matches Ok((rest, _)) && s.len() - rest.len() < n,
    ensures
        spec_integer(s, max) matches Ok((rest, v)) && rest.len() < s.len() && reads(
            spec_integer(s, max),
            s,
            s.len() - rest.len(),
            v,
        ) && reads(spec_integer(t, max), t, s.len() - rest.len(), v),
{
    lemma_run(s, Class::Digit, 0);
    lemma_run_agree(s, t, n, Class::Digit, 0);
    lemma_agree_head(s, t, n, 0, run(s, Class::Digit, 0));
}

/// An integer leaves a tail of what it was given.
pub proof fn lemma_integer_fits(s: Seq<u8>, max: u64)
    ensures
        spec_integer(s, max) matches Ok((rest, v)) ==> rest.len() < s.len() && reads(
            spec_integer(s, max),
            s,
            s.len() - rest.len(),
            v,
        ),
{
    lemma_run(s, Class::Digit, 0);
}

/// An integer of 16 bits is read steadily.
pub proof fn lemma_u16_steady()
    ensures
        steady(u16_rule()),
{
    let rule = u16_rule();
    assert forall|s: Seq<u8>| #[trigger] leaves_tail(rule, s) by {
        lemma_integer_fits(s, 0xffff);
    }
    assert forall|s: Seq<u8>, t: Seq<u8>, n: int| #[trigger] reads_alike(rule, s, t, n) by {
        if rule(s) is Ok && agree(s, t, n) && s.len() - rule(s)->Ok_0.0.len() < n {
            lemma_integer_local(s, t, n, 0xffff);
        }
    }
}

/// An integer of 32 bits is read steadily.
pub proof fn lemma_u32_steady()
    ensures
        steady(u32_rule()),
{
    let rule = u32_rule();
    assert forall|s: Seq<u8>| #[trigger] leaves_tail(rule, s) by {
        lemma_integer_fits(s, 0xffff_ffff);
    }
    assert forall|s: Seq<u8>, t: Seq<u8>, n: int| #[trigger] reads_alike(rule, s, t, n) by {
        if rule(s) is Ok && agree(s, t, n) && s.len() - rule(s)->Ok_0.0.len() < n {
            lemma_integer_local(s, t, n, 0xffff_ffff);
        }
    }
}

/// An integer of 64 bits is read steadily.
pub proof fn lemma_u64_steady()
    ensures
        steady(u64_rule()),
{
    let rule = u64_rule();
    assert forall|s: Seq<u8>| #[trigger] leaves_tail(rule, s) by {
        lemma_integer_fits(s, 0xffff_ffff_ffff_ffff);
    }
    assert forall|s: Seq<u8>, t: Seq<u8>, n: int| #[trigger] reads_alike(rule, s, t, n) by {
        if rule(s) is Ok && agree(s, t, n) && s.len() - rule(s)->Ok_0.0.len() < n {
            lemma_integer_local(s, t, n, 0xffff_ffff_ffff_ffff);
        }
    }
}

/// A position leaves a tail of what it was given.
pub proof fn lemma_position_fits(s: Seq<u8>)
    ensures
        spec_position(s) matches Ok((rest, v)) ==> rest.len() < s.len() && reads(
            spec_position(s),
            s,
            s.len() - rest.len(),
            v,
        ),
{
    lemma_number_fits(s);
    match spec_number(s) {
        Ok((a, _)) => {
            lemma_run(a, Class::Blank, 0);
            match spec_space1(a) {
                Ok((b, _)) => {
                    lemma_number_fits(b);
                    match spec_number(b) {
                        Ok((rest, _)) => {
                            lemma_tail_tail(s, s.len() - a.len(), a.len() - b.len());
                            lemma_tail_tail(s, s.len() - b.len(), b.len() - rest.len());
                        },
                        Err(_) => {},
                    }
                },
                Err(_) => {},
            }
        },
        Err(_) => {},
    }
}

/// A position is read steadily.
pub proof fn lemma_position_steady()
    ensures
        steady(position_rule()),
{
    let rule = position_rule();
    assert forall|s: Seq<u8>| #[trigger] leaves_tail(rule, s) by {
        lemma_position_fits(s);
    }
    assert forall|s: Seq<u8>, t: Seq<u8>, n: int| #[trigger] reads_alike(rule, s, t, n) by {
        if rule(s) is Ok && agree(s, t, n) && s.len() - rule(s)->Ok_0.0.len() < n {
            lemma_position_fits(s);
            lemma_number_fits(s);
            let a = spec_number(s)->Ok_0.0;
            let k1 = s.len() - a.len();
            lemma_run(a, Class::Blank, 0);
            let b = spec_space1(a)->Ok_0.0;
            let k2 = a.len() - b.len();
            lemma_number_fits(b);
            let rest = spec_number(b)->Ok_0.0;
            let k3 = b.len() - rest.len();
            lemma_number_local(s, t, n);
            lemma_agree_tail(s, t, n, k1);
            lemma_space1_local(a, tail(t, k1), n - k1);
            lemma_tail_tail(t, k1, k2);
            lemma_tail_tail(s, k1, k2);
            lemma_agree_tail(s, t, n, k1 + k2);
            lemma_number_local(b, tail(t, k1 + k2), n - k1 - k2);
            lemma_tail_tail(t, k1 + k2, k3);
            lemma_tail_tail(s, k1 + k2, k3);
        }
    }
}

/// A field on a line of its own is read alike from texts that agree as far
/// as the line goes, whatever follows the line.
pub proof fn lemma_line_local<T>(
    s: Seq<u8>,
    t: Seq<u8>,
    n: int,
    depth: nat,
    keyword: Seq<u8>,
    value: Rule<T>,
)
    requires
        steady(value),
        agree(s, t, n),
        spec_line(s, depth, keyword, value) matches Ok((rest, _)) && s.len() - rest.len() == n,
    ensures
        spec_line(s, depth, keyword, value) matches Ok((rest, v)) && reads(
            spec_line(s, depth, keyword, value),
            s,
            n,
            v,
        ) && reads(spec_line(t, depth, keyword, value), t, n, v),
{
    lemma_indents_fits(s, depth);
    let a = spec_indents(s, depth)->Ok_0.0;
    let k1 = s.len() - a.len();
    let b = spec_tag(a, keyword, crate::errors::Context::Keyword)->Ok_0.0;
    let k2 = a.len() - b.len();
    lemma_run(b, Class::Blank, 0);
    let c = spec_space1(b)->Ok_0.0;
    let k3 = b.len() - c.len();
    assert(leaves_tail(value, c));
    let d = value(c)->Ok_0.0;
    let v = value(c)->Ok_0.1;
    let k4 = c.len() - d.len();
    let rest = spec_line_ending(d)->Ok_0.0;
    let k5 = d.len() - rest.len();
    assert(k5 >= 1);
    assert(n == k1 + k2 + k3 + k4 + k5);
    lemma_indents_local(s, t, n, depth);
    lemma_agree_tail(s, t, n, k1);
    lemma_tag_local(a, tail(t, k1), n - k1, keyword, crate::errors::Context::Keyword);
    lemma_tail_tail(s, k1, k2);
    lemma_tail_tail(t, k1, k2);
    lemma_agree_tail(s, t, n, k1 + k2);
    lemma_space1_local(b, tail(t, k1 + k2), n - k1 - k2);
    lemma_tail_tail(s, k1 + k2, k3);
    lemma_tail_tail(t, k1 + k2, k3);
    lemma_agree_tail(s, t, n, k1 + k2 + k3);
    let tc = tail(t, k1 + k2 + k3);
    assert(reads_alike(value, c, tc, n - k1 - k2 - k3));
    assert(reads(value(tc), tc, k4, v));
    lemma_tail_tail(s, k1 + k2 + k3, k4);
    lemma_tail_tail(t, k1 + k2 + k3, k4);
    lemma_agree_tail(s, t, n, k1 + k2 + k3 + k4);
    lemma_line_ending_local(d, tail(t, k1 + k2 + k3 + k4), k5);
    lemma_tail_tail(s, k1 + k2 + k3 + k4, k5);
    lemma_tail_tail(t, k1 + k2 + k3 + k4, k5);
}

/// True when `keyword` holds no blank.
pub open spec fn blank_free(keyword: Seq<u8>) -> bool {
    forall|i: int| 0 <= i < keyword.len() ==> !Class::Blank.has(#[trigger] keyword[i])
}

/// A line holds one keyword. Where the line of one keyword is read from a
/// text, the line of every other keyword fails softly on that text, as long
/// as neither keyword holds a blank.
pub proof fn lemma_other_keyword<T, U>(
    s: Seq<u8>,
    depth: nat,
    here: Seq<u8>,
    other: Seq<u8>,
    value: Rule<T>,
    another: Rule<U>,
)
    requires
        spec_line(s, depth, here, value) is Ok,
        here != other,
        blank_free(here),
        blank_free(other),
    ensures
        spec_line(s, depth, other, another) matches Err(FailureModel::Soft(_)),
{
    let a = spec_indents(s, depth)->Ok_0.0;
    let b = tail(a, here.len() as int);
    lemma_run(b, Class::Blank, 0);
    assert(Class::Blank.has(b[0]));
    assert(b[0] == a[here.len() as int]);
    if other.is_prefix_of(a) {
        let c = tail(a, other.len() as int);
        lemma_run(c, Class::Blank, 0);
        if other.len() < here.len() {
            assert(c[0] == a[other.len() as int]);
            assert(here[other.len() as int] == a[other.len() as int]);
        } else if other.len() > here.len() {
            assert(other[here.len() as int] == a[here.len() as int]);
        } else {
            assert(here =~= other);
        }
    }
}

/// A text that ends a first part, put before any other text, agrees with
/// the first part put before a third.
pub proof fn lemma_agree_front(first: Seq<u8>, second: Seq<u8>, third: Seq<u8>)
    ensures
        agree(first + second, first + third, first.len() as int),
        tail(first + second, first.len() as int) == second,
{
    assert(tail(first + second, first.len() as int) =~= second);
}

/// A date is read steadily.
pub proof fn lemma_date_steady()
    ensures
        steady(date_rule()),
{
    let rule = date_rule();
    assert forall|s: Seq<u8>| #[trigger] leaves_tail(rule, s) by {
        lemma_date_fits(s);
    }
    assert forall|s: Seq<u8>, t: Seq<u8>, n: int| #[trigger] reads_alike(rule, s, t, n) by {
        if rule(s) is Ok && agree(s, t, n) && s.len() - rule(s)->Ok_0.0.len() < n {
            lemma_date_fits(s);
            let (a, b, c, d, rest) = date_parts(s);
            let k1 = s.len() - a.len();
            let k2 = a.len() - b.len();
            let k3 = b.len() - c.len();
            let k4 = c.len() - d.len();
            let k5 = d.len() - rest.len();
            lemma_integer_local(s, t, n, 0xff);
            lemma_agree_tail(s, t, n, k1);
            lemma_space1_local(a, tail(t, k1), n - k1);
            lemma_tail_tail(t, k1, k2);
            lemma_agree_tail(s, t, n, k1 + k2);
            lemma_integer_local(b, tail(t, k1 + k2), n - k1 - k2, 0xff);
            lemma_tail_tail(t, k1 + k2, k3);
            lemma_agree_tail(s, t, n, k1 + k2 + k3);
            lemma_space1_local(c, tail(t, k1 + k2 + k3), n - k1 - k2 - k3);
            lemma_tail_tail(t, k1 + k2 + k3, k4);
            lemma_agree_tail(s, t, n, k1 + k2 + k3 + k4);
            lemma_integer_local(d, tail(t, k1 + k2 + k3 + k4), n - k1 - k2 - k3 - k4, 0xffff);
            lemma_tail_tail(t, k1 + k2 + k3 + k4, k5);
        }
    }
}

/// What is left behind each part of a date that is read from `s`.
pub open spec fn date_parts(s: Seq<u8>) -> (Seq<u8>, Seq<u8>, Seq<u8>, Seq<u8>, Seq<u8>) {
    let a = spec_integer(s, 0xff)->Ok_0.0;
    let b = spec_space1(a)->Ok_0.0;
    let c = spec_integer(b, 0xff)->Ok_0.0;
    let d = spec_space1(c)->Ok_0.0;
    let rest = spec_integer(d, 0xffff)->Ok_0.0;
    (a, b, c, d, rest)
}

/// A date leaves a tail of what it was given, and so does each of its parts.
pub proof fn lemma_date_fits(s: Seq<u8>)
    ensures
        spec_date(s) matches Ok((rest, v)) ==> {
            let (a, b, c, d, end) = date_parts(s);
            &&& end == rest
            &&& rest.len() <= d.len() <= c.len() <= b.len() <= a.len() <= s.len()
            &&& rest.len() < s.len()
            &&& a == tail(s, s.len() - a.len())
            &&& b == tail(s, s.len() - b.len())
            &&& c == tail(s, s.len() - c.len())
            &&& d == tail(s, s.len() - d.len())
            &&& reads(spec_date(s), s, s.len() - rest.len(), v)
        },
{
    if spec_date(s) is Ok {
        let (a, b, c, d, rest) = date_parts(s);
        lemma_integer_fits(s, 0xff);
        lemma_run(a, Class::Blank, 0);
        lemma_integer_fits(b, 0xff);
        lemma_run(c, Class::Blank, 0);
        lemma_integer_fits(d, 0xffff);
        lemma_tail_tail(s, s.len() - a.len(), a.len() - b.len());
        lemma_tail_tail(s, s.len() - b.len(), b.len() - c.len());
        lemma_tail_tail(s, s.len() - c.len(), c.len() - d.len());
        lemma_tail_tail(s, s.len() - d.len(), d.len() - rest.len());
    }
}

/// A fleet is read steadily.
pub proof fn lemma_fleet_steady()
    ensures
        steady(fleet_rule()),
{
    let rule = fleet_rule();
    lemma_string_steady();
    assert forall|s: Seq<u8>| #[trigger] leaves_tail(rule, s) by {
        lemma_fleet_fits(s);
    }
    assert forall|s: Seq<u8>, t: Seq<u8>, n: int| #[trigger] reads_alike(rule, s, t, n) by {
        if rule(s) is Ok && agree(s, t, n) && s.len() - rule(s)->Ok_0.0.len() < n {
            lemma_fleet_fits(s);
            let a = spec_string(s)->Ok_0.0;
            let b = spec_space1(a)->Ok_0.0;
            let rest = spec_u16(b)->Ok_0.0;
            let k1 = s.len() - a.len();
            let k2 = a.len() - b.len();
            let k3 = b.len() - rest.len();
            assert(reads_alike(string_rule(), s, t, n));
            lemma_agree_tail(s, t, n, k1);
            lemma_space1_local(a, tail(t, k1), n - k1);
            lemma_tail_tail(t, k1, k2);
            lemma_agree_tail(s, t, n, k1 + k2);
            lemma_integer_local(b, tail(t, k1 + k2), n - k1 - k2, 0xffff);
            lemma_tail_tail(t, k1 + k2, k3);
        }
    }
}

/// A fleet leaves a tail of what it was given, and so does each of its
/// parts.
pub proof fn lemma_fleet_fits(s: Seq<u8>)
    ensures
        spec_fleet(s) matches Ok((rest, v)) ==> {
            let a = spec_string(s)->Ok_0.0;
            let b = spec_space1(a)->Ok_0.0;
            &&& rest == spec_u16(b)->Ok_0.0
            &&& rest.len() <= b.len() <= a.len() <= s.len()
            &&& a == tail(s, s.len() - a.len())
            &&& b == tail(s, s.len() - b.len())
            &&& reads(spec_fleet(s), s, s.len() - rest.len(), v)
        },
{
    if spec_fleet(s) is Ok {
        lemma_string_steady();
        assert(leaves_tail(string_rule(), s));
        let a = spec_string(s)->Ok_0.0;
        lemma_run(a, Class::Blank, 0);
        let b = spec_space1(a)->Ok_0.0;
        lemma_integer_fits(b, 0xffff);
        let rest = spec_u16(b)->Ok_0.0;
        lemma_tail_tail(s, s.len() - a.len(), a.len() - b.len());
        lemma_tail_tail(s, s.len() - b.len(), b.len() - rest.len());
    }
}

/// The bytes of a keyword of ASCII characters: one for each character.
pub proof fn lemma_literal(keyword: &str)
    requires
        forall|i: int| 0 <= i < keyword@.len() ==> '\0' <= #[trigger] keyword@[i] <= '\u{7f}',
    ensures
        keyword.model().len() == keyword@.len(),
        forall|i: int|
            0 <= i < keyword@.len() ==> #[trigger] keyword.model()[i] == keyword@[i] as u8,
{
    assert(is_ascii_chars(keyword@));
    is_ascii_chars_encode_utf8(keyword@);
}

/// The bytes of a keyword of ASCII letters: one for each letter, none of
/// them a blank.
pub proof fn lemma_keyword(keyword: &str)
    requires
        forall|i: int|
            0 <= i < keyword@.len() ==> 'A' <= #[trigger] keyword@[i] <= 'Z' || 'a' <= keyword@[i]
                <= 'z',
    ensures
        keyword.model().len() == keyword@.len(),
        forall|i: int|
            0 <= i < keyword@.len() ==> #[trigger] keyword.model()[i] == keyword@[i] as u8,
        blank_free(keyword.model()),
{
    lemma_literal(keyword);
    assert forall|i: int| 0 <= i < keyword.model().len() implies !Class::Blank.has(
        #[trigger] keyword.model()[i],
    ) by {
        assert(keyword.model()[i] == keyword@[i] as u8);
    }
}

/// A text begins with one keyword. Where one keyword stands at a depth, no
/// keyword stands there that differs from it at a place that both have.
pub proof fn lemma_other_peek(s: Seq<u8>, depth: nat, here: Seq<u8>, other: Seq<u8>, at: int)
    requires
        at_field(s, depth, here),
        0 <= at < here.len(),
        at < other.len(),
        here[at] != other[at],
    ensures
        !at_field(s, depth, other),
{
    let a = spec_indents(s, depth)->Ok_0.0;
    if other.is_prefix_of(a) {
        assert(a.subrange(0, here.len() as int)[at] == a[at]);
        assert(a.subrange(0, other.len() as int)[at] == a[at]);
    }
}

/// What is left behind line endings is a tail of the text, and begins with
/// no line ending.
pub proof fn lemma_line_endings_fits(s: Seq<u8>)
    ensures
        spec_line_endings(s).len() <= s.len(),
        spec_line_endings(s) == tail(s, s.len() - spec_line_endings(s).len()),
        spec_line_endings(spec_line_endings(s)) == spec_line_endings(s),
        spec_line_ending(spec_line_endings(s)) is Err,
    decreases s.len(),
{
    match spec_line_ending(s) {
        Ok((rest, _)) => {
            lemma_line_endings_fits(rest);
            lemma_tail_tail(s, s.len() - rest.len(), rest.len() - spec_line_endings(rest).len());
        },
        Err(_) => {
            assert(tail(s, 0) =~= s);
        },
    }
}

/// Line endings are skipped alike in texts that agree as far as they go and
/// then go on with no line ending.
pub proof fn lemma_line_endings_local(s: Seq<u8>, t: Seq<u8>, n: int)
    requires
        agree(s, t, n),
        n == s.len() - spec_line_endings(s).len(),
        spec_line_ending(tail(t, n)) is Err,
    ensures
        spec_line_endings(t) == tail(t, n),
    decreases s.len(),
{
    lemma_line_endings_fits(s);
    match spec_line_ending(s) {
        Ok((rest, _)) => {
            let k = s.len() - rest.len();
            lemma_line_endings_fits(rest);
            lemma_line_ending_local(s, t, n);
            lemma_agree_tail(s, t, n, k);
            lemma_tail_tail(t, k, n - k);
            lemma_line_endings_local(rest, tail(t, k), n - k);
        },
        Err(_) => {
            assert(tail(t, 0) =~= t);
        },
    }
}

/// True when `rule`, where it reads bytes from `s`, ends on a byte that is
/// no line feed.
pub open spec fn ends_inside<T>(rule: Rule<T>, s: Seq<u8>) -> bool {
    match rule(s) {
        Ok((rest, _)) => rest.len() < s.len() ==> s[s.len() - rest.len() - 1] != 0x0a,
        Err(_) => true,
    }
}

/// True when what `rule` reads never ends with a line feed.
pub open spec fn closed<T>(rule: Rule<T>) -> bool {
    forall|s: Seq<u8>| #[trigger] ends_inside(rule, s)
}

/// A text never ends with a line feed.
pub proof fn lemma_string_closed()
    ensures
        closed(string_rule()),
{
    let rule = string_rule();
    assert forall|s: Seq<u8>| #[trigger] ends_inside(rule, s) by {
        lemma_quoted_fits(s, 0x22);
        lemma_quoted_fits(s, 0x60);
        lemma_run(s, Class::Word, 0);
        if s.len() >= 1 {
            lemma_find(s, 0x22, 1);
            lemma_find(s, 0x60, 1);
        }
    }
}

/// A resource path never ends with a line feed.
pub proof fn lemma_path_closed()
    ensures
        closed(path_rule()),
{
    let rule = path_rule();
    assert forall|s: Seq<u8>| #[trigger] ends_inside(rule, s) by {
        lemma_quoted_fits(s, 0x22);
        lemma_find(s, 0x0a, 0);
        if s.len() >= 1 {
            lemma_find(s, 0x22, 1);
        }
    }
}

/// A decimal number never ends with a line feed.
pub proof fn lemma_number_closed()
    ensures
        closed(number_rule()),
{
    let rule = number_rule();
    assert forall|s: Seq<u8>| #[trigger] ends_inside(rule, s) by {
        lemma_number_fits(s);
        let from = sign_end(s, 0);
        lemma_run(s, Class::Digit, from);
        let whole = run(s, Class::Digit, from);
        if whole < s.len() {
            lemma_run(s, Class::Digit, whole + 1);
        }
        if from < s.len() {
            lemma_run(s, Class::Digit, from + 1);
        }
        match mantissa_end(s, from) {
            Some(mantissa) => {
                if mantissa < s.len() {
                    let digits = sign_end(s, mantissa + 1);
                    lemma_run(s, Class::Digit, digits);
                }
            },
            None => {},
        }
    }
}

/// An integer of 32 bits never ends with a line feed.
pub proof fn lemma_u32_closed()
    ensures
        closed(u32_rule()),
{
    let rule = u32_rule();
    assert forall|s: Seq<u8>| #[trigger] ends_inside(rule, s) by {
        lemma_run(s, Class::Digit, 0);
    }
}

/// A flag is read steadily and never ends with a line feed.
pub proof fn lemma_flag_steady()
    ensures
        steady(flag_rule()),
        closed(flag_rule()),
{
    let rule = flag_rule();
    assert forall|s: Seq<u8>| #[trigger] leaves_tail(rule, s) by {
        lemma_integer_fits(s, 0xffff_ffff);
    }
    assert forall|s: Seq<u8>, t: Seq<u8>, n: int| #[trigger] reads_alike(rule, s, t, n) by {
        if rule(s) is Ok && agree(s, t, n) && s.len() - rule(s)->Ok_0.0.len() < n {
            lemma_integer_local(s, t, n, 0xffff_ffff);
        }
    }
    assert forall|s: Seq<u8>| #[trigger] ends_inside(rule, s) by {
        lemma_run(s, Class::Digit, 0);
    }
}

/// A field that stands at most once, on a line that ends with a line feed,
/// is read alike from texts that agree as far as the field goes and then go
/// on with no line ending.
pub proof fn lemma_item_local<T>(
    s: Seq<u8>,
    t: Seq<u8>,
    n: int,
    depth: nat,
    keyword: Seq<u8>,
    value: Rule<T>,
)
    requires
        steady(value),
        closed(value),
        keyword.len() >= 1,
        keyword.last() != 0x0a,
        agree(s, t, n),
        spec_item(s, depth, keyword, value) matches Ok((rest, _)) && s.len() - rest.len() == n,
        n >= 1,
        s[n - 1] == 0x0a,
        spec_line_ending(tail(t, n)) is Err,
    ensures
        spec_item(s, depth, keyword, value) matches Ok((rest, v)) && reads(
            spec_item(s, depth, keyword, value),
            s,
            n,
            v,
        ) && reads(spec_item(t, depth, keyword, value), t, n, v),
{
    lemma_indents_fits(s, depth);
    let a = spec_indents(s, depth)->Ok_0.0;
    let k1 = s.len() - a.len();
    let b = spec_tag(a, keyword, crate::errors::Context::Keyword)->Ok_0.0;
    let k2 = a.len() - b.len();
    lemma_run(b, Class::Blank, 0);
    let c = spec_space0(b);
    let k3 = b.len() - c.len();
    assert(leaves_tail(value, c));
    assert(ends_inside(value, c));
    let d = value(c)->Ok_0.0;
    let v = value(c)->Ok_0.1;
    let k4 = c.len() - d.len();
    lemma_line_endings_fits(d);
    let rest = spec_line_endings(d);
    let k5 = d.len() - rest.len();
    assert(n == k1 + k2 + k3 + k4 + k5);
    assert(agree(s, s, s.len() as int));
    lemma_indents_local(s, s, s.len() as int, depth);
    lemma_tail_tail(s, k1, k2);
    lemma_tail_tail(s, k1 + k2, k3);
    lemma_tail_tail(s, k1 + k2 + k3, k4);
    lemma_tail_tail(s, k1 + k2 + k3 + k4, k5);
    assert(k5 >= 1) by {
        if k5 == 0 {
            if k4 >= 1 {
                assert(c[k4 - 1] == s[n - 1]);
            } else if k3 >= 1 {
                assert(b[k3 - 1] == s[n - 1]);
            } else {
                assert(a[k2 - 1] == s[n - 1]);
                assert(keyword =~= a.subrange(0, k2));
                assert(a.subrange(0, k2)[k2 - 1] == a[k2 - 1]);
            }
        }
    }
    lemma_indents_local(s, t, n, depth);
    lemma_agree_tail(s, t, n, k1);
    lemma_tag_local(a, tail(t, k1), n - k1, keyword, crate::errors::Context::Keyword);
    lemma_tail_tail(t, k1, k2);
    lemma_agree_tail(s, t, n, k1 + k2);
    let tb = tail(t, k1 + k2);
    lemma_run_agree(b, tb, n - k1 - k2, Class::Blank, 0);
    lemma_tail_tail(t, k1 + k2, k3);
    lemma_agree_tail(s, t, n, k1 + k2 + k3);
    let tc = tail(t, k1 + k2 + k3);
    assert(reads_alike(value, c, tc, n - k1 - k2 - k3));
    assert(reads(value(tc), tc, k4, v));
    lemma_tail_tail(t, k1 + k2 + k3, k4);
    lemma_agree_tail(s, t, n, k1 + k2 + k3 + k4);
    let td = tail(t, k1 + k2 + k3 + k4);
    lemma_tail_tail(t, k1 + k2 + k3 + k4, k5);
    lemma_line_endings_local(d, td, k5);
}

/// A field that stands at most once begins with indentation, and what it
/// leaves unread begins with no line ending.
pub proof fn lemma_item_shape<T>(s: Seq<u8>, depth: nat, keyword: Seq<u8>, value: Rule<T>)
    requires
        depth >= 1,
        spec_item(s, depth, keyword, value) is Ok,
    ensures
        s.len() >= 1,
        s[0] == 0x09 || s[0] == 0x20,
        spec_line_ending(spec_item(s, depth, keyword, value)->Ok_0.0) is Err,
{
    let a = spec_indents(s, depth)->Ok_0.0;
    let b = spec_tag(a, keyword, crate::errors::Context::Keyword)->Ok_0.0;
    let d = value(spec_space0(b))->Ok_0.0;
    lemma_line_endings_fits(d);
}

} // verus!
