//! Byte-level text helpers for the assembler: splitting source text into
//! lines, whitespace tokenization, and the values of decimal and binary
//! numerals. Everything works on ASCII bytes.

use vstd::prelude::*;

verus! {

/// ASCII whitespace: space, tab, line feed, form feed, carriage return.
pub open spec fn is_ascii_ws(b: u8) -> bool {
    b == 32 || b == 9 || b == 10 || b == 12 || b == 13
}

/// Exec mirror of `is_ascii_ws`.
pub fn byte_is_ws(b: u8) -> (r: bool)
    ensures
        r == is_ascii_ws(b),
{
    b == 32 || b == 9 || b == 10 || b == 12 || b == 13
}

/// The prefix of `s` strictly before the first occurrence of `stop`
/// (all of `s` when `stop` does not occur).
pub open spec fn take_until(s: Seq<u8>, stop: u8) -> Seq<u8>
    decreases s.len(),
{
    if s.len() == 0 {
        Seq::<u8>::empty()
    } else if s[0] == stop {
        Seq::<u8>::empty()
    } else {
        seq![s[0]] + take_until(s.drop_first(), stop)
    }
}

/// What follows the first occurrence of `stop` (empty when `stop` does not
/// occur).
pub open spec fn drop_past(s: Seq<u8>, stop: u8) -> Seq<u8>
    decreases s.len(),
{
    if s.len() == 0 {
        Seq::<u8>::empty()
    } else if s[0] == stop {
        s.drop_first()
    } else {
        drop_past(s.drop_first(), stop)
    }
}

pub proof fn lemma_take_until_absent(s: Seq<u8>, stop: u8)
    requires
        forall|i: int| 0 <= i < s.len() ==> s[i] != stop,
    ensures
        take_until(s, stop) == s,
        drop_past(s, stop) == Seq::<u8>::empty(),
    decreases s.len(),
{
    if s.len() == 0 {
        assert(take_until(s, stop) =~= s);
    } else {
        assert(forall|i: int|
            0 <= i < s.drop_first().len() ==> s.drop_first()[i] != stop);
        lemma_take_until_absent(s.drop_first(), stop);
        assert(take_until(s, stop) =~= s);
    }
}

pub proof fn lemma_take_until_found(s: Seq<u8>, stop: u8, k: int)
    requires
        0 <= k < s.len(),
        s[k] == stop,
        forall|i: int| 0 <= i < k ==> s[i] != stop,
    ensures
        take_until(s, stop) == s.take(k),
        drop_past(s, stop) == s.skip(k + 1),
    decreases k,
{
    if k == 0 {
        assert(take_until(s, stop) =~= s.take(0));
        assert(drop_past(s, stop) =~= s.skip(1));
    } else {
        assert(s.drop_first()[k - 1] == stop);
        assert(forall|i: int|
            0 <= i < k - 1 ==> s.drop_first()[i] != stop);
        lemma_take_until_found(s.drop_first(), stop, k - 1);
        assert(take_until(s, stop) =~= s.take(k));
        assert(drop_past(s, stop) =~= s.skip(k + 1));
    }
}

proof fn lemma_drop_past_shorter(s: Seq<u8>, stop: u8)
    requires
        s.len() > 0,
    ensures
        drop_past(s, stop).len() < s.len(),
    decreases s.len(),
{
    if s[0] != stop {
        if s.drop_first().len() == 0 {
            assert(drop_past(s.drop_first(), stop).len() == 0);
        } else {
            lemma_drop_past_shorter(s.drop_first(), stop);
        }
    }
}

/// A line with a trailing carriage return loses it (so that sources with
/// either line-ending convention read the same).
pub open spec fn strip_cr(s: Seq<u8>) -> Seq<u8> {
    if s.len() > 0 && s.last() == 13 {
        s.drop_last()
    } else {
        s
    }
}

/// Source text split at line feeds, one entry per line, each without its
/// line ending; a final line feed closes the last line rather than opening
/// an empty one.
pub open spec fn spec_lines(s: Seq<u8>) -> Seq<Seq<u8>>
    decreases s.len()
        via spec_lines_decreases
{
    if s.len() == 0 {
        Seq::<Seq<u8>>::empty()
    } else {
        seq![strip_cr(take_until(s, 10))] + spec_lines(drop_past(s, 10))
    }
}

#[via_fn]
proof fn spec_lines_decreases(s: Seq<u8>) {
    if s.len() > 0 {
        lemma_drop_past_shorter(s, 10);
    }
}

/// The run of non-whitespace bytes at the front of `s`.
pub open spec fn take_run(s: Seq<u8>) -> Seq<u8>
    decreases s.len(),
{
    if s.len() == 0 || is_ascii_ws(s[0]) {
        Seq::<u8>::empty()
    } else {
        seq![s[0]] + take_run(s.drop_first())
    }
}

pub proof fn lemma_take_run_shorter(s: Seq<u8>)
    ensures
        take_run(s).len() <= s.len(),
    decreases s.len(),
{
    if s.len() > 0 && !is_ascii_ws(s[0]) {
        lemma_take_run_shorter(s.drop_first());
    }
}

/// `take_run` is exactly the prefix up to the first whitespace byte.
pub proof fn lemma_take_run_range(s: Seq<u8>, j: int)
    requires
        0 <= j <= s.len(),
        forall|i: int| 0 <= i < j ==> !is_ascii_ws(s[i]),
        j == s.len() || is_ascii_ws(s[j]),
    ensures
        take_run(s) == s.take(j),
    decreases j,
{
    if j == 0 {
        assert(take_run(s) =~= s.take(0));
    } else {
        assert(!is_ascii_ws(s[0]));
        assert(forall|i: int|
            0 <= i < j - 1 ==> !is_ascii_ws(s.drop_first()[i]));
        assert(j - 1 == s.drop_first().len() || is_ascii_ws(s.drop_first()[j - 1]));
        lemma_take_run_range(s.drop_first(), j - 1);
        assert(take_run(s) =~= s.take(j));
    }
}

/// The whitespace-separated words of `s`, in order, each nonempty.
pub open spec fn spec_tokens(s: Seq<u8>) -> Seq<Seq<u8>>
    decreases s.len()
        via spec_tokens_decreases
{
    if s.len() == 0 {
        Seq::<Seq<u8>>::empty()
    } else if is_ascii_ws(s[0]) {
        spec_tokens(s.drop_first())
    } else {
        seq![take_run(s)] + spec_tokens(s.skip(take_run(s).len() as int))
    }
}

#[via_fn]
proof fn spec_tokens_decreases(s: Seq<u8>) {
    if s.len() > 0 && !is_ascii_ws(s[0]) {
        lemma_take_run_shorter(s);
        assert(take_run(s).len() >= 1);
    }
}

/// Whether `b` is a digit of the given base, written `0` upward
/// (base 2 admits `0` and `1`; base 10 admits `0` through `9`).
pub open spec fn is_base_digit(b: u8, base: int) -> bool {
    48 <= b < 48 + base
}

pub open spec fn all_base_digits(s: Seq<u8>, base: int) -> bool {
    forall|i: int| 0 <= i < s.len() ==> is_base_digit(s[i], base)
}

/// The value of `s` read as a most-significant-first numeral in `base`.
pub open spec fn num_value(s: Seq<u8>, base: int) -> int
    decreases s.len(),
{
    if s.len() == 0 {
        0
    } else {
        num_value(s.drop_last(), base) * base + (s.last() - 48)
    }
}

pub proof fn lemma_num_value_nonneg(s: Seq<u8>, base: int)
    requires
        2 <= base,
        all_base_digits(s, base),
    ensures
        0 <= num_value(s, base),
    decreases s.len(),
{
    if s.len() > 0 {
        assert(all_base_digits(s.drop_last(), base));
        lemma_num_value_nonneg(s.drop_last(), base);
        let v = num_value(s.drop_last(), base);
        assert(v * base >= 0) by (nonlinear_arith)
            requires
                v >= 0,
                base >= 2,
        ;
    }
}

/// A numeral's value only grows as more digits are appended.
pub proof fn lemma_num_value_prefix_grows(s: Seq<u8>, base: int, i: int)
    requires
        2 <= base,
        all_base_digits(s, base),
        0 <= i <= s.len(),
    ensures
        num_value(s.take(i), base) <= num_value(s, base),
    decreases s.len() - i,
{
    if i == s.len() {
        assert(s.take(i) =~= s);
    } else {
        assert(s.take(i + 1).drop_last() =~= s.take(i));
        assert(all_base_digits(s.take(i), base));
        let v = num_value(s.take(i), base);
        lemma_num_value_nonneg(s.take(i), base);
        assert(v * base >= v) by (nonlinear_arith)
            requires
                v >= 0,
                base >= 2,
        ;
        assert(num_value(s.take(i + 1), base) >= v);
        lemma_num_value_prefix_grows(s, base, i + 1);
    }
}

/// The value of a digit string when it is all digits of `base` and fits in
/// a byte; `None` otherwise. The empty string counts as zero.
pub open spec fn spec_digits_value(s: Seq<u8>, base: int) -> Option<u8> {
    if all_base_digits(s, base) && num_value(s, base) <= 255 {
        Some(num_value(s, base) as u8)
    } else {
        None
    }
}

/// Reads the digits of `s` from `start` on as a numeral in `base`.
pub fn parse_base_digits(s: &[u8], start: usize, base: u8) -> (r: Option<u8>)
    requires
        start <= s@.len(),
        2 <= base <= 10,
    ensures
        r == spec_digits_value(s@.skip(start as int), base as int),
{
    let ghost t = s@.skip(start as int);
    let mut acc: u32 = 0;
    let mut i: usize = start;
    while i < s.len()
        invariant
            start <= i <= s@.len(),
            t == s@.skip(start as int),
            2 <= base <= 10,
            all_base_digits(t.take(i - start), base as int),
            acc == num_value(t.take(i - start), base as int),
            acc <= 255,
        decreases s@.len() - i,
    {
        let b = s[i];
        proof {
            assert(t[i - start] == b);
        }
        if !(48 <= b && b < 48 + base) {
            proof {
                assert(!is_base_digit(b, base as int));
                assert(!all_base_digits(t, base as int));
            }
            return None;
        }
        proof {
            assert(t.take(i - start + 1).drop_last() =~= t.take(i - start));
            assert(t.take(i - start + 1).last() == b);
        }
        proof {
            assert((acc as int) * (base as int) <= 2550) by (nonlinear_arith)
                requires
                    acc <= 255,
                    base <= 10,
            ;
        }
        let new_acc: u32 = acc * (base as u32) + ((b - 48) as u32);
        proof {
            assert(new_acc == num_value(t.take(i - start + 1), base as int));
        }
        if new_acc > 255 {
            proof {
                if all_base_digits(t, base as int) {
                    lemma_num_value_prefix_grows(t, base as int, i - start + 1);
                    assert(num_value(t, base as int) > 255);
                }
            }
            return None;
        }
        acc = new_acc;
        i += 1;
    }
    proof {
        assert(t.take(i - start) =~= t);
    }
    Some(acc as u8)
}

/// Copies `s[from..to]` into a fresh vector.
pub fn copy_range(s: &[u8], from: usize, to: usize) -> (r: Vec<u8>)
    requires
        from <= to <= s@.len(),
    ensures
        r@ == s@.subrange(from as int, to as int),
{
    let mut out: Vec<u8> = Vec::new();
    let mut i: usize = from;
    while i < to
        invariant
            from <= i <= to <= s@.len(),
            out@ == s@.subrange(from as int, i as int),
        decreases to - i,
    {
        out.push(s[i]);
        proof {
            assert(out@ =~= s@.subrange(from as int, i + 1));
        }
        i += 1;
    }
    out
}

/// `s` without its underscores (digit separators).
pub open spec fn strip_underscores(s: Seq<u8>) -> Seq<u8>
    decreases s.len(),
{
    if s.len() == 0 {
        Seq::<u8>::empty()
    } else if s.last() == 95 {
        strip_underscores(s.drop_last())
    } else {
        strip_underscores(s.drop_last()) + seq![s.last()]
    }
}

/// Exec mirror of `strip_underscores`.
pub fn remove_underscores(s: &[u8]) -> (r: Vec<u8>)
    ensures
        r@ == strip_underscores(s@),
{
    let mut out: Vec<u8> = Vec::new();
    let mut i: usize = 0;
    while i < s.len()
        invariant
            i <= s@.len(),
            out@ == strip_underscores(s@.take(i as int)),
        decreases s@.len() - i,
    {
        proof {
            assert(s@.take(i + 1).drop_last() =~= s@.take(i as int));
            assert(s@.take(i + 1).last() == s@[i as int]);
        }
        if s[i] != 95 {
            out.push(s[i]);
        }
        i += 1;
    }
    proof {
        assert(s@.take(i as int) =~= s@);
    }
    out
}

/// Splits source text into its lines, as `spec_lines` describes.
pub fn split_lines(source: &[u8]) -> (r: Vec<Vec<u8>>)
    ensures
        r.deep_view() == spec_lines(source@),
{
    let mut lines: Vec<Vec<u8>> = Vec::new();
    let mut start: usize = 0;
    let mut i: usize = 0;
    proof {
        assert(source@.skip(0) =~= source@);
        assert(lines.deep_view() + spec_lines(source@.skip(0)) =~~= spec_lines(source@));
    }
    while i < source.len()
        invariant
            start <= i <= source@.len(),
            forall|k: int| start <= k < i ==> source@[k] != 10,
            lines.deep_view() + spec_lines(source@.skip(start as int))
                == spec_lines(source@),
        decreases source@.len() - i,
    {
        if source[i] == 10 {
            let ghost rest = source@.skip(start as int);
            let mut line = copy_range(source, start, i);
            proof {
                assert(forall|k: int|
                    0 <= k < i - start ==> rest[k] != 10);
                assert(rest[i - start] == 10);
                lemma_take_until_found(rest, 10, i - start);
                assert(take_until(rest, 10) =~= source@.subrange(start as int, i as int));
                assert(drop_past(rest, 10) =~= source@.skip(i + 1));
            }
            if line.len() > 0 && line[line.len() - 1] == 13 {
                line.pop();
            }
            proof {
                assert(line@ == strip_cr(take_until(rest, 10)));
                assert(spec_lines(rest)
                    =~= seq![strip_cr(take_until(rest, 10))] + spec_lines(source@.skip(i + 1)));
            }
            let ghost pre = lines.deep_view();
            lines.push(line);
            proof {
                assert(lines.deep_view() =~~= pre.push(line@));
                assert(lines.deep_view() + spec_lines(source@.skip(i + 1))
                    =~~= spec_lines(source@));
            }
            start = i + 1;
        }
        i += 1;
    }
    if start < source.len() {
        let ghost rest = source@.skip(start as int);
        let mut line = copy_range(source, start, source.len());
        proof {
            assert(forall|k: int| 0 <= k < rest.len() ==> rest[k] != 10);
            lemma_take_until_absent(rest, 10);
            assert(line@ =~= rest);
            assert(spec_lines(rest) =~= seq![strip_cr(rest)] + spec_lines(Seq::<u8>::empty()));
        }
        if line.len() > 0 && line[line.len() - 1] == 13 {
            line.pop();
        }
        proof {
            assert(line@ == strip_cr(rest));
        }
        let ghost pre = lines.deep_view();
        lines.push(line);
        proof {
            assert(lines.deep_view() =~~= pre.push(line@));
            assert(spec_lines(Seq::<u8>::empty()) =~= Seq::<Seq<u8>>::empty());
            assert(lines.deep_view() =~~= spec_lines(source@));
        }
    } else {
        proof {
            assert(spec_lines(source@.skip(start as int)) =~= Seq::<Seq<u8>>::empty());
            assert(lines.deep_view() =~~= spec_lines(source@));
        }
    }
    lines
}

/// Splits a line into its whitespace-separated words, as `spec_tokens`
/// describes.
pub fn tokenize(line: &[u8]) -> (r: Vec<Vec<u8>>)
    ensures
        r.deep_view() == spec_tokens(line@),
{
    let mut toks: Vec<Vec<u8>> = Vec::new();
    let mut i: usize = 0;
    proof {
        assert(line@.skip(0) =~= line@);
        assert(toks.deep_view() + spec_tokens(line@.skip(0)) =~~= spec_tokens(line@));
    }
    while i < line.len()
        invariant
            i <= line@.len(),
            toks.deep_view() + spec_tokens(line@.skip(i as int)) == spec_tokens(line@),
        decreases line@.len() - i,
    {
        if byte_is_ws(line[i]) {
            proof {
                assert(line@.skip(i as int).drop_first() =~= line@.skip(i + 1));
            }
            i += 1;
        } else {
            let start = i;
            let mut j = i;
            while j < line.len() && !(line[j] == 32 || line[j] == 9 || line[j] == 10
                || line[j] == 12 || line[j] == 13)
                invariant
                    start <= j <= line@.len(),
                    forall|k: int| start <= k < j ==> !is_ascii_ws(line@[k]),
                decreases line@.len() - j,
            {
                j += 1;
            }
            let tok = copy_range(line, start, j);
            let ghost rest = line@.skip(start as int);
            proof {
                assert(forall|k: int|
                    0 <= k < j - start ==> !is_ascii_ws(rest[k]));
                assert(j == line@.len() || is_ascii_ws(rest[j - start]));
                lemma_take_run_range(rest, j - start);
                assert(take_run(rest) =~= line@.subrange(start as int, j as int));
                assert(rest.skip(take_run(rest).len() as int) =~= line@.skip(j as int));
                assert(spec_tokens(rest) =~= seq![tok@] + spec_tokens(line@.skip(j as int)));
            }
            let ghost pre = toks.deep_view();
            toks.push(tok);
            proof {
                assert(toks.deep_view() =~~= pre.push(tok@));
                assert(toks.deep_view() + spec_tokens(line@.skip(j as int))
                    =~~= spec_tokens(line@));
            }
            i = j;
        }
    }
    proof {
        assert(spec_tokens(line@.skip(i as int)) =~= Seq::<Seq<u8>>::empty());
        assert(toks.deep_view() =~~= spec_tokens(line@));
    }
    toks
}

} // verus!
