//! Verified text helpers: whitespace tokenizing, lowercasing behind a named
//! result, quote escaping for manager commands, and decimal rendering and
//! parsing of workspace numbers.
use vstd::prelude::*;
use vstd::string::StrSliceExecFns;
use vstd::string::StringExecFns;

verus! {

/// Relies on String::push: appends exactly the given character at the end.
#[verifier::external_body]
pub fn push_char(s: &mut String, c: char)
    ensures
        final(s)@ == old(s)@ + seq![c],
{
    s.push(c);
}

/// The Unicode lowercase form of a string: what std's case mapping
/// yields, a function of the characters alone.
pub uninterp spec fn lower_of(s: Seq<char>) -> Seq<char>;

/// Relies on str::to_lowercase: the Unicode lowercase mapping of the
/// characters, depending on them alone; an empty string stays empty.
#[verifier::external_body]
pub(crate) fn lowercase(s: &str) -> (r: String)
    ensures
        r@ == lower_of(s@),
        s@.len() == 0 ==> r@.len() == 0,
{
    s.to_lowercase()
}

/// The whitespace that separates tokens of a window class: the Unicode
/// white-space characters, as std's whitespace splitting and trimming
/// recognize them.
pub open spec fn is_space(c: char) -> bool {
    c == '\u{9}' || c == '\u{A}' || c == '\u{B}' || c == '\u{C}' || c == '\u{D}' || c == ' '
        || c == '\u{85}' || c == '\u{A0}' || c == '\u{1680}' || c == '\u{2000}'
        || c == '\u{2001}' || c == '\u{2002}' || c == '\u{2003}' || c == '\u{2004}'
        || c == '\u{2005}' || c == '\u{2006}' || c == '\u{2007}' || c == '\u{2008}'
        || c == '\u{2009}' || c == '\u{200A}' || c == '\u{2028}' || c == '\u{2029}'
        || c == '\u{202F}' || c == '\u{205F}' || c == '\u{3000}'
}

fn is_space_char(c: char) -> (r: bool)
    ensures
        r == is_space(c),
{
    match c {
        '\u{9}' | '\u{A}' | '\u{B}' | '\u{C}' | '\u{D}' | ' ' | '\u{85}' | '\u{A0}'
        | '\u{1680}' | '\u{2000}' | '\u{2001}' | '\u{2002}' | '\u{2003}' | '\u{2004}'
        | '\u{2005}' | '\u{2006}' | '\u{2007}' | '\u{2008}' | '\u{2009}' | '\u{200A}'
        | '\u{2028}' | '\u{2029}' | '\u{202F}' | '\u{205F}' | '\u{3000}' => true,
        _ => false,
    }
}

/// `s` without its trailing whitespace.
pub open spec fn trim_trailing(s: Seq<char>) -> Seq<char>
    decreases s.len(),
{
    if s.len() > 0 && is_space(s.last()) {
        trim_trailing(s.drop_last())
    } else {
        s
    }
}

/// The longest whitespace-free suffix of `s`.
pub open spec fn tail_token(s: Seq<char>) -> Seq<char>
    decreases s.len(),
{
    if s.len() == 0 || is_space(s.last()) {
        Seq::empty()
    } else {
        tail_token(s.drop_last()).push(s.last())
    }
}

/// The last whitespace-delimited token of `s`; `s` itself when `s` holds
/// no token at all.
pub open spec fn last_token(s: Seq<char>) -> Seq<char> {
    if trim_trailing(s).len() == 0 {
        s
    } else {
        tail_token(trim_trailing(s))
    }
}

/// The last whitespace-delimited token of `s`, as a slice of `s`.
pub fn last_token_str<'a>(s: &'a str) -> (r: &'a str)
    ensures
        r@ == last_token(s@),
{
    let n = s.unicode_len();
    let mut end: usize = n;
    proof {
        assert(s@.take(n as int) =~= s@);
    }
    while end > 0 && is_space_char(s.get_char(end - 1))
        invariant
            n == s@.len(),
            end <= n,
            trim_trailing(s@) == trim_trailing(s@.take(end as int)),
        decreases end,
    {
        proof {
            assert(s@.take(end as int).last() == s@[end - 1]);
            assert(s@.take(end as int).drop_last() =~= s@.take(end - 1));
        }
        end -= 1;
    }
    proof {
        if end > 0 {
            assert(s@.take(end as int).last() == s@[end - 1]);
        }
        assert(trim_trailing(s@) == s@.take(end as int));
    }
    if end == 0 {
        return s;
    }
    let mut start: usize = end;
    proof {
        assert(s@.subrange(end as int, end as int) =~= Seq::<char>::empty());
    }
    while start > 0 && !is_space_char(s.get_char(start - 1))
        invariant
            n == s@.len(),
            0 < end <= n,
            start <= end,
            trim_trailing(s@) == s@.take(end as int),
            tail_token(s@.take(end as int)) == tail_token(s@.take(start as int)) + s@.subrange(
                start as int,
                end as int,
            ),
        decreases start,
    {
        proof {
            assert(s@.take(start as int).last() == s@[start - 1]);
            assert(s@.take(start as int).drop_last() =~= s@.take(start - 1));
            assert(tail_token(s@.take(start - 1)).push(s@[start - 1]) + s@.subrange(
                start as int,
                end as int,
            ) =~= tail_token(s@.take(start - 1)) + s@.subrange(start - 1, end as int));
        }
        start -= 1;
    }
    proof {
        if start > 0 {
            assert(s@.take(start as int).last() == s@[start - 1]);
        }
        assert(tail_token(s@.take(start as int)) =~= Seq::<char>::empty());
        assert(tail_token(s@.take(end as int)) =~= s@.subrange(start as int, end as int));
    }
    s.substring_char(start, end)
}

/// `s` with every double-quote preceded by a backslash, so that it can stand
/// inside a quoted manager command.
pub open spec fn spec_escape(s: Seq<char>) -> Seq<char>
    decreases s.len(),
{
    if s.len() == 0 {
        Seq::empty()
    } else if s.last() == '"' {
        spec_escape(s.drop_last()) + seq!['\\', '"']
    } else {
        spec_escape(s.drop_last()).push(s.last())
    }
}

/// Escape every double-quote of `s` with a backslash.
pub fn escape_quotes(s: &str) -> (r: String)
    ensures
        r@ == spec_escape(s@),
{
    let n = s.unicode_len();
    let mut out = String::new();
    let mut i: usize = 0;
    proof {
        assert(out@ =~= spec_escape(s@.take(0)));
    }
    while i < n
        invariant
            n == s@.len(),
            i <= n,
            out@ == spec_escape(s@.take(i as int)),
        decreases n - i,
    {
        let c = s.get_char(i);
        proof {
            assert(s@.take(i + 1).drop_last() =~= s@.take(i as int));
            assert(s@.take(i + 1).last() == s@[i as int]);
        }
        if c == '"' {
            push_char(&mut out, '\\');
            push_char(&mut out, '"');
            proof {
                assert(out@ =~= spec_escape(s@.take(i + 1)));
            }
        } else {
            push_char(&mut out, c);
            proof {
                assert(out@ =~= spec_escape(s@.take(i + 1)));
            }
        }
        i += 1;
    }
    proof {
        assert(s@.take(n as int) =~= s@);
    }
    out
}

/// The decimal digit character for `d` in 0..9.
pub open spec fn digit_char(d: int) -> char {
    if d == 0 {
        '0'
    } else if d == 1 {
        '1'
    } else if d == 2 {
        '2'
    } else if d == 3 {
        '3'
    } else if d == 4 {
        '4'
    } else if d == 5 {
        '5'
    } else if d == 6 {
        '6'
    } else if d == 7 {
        '7'
    } else if d == 8 {
        '8'
    } else {
        '9'
    }
}

fn digit_to_char(d: u64) -> (c: char)
    requires
        d < 10,
    ensures
        c == digit_char(d as int),
{
    match d {
        0 => '0',
        1 => '1',
        2 => '2',
        3 => '3',
        4 => '4',
        5 => '5',
        6 => '6',
        7 => '7',
        8 => '8',
        _ => '9',
    }
}

/// The decimal digits of a non-negative number, most significant first.
pub open spec fn dec_digits(n: int) -> Seq<char>
    decreases n,
{
    if n < 10 {
        seq![digit_char(n)]
    } else {
        dec_digits(n / 10).push(digit_char(n % 10))
    }
}

/// The decimal rendering of an integer, with a leading minus sign when
/// negative.
pub open spec fn dec_int(n: int) -> Seq<char> {
    if n < 0 {
        seq!['-'] + dec_digits(-n)
    } else {
        dec_digits(n)
    }
}

/// Render `n` in decimal.
pub fn u64_to_string(n: u64) -> (r: String)
    ensures
        r@ == dec_digits(n as int),
    decreases n,
{
    if n < 10 {
        let mut s = String::new();
        push_char(&mut s, digit_to_char(n));
        proof {
            assert(s@ =~= dec_digits(n as int));
        }
        s
    } else {
        let mut s = u64_to_string(n / 10);
        push_char(&mut s, digit_to_char(n % 10));
        proof {
            assert(s@ =~= dec_digits(n as int));
        }
        s
    }
}

/// Render `n` in decimal, with a minus sign when negative.
pub fn i64_to_string(n: i64) -> (r: String)
    ensures
        r@ == dec_int(n as int),
{
    if n >= 0 {
        u64_to_string(n as u64)
    } else {
        let mag: u64 = ((-(n + 1)) as u64) + 1;
        proof {
            assert(mag == -(n as int));
        }
        let mut s = String::new();
        push_char(&mut s, '-');
        let d = u64_to_string(mag);
        let r = s.concat(d.as_str());
        proof {
            assert(r@ =~= dec_int(n as int));
        }
        r
    }
}

/// A decimal digit character.
pub open spec fn is_digit(c: char) -> bool {
    c == '0' || c == '1' || c == '2' || c == '3' || c == '4' || c == '5' || c == '6' || c == '7'
        || c == '8' || c == '9'
}

/// The value of a decimal digit character.
pub open spec fn digit_val(c: char) -> int {
    if c == '0' {
        0
    } else if c == '1' {
        1
    } else if c == '2' {
        2
    } else if c == '3' {
        3
    } else if c == '4' {
        4
    } else if c == '5' {
        5
    } else if c == '6' {
        6
    } else if c == '7' {
        7
    } else if c == '8' {
        8
    } else {
        9
    }
}

fn digit_value(c: char) -> (d: u64)
    requires
        is_digit(c),
    ensures
        d == digit_val(c),
        d < 10,
{
    match c {
        '0' => 0,
        '1' => 1,
        '2' => 2,
        '3' => 3,
        '4' => 4,
        '5' => 5,
        '6' => 6,
        '7' => 7,
        '8' => 8,
        _ => 9,
    }
}

fn is_digit_char(c: char) -> (r: bool)
    ensures
        r == is_digit(c),
{
    match c {
        '0' | '1' | '2' | '3' | '4' | '5' | '6' | '7' | '8' | '9' => true,
        _ => false,
    }
}

/// The leading run of decimal digit characters of `s`.
pub open spec fn leading_digits(s: Seq<char>) -> Seq<char>
    decreases s.len(),
{
    if s.len() > 0 && is_digit(s[0]) {
        seq![s[0]] + leading_digits(s.drop_first())
    } else {
        Seq::empty()
    }
}

/// The number a run of digit characters denotes.
pub open spec fn digits_val(ds: Seq<char>) -> int
    decreases ds.len(),
{
    if ds.len() == 0 {
        0
    } else {
        digits_val(ds.drop_last()) * 10 + digit_val(ds.last())
    }
}

/// The number the leading digit run of `s` denotes: absent when `s` starts
/// with no digit, and also when the run overflows the machine range, as a
/// failed parse of the legacy numbering convention.
pub open spec fn leading_number(s: Seq<char>) -> Option<int> {
    let ds = leading_digits(s);
    if ds.len() == 0 {
        None
    } else if digits_val(ds) > i64::MAX as int {
        None
    } else {
        Some(digits_val(ds))
    }
}

proof fn lemma_leading_digits_take(s: Seq<char>, k: int)
    requires
        0 <= k <= s.len(),
        forall|j: int| 0 <= j < k ==> is_digit(s[j]),
        k < s.len() ==> !is_digit(s[k]),
    ensures
        leading_digits(s) == s.take(k),
    decreases k,
{
    if k == 0 {
        assert(leading_digits(s) =~= s.take(0));
    } else {
        lemma_leading_digits_take(s.drop_first(), k - 1);
        assert(seq![s[0]] + s.drop_first().take(k - 1) =~= s.take(k));
    }
}

proof fn lemma_digits_val_nonneg(ds: Seq<char>)
    ensures
        digits_val(ds) >= 0,
    decreases ds.len(),
{
    if ds.len() > 0 {
        lemma_digits_val_nonneg(ds.drop_last());
        assert(digits_val(ds.drop_last()) * 10 >= 0) by (nonlinear_arith)
            requires
                digits_val(ds.drop_last()) >= 0,
        ;
    }
}

/// A prefix of a digit run never denotes more than the whole run.
proof fn lemma_digits_val_mono(ds: Seq<char>, m: int)
    requires
        0 <= m <= ds.len(),
    ensures
        digits_val(ds.take(m)) <= digits_val(ds),
    decreases ds.len(),
{
    if m < ds.len() {
        lemma_digits_val_mono(ds.drop_last(), m);
        assert(ds.drop_last().take(m) =~= ds.take(m));
        lemma_digits_val_nonneg(ds.drop_last());
        assert(digits_val(ds.drop_last()) * 10 >= digits_val(ds.drop_last())) by (nonlinear_arith)
            requires
                digits_val(ds.drop_last()) >= 0,
        ;
        assert(digit_val(ds.last()) >= 0);
    } else {
        assert(ds.take(m) =~= ds);
    }
}

/// Parse the leading run of decimal digits of `s`, as the legacy workspace
/// numbering convention does: the run's value, or nothing when `s` starts
/// with no digit or the run does not fit the machine range.
pub fn parse_leading_number(s: &str) -> (r: Option<i64>)
    ensures
        match r {
            Some(v) => leading_number(s@) == Some(v as int),
            None => leading_number(s@) is None,
        },
{
    let n = s.unicode_len();
    let mut k: usize = 0;
    while k < n && is_digit_char(s.get_char(k))
        invariant
            n == s@.len(),
            k <= n,
            forall|j: int| 0 <= j < k ==> is_digit(s@[j]),
        decreases n - k,
    {
        k += 1;
    }
    proof {
        lemma_leading_digits_take(s@, k as int);
    }
    if k == 0 {
        return None;
    }
    let ghost ds = leading_digits(s@);
    let mut acc: i64 = 0;
    let mut j: usize = 0;
    proof {
        assert(ds.take(0) =~= Seq::<char>::empty());
    }
    while j < k
        invariant
            n == s@.len(),
            0 < k <= n,
            j <= k,
            forall|l: int| 0 <= l < k ==> is_digit(s@[l]),
            ds == leading_digits(s@),
            ds == s@.take(k as int),
            acc == digits_val(ds.take(j as int)),
            acc >= 0,
        decreases k - j,
    {
        let c = s.get_char(j);
        let d = digit_value(c);
        proof {
            assert(ds.take(j + 1).drop_last() =~= ds.take(j as int));
            assert(ds.take(j + 1).last() == s@[j as int]);
        }
        if acc > (i64::MAX - (d as i64)) / 10 {
            proof {
                let over = digits_val(ds.take(j + 1));
                assert(over == acc * 10 + d);
                assert(acc * 10 + d > i64::MAX as int) by (nonlinear_arith)
                    requires
                        acc > (i64::MAX - (d as i64)) / 10,
                        0 <= d < 10,
                        acc >= 0,
                ;
                lemma_digits_val_mono(ds, j + 1);
            }
            return None;
        }
        acc = acc * 10 + (d as i64);
        j += 1;
    }
    proof {
        assert(ds.take(k as int) =~= ds);
    }
    Some(acc)
}

/// `s` without its leading whitespace.
pub open spec fn trim_leading(s: Seq<char>) -> Seq<char>
    decreases s.len(),
{
    if s.len() > 0 && is_space(s[0]) {
        trim_leading(s.drop_first())
    } else {
        s
    }
}

/// `s` with surrounding whitespace removed.
pub open spec fn spec_trimmed(s: Seq<char>) -> Seq<char> {
    trim_leading(trim_trailing(s))
}

/// Every character a decimal digit.
pub open spec fn all_digits(ds: Seq<char>) -> bool {
    forall|i: int| 0 <= i < ds.len() ==> is_digit(ds[i])
}

/// The positive process id a PID-file text holds: the text trimmed of
/// surrounding whitespace must be a plain run of decimal digits whose value
/// fits the machine range and is positive; anything else holds none.
pub open spec fn spec_parse_pid(s: Seq<char>) -> Option<i32> {
    let t = spec_trimmed(s);
    if t.len() > 0 && all_digits(t) && digits_val(t) <= i32::MAX as int && digits_val(t) > 0 {
        Some(digits_val(t) as i32)
    } else {
        None
    }
}

/// Parse the positive process id a PID file holds.
pub fn parse_pid(s: &str) -> (r: Option<i32>)
    ensures
        match r {
            Some(v) => spec_parse_pid(s@) == Some(v),
            None => spec_parse_pid(s@) is None,
        },
{
    let n = s.unicode_len();
    let mut end: usize = n;
    proof {
        assert(s@.take(n as int) =~= s@);
    }
    while end > 0 && is_space_char(s.get_char(end - 1))
        invariant
            n == s@.len(),
            end <= n,
            trim_trailing(s@) == trim_trailing(s@.take(end as int)),
        decreases end,
    {
        proof {
            assert(s@.take(end as int).last() == s@[end - 1]);
            assert(s@.take(end as int).drop_last() =~= s@.take(end - 1));
        }
        end -= 1;
    }
    proof {
        if end > 0 {
            assert(s@.take(end as int).last() == s@[end - 1]);
        }
        assert(trim_trailing(s@) == s@.take(end as int));
    }
    let mut start: usize = 0;
    proof {
        assert(s@.take(end as int).skip(0) =~= s@.take(end as int));
    }
    while start < end && is_space_char(s.get_char(start))
        invariant
            n == s@.len(),
            end <= n,
            start <= end,
            trim_trailing(s@) == s@.take(end as int),
            trim_leading(s@.take(end as int)) == trim_leading(
                s@.take(end as int).skip(start as int),
            ),
        decreases end - start,
    {
        proof {
            assert(s@.take(end as int).skip(start as int)[0] == s@[start as int]);
            assert(s@.take(end as int).skip(start as int).drop_first() =~= s@.take(
                end as int,
            ).skip(start + 1));
        }
        start += 1;
    }
    let ghost t = spec_trimmed(s@);
    proof {
        if start < end {
            assert(s@.take(end as int).skip(start as int)[0] == s@[start as int]);
        }
        assert(trim_leading(s@.take(end as int).skip(start as int)) == s@.take(end as int).skip(
            start as int,
        ));
        assert(t =~= s@.subrange(start as int, end as int));
    }
    if start == end {
        return None;
    }
    let mut acc: i32 = 0;
    let mut j: usize = start;
    proof {
        assert(t.take(0) =~= Seq::<char>::empty());
    }
    while j < end
        invariant
            n == s@.len(),
            start < end <= n,
            start <= j <= end,
            t == spec_trimmed(s@),
            t == s@.subrange(start as int, end as int),
            forall|l: int| 0 <= l < j - start ==> is_digit(t[l]),
            acc == digits_val(t.take(j - start)),
            acc >= 0,
        decreases end - j,
    {
        let c = s.get_char(j);
        proof {
            assert(t[j - start] == s@[j as int]);
        }
        if !is_digit_char(c) {
            return None;
        }
        let d = digit_value(c);
        proof {
            assert(t.take(j - start + 1).drop_last() =~= t.take(j - start));
            assert(t.take(j - start + 1).last() == t[j - start]);
        }
        if acc > (i32::MAX - (d as i32)) / 10 {
            proof {
                let over = digits_val(t.take(j - start + 1));
                assert(over == acc * 10 + d);
                assert(acc * 10 + d > i32::MAX as int) by (nonlinear_arith)
                    requires
                        acc > (i32::MAX - (d as i32)) / 10,
                        0 <= d < 10,
                        acc >= 0,
                ;
                lemma_digits_val_mono(t, j - start + 1);
            }
            return None;
        }
        acc = acc * 10 + (d as i32);
        j += 1;
    }
    proof {
        assert(t.take((end - start) as int) =~= t);
    }
    if acc > 0 {
        Some(acc)
    } else {
        None
    }
}

} // verus!

