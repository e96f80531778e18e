//! Comma-separated size lists given on the benchmark's command line.
use vstd::prelude::*;
use vstd::string::StrSliceExecFns;

use crate::ssh_command::{spec_trim, trim};

verus! {

/// Why a list entry is not a `usize`.
#[derive(Clone, Copy, Debug, PartialEq, Eq, Structural)]
pub enum ListError {
    /// The entry is empty.
    Empty,
    /// The entry holds a character that is not a decimal digit, or only `+`.
    InvalidDigit,
    /// The entry is larger than `usize::MAX`.
    Overflow,
}

impl ListError {
    /// The error as a sentence, as the standard integer parser words it.
    pub fn message(&self) -> (text: &'static str)
        ensures
            text@ == spec_message(*self),
    {
        match self {
            ListError::Empty => "cannot parse integer from empty string",
            ListError::InvalidDigit => "invalid digit found in string",
            ListError::Overflow => "number too large to fit in target type",
        }
    }
}

/// The sentence that describes `error`.
pub open spec fn spec_message(error: ListError) -> Seq<char> {
    match error {
        ListError::Empty => "cannot parse integer from empty string"@,
        ListError::InvalidDigit => "invalid digit found in string"@,
        ListError::Overflow => "number too large to fit in target type"@,
    }
}

/// `c` is one of `0` to `9`.
pub open spec fn is_digit(c: char) -> bool {
    '0' <= c <= '9'
}

/// The value of the digit `c`.
pub open spec fn digit_value(c: char) -> nat {
    (c as int - '0' as int) as nat
}

/// Reading the characters `d` left to right after the value `acc`: the first
/// character that is no digit is an invalid digit, and the first digit that
/// takes the value beyond `usize::MAX` an overflow.
pub open spec fn scan_digits(d: Seq<char>, acc: nat) -> Result<nat, ListError>
    decreases d.len(),
{
    if d.len() == 0 {
        Ok(acc)
    } else if !is_digit(d[0]) {
        Err(ListError::InvalidDigit)
    } else if acc * 10 + digit_value(d[0]) > usize::MAX {
        Err(ListError::Overflow)
    } else {
        scan_digits(d.drop_first(), acc * 10 + digit_value(d[0]))
    }
}

/// The `usize` that `t` spells: an optional `+`, then at least one decimal
/// digit.
pub open spec fn spec_parse_usize(t: Seq<char>) -> Result<nat, ListError> {
    if t.len() == 0 {
        Err(ListError::Empty)
    } else if t[0] == '+' && t.len() == 1 {
        Err(ListError::InvalidDigit)
    } else if t[0] == '+' {
        scan_digits(t.drop_first(), 0)
    } else {
        scan_digits(t, 0)
    }
}

/// The comma-separated fields of `s`; there is always at least one.
pub open spec fn fields(s: Seq<char>) -> Seq<Seq<char>>
    decreases s.len(),
{
    if s.len() == 0 {
        seq![Seq::empty()]
    } else {
        let f = fields(s.drop_last());
        if s.last() == ',' {
            f.push(Seq::empty())
        } else {
            f.update(f.len() - 1, f.last().push(s.last()))
        }
    }
}

/// The values of the fields `fs`, each trimmed of whitespace, or the error of
/// the first field that is no `usize`.
pub open spec fn parse_fields(fs: Seq<Seq<char>>) -> Result<Seq<usize>, ListError>
    decreases fs.len(),
{
    if fs.len() == 0 {
        Ok(Seq::empty())
    } else {
        match parse_fields(fs.drop_last()) {
            Err(e) => Err(e),
            Ok(values) => match spec_parse_usize(spec_trim(fs.last())) {
                Err(e) => Err(e),
                Ok(v) => Ok(values.push(v as usize)),
            },
        }
    }
}

/// The list that the text `s` gives.
pub open spec fn spec_parse_list(s: Seq<char>) -> Result<Seq<usize>, ListError> {
    parse_fields(fields(s))
}

proof fn lemma_fields_len(s: Seq<char>)
    ensures
        fields(s).len() >= 1,
    decreases s.len(),
{
    if s.len() > 0 {
        lemma_fields_len(s.drop_last());
    }
}

/// The value of the decimal digits of `t` from the character `from` on.
fn scan_decimal(t: &str, from: usize) -> (value: Result<usize, ListError>)
    requires
        from <= t@.len(),
    ensures
        value matches Ok(v) ==> scan_digits(t@.skip(from as int), 0) == Ok::<nat, ListError>(v as nat),
        value matches Err(e) ==> scan_digits(t@.skip(from as int), 0) == Err::<nat, ListError>(e),
{
    let n = t.unicode_len();
    let mut i: usize = from;
    let mut acc: usize = 0;
    while i < n
        invariant
            n == t@.len(),
            from <= i <= n,
            scan_digits(t@.skip(from as int), 0) == scan_digits(t@.skip(i as int), acc as nat),
        decreases n - i,
    {
        let c = t.get_char(i);
        assert(t@.skip(i as int)[0] == c);
        assert(t@.skip(i as int).drop_first() =~= t@.skip(i + 1));
        if !('0' <= c && c <= '9') {
            return Err(ListError::InvalidDigit);
        }
        let d = (c as u32 - '0' as u32) as usize;
        match acc.checked_mul(10) {
            None => {
                return Err(ListError::Overflow);
            },
            Some(scaled) => match scaled.checked_add(d) {
                None => {
                    return Err(ListError::Overflow);
                },
                Some(next) => {
                    acc = next;
                },
            },
        }
        i = i + 1;
    }
    assert(t@.skip(n as int).len() == 0);
    Ok(acc)
}

/// Parse one trimmed list entry.
fn parse_usize(t: &str) -> (value: Result<usize, ListError>)
    ensures
        value matches Ok(v) ==> spec_parse_usize(t@) == Ok::<nat, ListError>(v as nat),
        value matches Err(e) ==> spec_parse_usize(t@) == Err::<nat, ListError>(e),
{
    let n = t.unicode_len();
    if n == 0 {
        return Err(ListError::Empty);
    }
    assert(t@.skip(0) =~= t@);
    if t.get_char(0) == '+' {
        if n == 1 {
            return Err(ListError::InvalidDigit);
        }
        assert(t@.skip(1) =~= t@.drop_first());
        scan_decimal(t, 1)
    } else {
        scan_decimal(t, 0)
    }
}

proof fn lemma_fields_step(s: Seq<char>, i: int)
    requires
        0 <= i < s.len(),
    ensures
        s.take(i + 1).drop_last() == s.take(i),
        s.take(i + 1).last() == s[i],
        s.take(i + 1).len() > 0,
{
    assert(s.take(i + 1).drop_last() =~= s.take(i));
}

proof fn lemma_fields_prefix(s: Seq<char>, k: int, j: int)
    requires
        0 <= k <= j <= s.len(),
    ensures
        fields(s.take(j)).len() >= fields(s.take(k)).len(),
        fields(s.take(j)).take(fields(s.take(k)).len() - 1) == fields(s.take(k)).take(
            fields(s.take(k)).len() - 1,
        ),
    decreases j - k,
{
    lemma_fields_len(s.take(k));
    if j > k {
        lemma_fields_prefix(s, k, j - 1);
        lemma_fields_step(s, j - 1);
        lemma_fields_len(s.take(j - 1));
        let m = fields(s.take(k)).len() - 1;
        assert(fields(s.take(j)).take(m) =~= fields(s.take(j - 1)).take(m));
    }
}

proof fn lemma_parse_prefix(fs: Seq<Seq<char>>, m: int, e: ListError)
    requires
        0 <= m <= fs.len(),
        parse_fields(fs.take(m)) == Err::<Seq<usize>, ListError>(e),
    ensures
        parse_fields(fs) == Err::<Seq<usize>, ListError>(e),
    decreases fs.len(),
{
    if fs.len() == m {
        assert(fs.take(m) =~= fs);
    } else {
        assert(fs.drop_last().take(m) =~= fs.take(m));
        lemma_parse_prefix(fs.drop_last(), m, e);
    }
}

/// Once a field of a prefix of `s` is no `usize`, the whole list fails there.
proof fn lemma_prefix_error(s: Seq<char>, k: int, failed: Seq<Seq<char>>, e: ListError)
    requires
        0 <= k <= s.len(),
        fields(s.take(k)) == failed.push(Seq::<char>::empty()),
        parse_fields(failed) == Err::<Seq<usize>, ListError>(e),
    ensures
        parse_fields(fields(s)) == Err::<Seq<usize>, ListError>(e),
{
    lemma_fields_prefix(s, k, s.len() as int);
    assert(s.take(s.len() as int) =~= s);
    assert(fields(s.take(k)).take(failed.len() as int) =~= failed);
    lemma_parse_prefix(fields(s), failed.len() as int, e);
}

/// Parse a comma-separated list of sizes such as `64, 512,1472`: every
/// entry, trimmed of whitespace, must be a decimal `usize` with an optional
/// leading `+`.
pub fn parse_list(value: &str) -> (result: Result<Vec<usize>, ListError>)
    ensures
        result matches Ok(list) ==> spec_parse_list(value@) == Ok::<Seq<usize>, ListError>(list@),
        result matches Err(e) ==> spec_parse_list(value@) == Err::<Seq<usize>, ListError>(e),
{
    let n = value.unicode_len();
    let mut values: Vec<usize> = Vec::new();
    let mut start: usize = 0;
    let mut i: usize = 0;
    let ghost mut done: Seq<Seq<char>> = Seq::empty();
    assert(value@.take(0) =~= Seq::<char>::empty());
    assert(value@.subrange(0, 0) =~= Seq::<char>::empty());
    while i < n
        invariant
            n == value@.len(),
            start <= i <= n,
            fields(value@.take(i as int)) == done.push(value@.subrange(start as int, i as int)),
            parse_fields(done) == Ok::<Seq<usize>, ListError>(values@),
        decreases n - i,
    {
        let c = value.get_char(i);
        proof {
            lemma_fields_step(value@, i as int);
        }
        if c == ',' {
            let field = value.substring_char(start, i);
            let entry = trim(field);
            match parse_usize(entry) {
                Err(e) => {
                    proof {
                        let next = done.push(value@.subrange(start as int, i as int));
                        assert(next.drop_last() =~= done);
                        assert(parse_fields(next) == Err::<Seq<usize>, ListError>(e));
                        lemma_prefix_error(value@, i as int + 1, next, e);
                    }
                    return Err(e);
                },
                Ok(v) => {
                    proof {
                        let next = done.push(value@.subrange(start as int, i as int));
                        assert(next.drop_last() =~= done);
                        done = next;
                    }
                    values.push(v);
                },
            }
            start = i + 1;
            assert(value@.subrange(start as int, start as int) =~= Seq::<char>::empty());
        } else {
            proof {
                let f = done.push(value@.subrange(start as int, i as int));
                assert(value@.subrange(start as int, i + 1) =~= value@.subrange(
                    start as int,
                    i as int,
                ).push(c));
                assert(f.update(f.len() - 1, f.last().push(c)) =~= done.push(
                    value@.subrange(start as int, i + 1),
                ));
            }
        }
        i = i + 1;
    }
    assert(value@.take(n as int) =~= value@);
    let field = value.substring_char(start, n);
    let entry = trim(field);
    proof {
        let all = done.push(value@.subrange(start as int, n as int));
        assert(all.drop_last() =~= done);
    }
    match parse_usize(entry) {
        Err(e) => Err(e),
        Ok(v) => {
            values.push(v);
            Ok(values)
        },
    }
}

} // verus!
