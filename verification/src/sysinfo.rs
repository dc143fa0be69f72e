//! Reading the machine facts logged at startup out of the Linux
//! `/proc/meminfo` and `/etc/os-release` texts.

use vstd::prelude::*;
use crate::text::has_prefix;

verus! {

/// Unicode `White_Space`, the set `char::is_whitespace` tests for.
pub open spec fn white_space(c: char) -> bool {
    let u = c as u32;
    ||| u == 0x20
    ||| (0x09 <= u && u <= 0x0d)
    ||| u == 0x85
    ||| u == 0xa0
    ||| u == 0x1680
    ||| (0x2000 <= u && u <= 0x200a)
    ||| u == 0x2028
    ||| u == 0x2029
    ||| u == 0x202f
    ||| u == 0x205f
    ||| u == 0x3000
}

/// Whether `c` is Unicode white space.
pub fn is_white_space(c: char) -> (b: bool)
    ensures
        b == white_space(c),
{
    let u = c as u32;
    u == 0x20 || (0x09 <= u && u <= 0x0d) || u == 0x85 || u == 0xa0 || u == 0x1680 || (0x2000 <= u
        && u <= 0x200a) || u == 0x2028 || u == 0x2029 || u == 0x202f || u == 0x205f || u == 0x3000
}

/// Index of the first `'\n'` at or after `i`, or the length if none.
pub open spec fn line_end(s: Seq<char>, i: int) -> int
    decreases s.len() - i,
{
    if i >= s.len() || s[i] == '\n' {
        i
    } else {
        line_end(s, i + 1)
    }
}

/// The first line of `s`, ending before index `e` (its `'\n'` or the end
/// of the text), without the `'\r'` of a `"\r\n"` ending.
pub open spec fn first_line(s: Seq<char>, e: int) -> Seq<char> {
    if e < s.len() && e > 0 && s[e - 1] == '\r' {
        s.take(e - 1)
    } else {
        s.take(e)
    }
}

/// First index at or after `i` that is not white space (or the length).
pub open spec fn skip_space(s: Seq<char>, i: int) -> int
    decreases s.len() - i,
{
    if i >= s.len() || !white_space(s[i]) {
        i
    } else {
        skip_space(s, i + 1)
    }
}

/// First index at or after `i` that is white space (or the length).
pub open spec fn skip_word(s: Seq<char>, i: int) -> int
    decreases s.len() - i,
{
    if i >= s.len() || white_space(s[i]) {
        i
    } else {
        skip_word(s, i + 1)
    }
}

/// The second white-space-separated word of `line`, if it has one.
pub open spec fn second_word(line: Seq<char>) -> Option<Seq<char>> {
    let a = skip_space(line, 0);
    let b = skip_word(line, a);
    let c = skip_space(line, b);
    let d = skip_word(line, c);
    if c < line.len() {
        Some(line.subrange(c, d))
    } else {
        None
    }
}

/// Whether every character of `s` is an ASCII digit.
pub open spec fn all_digits(s: Seq<char>) -> bool {
    forall|i: int| 0 <= i < s.len() ==> '0' <= #[trigger] s[i] && s[i] <= '9'
}

/// Value of a string of decimal digits.
pub open spec fn digits_value(s: Seq<char>) -> nat
    decreases s.len(),
{
    if s.len() == 0 {
        0
    } else {
        digits_value(s.drop_last()) * 10 + ((s.last() as u32) - ('0' as u32)) as nat
    }
}

/// The `u64` a word parses to as `str::parse::<u64>` reads it: an optional
/// `+`, then one or more ASCII digits whose value fits in 64 bits.
pub open spec fn parsed_u64(w: Seq<char>) -> Option<u64> {
    let digits = if w.len() > 0 && w[0] == '+' {
        w.skip(1)
    } else {
        w
    };
    if digits.len() > 0 && all_digits(digits) && digits_value(digits) <= u64::MAX {
        Some(digits_value(digits) as u64)
    } else {
        None
    }
}

/// The total memory in KiB reported by a `/proc/meminfo` text: the value
/// on the first line that starts with `MemTotal:` and whose second word
/// parses as a `u64`.
pub open spec fn meminfo_total(s: Seq<char>) -> Option<u64>
    decreases s.len(),
{
    if s.len() == 0 {
        None
    } else {
        let e = line_end(s, 0);
        let line = first_line(s, e);
        let here = if has_prefix(line, "MemTotal:"@) {
            match second_word(line) {
                Some(w) => parsed_u64(w),
                None => None,
            }
        } else {
            None
        };
        if here is Some {
            here
        } else if e >= s.len() {
            None
        } else {
            proof {
                lemma_line_end_bounds(s, 0);
            }
            meminfo_total(s.skip(e + 1))
        }
    }
}

/// Where the first line break at or after `i` lies.
pub proof fn lemma_line_end_bounds(s: Seq<char>, i: int)
    requires
        0 <= i <= s.len(),
    ensures
        i <= line_end(s, i) <= s.len(),
        line_end(s, i) < s.len() ==> s[line_end(s, i)] == '\n',
        forall|k: int| i <= k < line_end(s, i) ==> s[k] != '\n',
    decreases s.len() - i,
{
    if i < s.len() && s[i] != '\n' {
        lemma_line_end_bounds(s, i + 1);
    }
}

proof fn lemma_line_end_shift(s: Seq<char>, start: int, i: int)
    requires
        0 <= start <= i <= s.len(),
    ensures
        line_end(s.skip(start), i - start) == line_end(s, i) - start,
    decreases s.len() - i,
{
    if i < s.len() && s[i] != '\n' {
        lemma_line_end_shift(s, start, i + 1);
    }
}

fn find_line_end(s: &Vec<char>, i: usize) -> (e: usize)
    requires
        i <= s@.len(),
    ensures
        e == line_end(s@, i as int),
{
    let mut k = i;
    proof {
        lemma_line_end_bounds(s@, i as int);
    }
    while k < s.len() && s[k] != '\n'
        invariant
            i <= k <= s@.len(),
            line_end(s@, k as int) == line_end(s@, i as int),
        decreases s@.len() - k,
    {
        k = k + 1;
    }
    k
}



fn scan_space(s: &Vec<char>, i: usize, hi: usize) -> (j: usize)
    requires
        i <= hi <= s@.len(),
    ensures
        j == skip_space(s@.subrange(0, hi as int), i as int),
        i <= j <= hi,
{
    let ghost line = s@.subrange(0, hi as int);
    let mut k = i;
    while k < hi && is_white_space(s[k])
        invariant
            i <= k <= hi,
            hi <= s@.len(),
            line == s@.subrange(0, hi as int),
            skip_space(line, k as int) == skip_space(line, i as int),
        decreases hi - k,
    {
        assert(line[k as int] == s@[k as int]);
        k = k + 1;
    }
    proof {
        if k < hi {
            assert(line[k as int] == s@[k as int]);
        }
    }
    k
}

fn scan_word(s: &Vec<char>, i: usize, hi: usize) -> (j: usize)
    requires
        i <= hi <= s@.len(),
    ensures
        j == skip_word(s@.subrange(0, hi as int), i as int),
        i <= j <= hi,
{
    let ghost line = s@.subrange(0, hi as int);
    let mut k = i;
    while k < hi && !is_white_space(s[k])
        invariant
            i <= k <= hi,
            hi <= s@.len(),
            line == s@.subrange(0, hi as int),
            skip_word(line, k as int) == skip_word(line, i as int),
        decreases hi - k,
    {
        assert(line[k as int] == s@[k as int]);
        k = k + 1;
    }
    proof {
        if k < hi {
            assert(line[k as int] == s@[k as int]);
        }
    }
    k
}

proof fn lemma_digits_value_prefix(s: Seq<char>, k: int)
    requires
        0 <= k <= s.len(),
        all_digits(s),
    ensures
        digits_value(s.take(k)) <= digits_value(s),
    decreases s.len() - k,
{
    if k < s.len() {
        lemma_digits_value_prefix(s, k + 1);
        assert(s.take(k + 1).drop_last() =~= s.take(k));
    } else {
        assert(s.take(k) =~= s);
    }
}

/// Parses the characters `s[lo..hi]` as `str::parse::<u64>` does.
fn parse_u64_at(s: &Vec<char>, lo: usize, hi: usize) -> (v: Option<u64>)
    requires
        lo <= hi <= s@.len(),
    ensures
        v == parsed_u64(s@.subrange(lo as int, hi as int)),
{
    let ghost w = s@.subrange(lo as int, hi as int);
    let mut start = lo;
    if lo < hi && s[lo] == '+' {
        start = lo + 1;
    }
    let ghost digits = s@.subrange(start as int, hi as int);
    assert(digits =~= (if w.len() > 0 && w[0] == '+' { w.skip(1) } else { w }));
    assert(parsed_u64(w) == (if digits.len() > 0 && all_digits(digits) && digits_value(digits)
        <= u64::MAX {
        Some(digits_value(digits) as u64)
    } else {
        None
    }));
    if start == hi {
        return None;
    }
    let mut value: u64 = 0;
    let mut k = start;
    while k < hi
        invariant
            start <= k <= hi,
            hi <= s@.len(),
            digits == s@.subrange(start as int, hi as int),
            digits.len() > 0,
            parsed_u64(s@.subrange(lo as int, hi as int)) == (if all_digits(digits) && digits_value(
                digits,
            ) <= u64::MAX {
                Some(digits_value(digits) as u64)
            } else {
                None
            }),
            all_digits(digits.take(k - start)),
            value == digits_value(digits.take(k - start)),
        decreases hi - k,
    {
        let c = s[k];
        assert(digits[k - start] == c);
        if !('0' <= c && c <= '9') {
            assert(!('0' <= digits[k - start] && digits[k - start] <= '9'));
            assert(!all_digits(digits));
            return None;
        }
        let d = (c as u32 - '0' as u32) as u64;
        assert(digits.take(k - start + 1).drop_last() =~= digits.take(k - start));
        assert(digits.take(k - start + 1).last() == c);
        assert(digits_value(digits.take(k - start + 1)) == value * 10 + d);
        assert(all_digits(digits.take(k - start + 1)));
        match value.checked_mul(10) {
            Some(m) => match m.checked_add(d) {
                Some(n) => {
                    value = n;
                },
                None => {
                    proof {
                        lemma_rest_digits(digits, k - start + 1);
                    }
                    return None;
                },
            },
            None => {
                proof {
                    lemma_rest_digits(digits, k - start + 1);
                }
                return None;
            },
        }
        k = k + 1;
    }
    assert(digits.take(hi - start) =~= digits);
    Some(value)
}

proof fn lemma_rest_digits(digits: Seq<char>, k: int)
    requires
        0 < k <= digits.len(),
        all_digits(digits.take(k)),
        digits_value(digits.take(k)) > u64::MAX,
    ensures
        !(all_digits(digits) && digits_value(digits) <= u64::MAX),
{
    if all_digits(digits) {
        lemma_digits_value_prefix(digits, k);
    }
}


/// The first line of `s[start..]` and the index where it ends.
fn next_line(s: &Vec<char>, start: usize) -> (out: (Vec<char>, usize))
    requires
        start <= s@.len(),
    ensures
        out.1 == start + line_end(s@.skip(start as int), 0),
        start <= out.1 <= s@.len(),
        out.0@ == first_line(s@.skip(start as int), out.1 - start),
{
    let n = s.len();
    let e = find_line_end(s, start);
    let ghost rest = s@.skip(start as int);
    proof {
        lemma_line_end_bounds(s@, start as int);
        lemma_line_end_shift(s@, start as int, start as int);
    }
    let mut line_hi = e;
    if e < n && e > start && s[e - 1] == '\r' {
        line_hi = e - 1;
    }
    let ghost line = first_line(rest, e - start);
    assert(line =~= s@.subrange(start as int, line_hi as int));
    let mut line_chars: Vec<char> = Vec::new();
    let mut k = start;
    while k < line_hi
        invariant
            start <= k <= line_hi,
            line_hi <= n,
            n == s@.len(),
            line_chars@ == s@.subrange(start as int, k as int),
        decreases line_hi - k,
    {
        line_chars.push(s[k]);
        k = k + 1;
        assert(line_chars@ =~= s@.subrange(start as int, k as int));
    }
    assert(line_chars@ =~= line);
    (line_chars, e)
}

/// The total memory in KiB of a `/proc/meminfo` text (see [`meminfo_total`]).
pub fn meminfo_total_kib(content: &str) -> (kib: Option<u64>)
    ensures
        kib == meminfo_total(content@),
{
    let s = crate::text::chars_of(content);
    let prefix = crate::text::chars_of("MemTotal:");
    let n = s.len();
    let mut start: usize = 0;
    assert(s@.skip(0) =~= s@);
    while start < n
        invariant
            n == s@.len(),
            s@ == content@,
            prefix@ == "MemTotal:"@,
            start <= n,
            meminfo_total(content@) == meminfo_total(s@.skip(start as int)),
        decreases n - start,
    {
        let ghost rest = s@.skip(start as int);
        let (line_chars, e) = next_line(&s, start);
        let lhi = line_chars.len();
        assert(line_chars@.subrange(0, lhi as int) =~= line_chars@);
        if crate::text::starts_with(line_chars.as_slice(), prefix.as_slice()) {
            let a = scan_space(&line_chars, 0, lhi);
            let b = scan_word(&line_chars, a, lhi);
            let c = scan_space(&line_chars, b, lhi);
            let d = scan_word(&line_chars, c, lhi);
            if c < lhi {
                let v = parse_u64_at(&line_chars, c, d);
                if v.is_some() {
                    return v;
                }
            }
        }
        if e >= n {
            return None;
        }
        assert(rest.skip(e - start + 1) =~= s@.skip(e + 1));
        start = e + 1;
    }
    None
}

/// The total memory in bytes of a `/proc/meminfo` text: its `MemTotal:`
/// value (see [`meminfo_total`]) times 1024. The caller makes sure the
/// product fits in a `u64`.
pub fn meminfo_total_bytes(content: &str) -> (bytes: Option<u64>)
    requires
        meminfo_total(content@) matches Some(k) ==> k * 1024 <= u64::MAX,
    ensures
        bytes == (match meminfo_total(content@) {
            Some(k) => Some((k * 1024) as u64),
            None => None::<u64>,
        }),
{
    match meminfo_total_kib(content) {
        Some(kib) => Some(kib * 1024),
        None => None,
    }
}

/// `s` with every leading repetition of `p` removed (`trim_start_matches`).
pub open spec fn without_repeated_prefix(s: Seq<char>, p: Seq<char>) -> Seq<char>
    decreases s.len(),
{
    if p.len() > 0 && has_prefix(s, p) {
        without_repeated_prefix(s.skip(p.len() as int), p)
    } else {
        s
    }
}

/// `s` without its leading and trailing `'"'` characters (`trim_matches('"')`).
pub open spec fn without_quotes(s: Seq<char>) -> Seq<char> {
    let lo = skip_quotes(s, 0);
    let hi = back_quotes(s, s.len() as int);
    if lo < hi {
        s.subrange(lo, hi)
    } else {
        Seq::empty()
    }
}

/// First index at or after `i` that is not a `'"'` (or the length).
pub open spec fn skip_quotes(s: Seq<char>, i: int) -> int
    decreases s.len() - i,
{
    if i >= s.len() || s[i] != '"' {
        i
    } else {
        skip_quotes(s, i + 1)
    }
}

/// Smallest `j <= i` such that `s[j..i]` is all `'"'` characters.
pub open spec fn back_quotes(s: Seq<char>, i: int) -> int
    decreases i,
{
    if i <= 0 || s[i - 1] != '"' {
        i
    } else {
        back_quotes(s, i - 1)
    }
}

/// The distribution name in an `/etc/os-release` text: on the first line
/// that starts with `PRETTY_NAME=`, what follows the (repeated) key, with
/// surrounding quotes removed.
pub open spec fn pretty_name(s: Seq<char>) -> Option<Seq<char>>
    decreases s.len(),
{
    if s.len() == 0 {
        None
    } else {
        let e = line_end(s, 0);
        let line = first_line(s, e);
        if has_prefix(line, "PRETTY_NAME="@) {
            Some(without_quotes(without_repeated_prefix(line, "PRETTY_NAME="@)))
        } else if e >= s.len() {
            None
        } else {
            proof {
                lemma_line_end_bounds(s, 0);
            }
            pretty_name(s.skip(e + 1))
        }
    }
}

fn strip_key(line: &Vec<char>, key: &Vec<char>) -> (rest: Vec<char>)
    requires
        key@.len() > 0,
    ensures
        rest@ == without_repeated_prefix(line@, key@),
{
    let mut at: usize = 0;
    let n = line.len();
    assert(line@.skip(0) =~= line@);
    while crate::text::occurs_at(line.as_slice(), at, key.as_slice())
        invariant
            n == line@.len(),
            at <= line@.len(),
            key@.len() > 0,
            without_repeated_prefix(line@, key@) == without_repeated_prefix(line@.skip(at as int), key@),
        decreases line@.len() - at,
    {
        proof {
            let t = line@.skip(at as int);
            assert(t.take(key@.len() as int) =~= line@.subrange(at as int, at + key@.len()));
            assert(t.skip(key@.len() as int) =~= line@.skip(at + key@.len()));
        }
        at = at + key.len();
    }
    proof {
        let t = line@.skip(at as int);
        if key@.len() <= t.len() {
            assert(t.take(key@.len() as int) =~= line@.subrange(at as int, at + key@.len()));
        }
    }
    let mut rest: Vec<char> = Vec::new();
    let mut k = at;
    while k < line.len()
        invariant
            at <= k <= line@.len(),
            rest@ == line@.subrange(at as int, k as int),
        decreases line@.len() - k,
    {
        rest.push(line[k]);
        k = k + 1;
        assert(rest@ =~= line@.subrange(at as int, k as int));
    }
    assert(rest@ =~= line@.skip(at as int));
    rest
}

fn trim_quotes(s: &Vec<char>) -> (t: Vec<char>)
    ensures
        t@ == without_quotes(s@),
{
    let n = s.len();
    let mut lo: usize = 0;
    while lo < n && s[lo] == '"'
        invariant
            lo <= n,
            n == s@.len(),
            skip_quotes(s@, lo as int) == skip_quotes(s@, 0),
        decreases n - lo,
    {
        lo = lo + 1;
    }
    let mut hi: usize = n;
    while hi > 0 && s[hi - 1] == '"'
        invariant
            hi <= n,
            n == s@.len(),
            back_quotes(s@, hi as int) == back_quotes(s@, n as int),
        decreases hi,
    {
        hi = hi - 1;
    }
    let mut t: Vec<char> = Vec::new();
    if lo < hi {
        let mut k = lo;
        while k < hi
            invariant
                lo <= k <= hi,
                hi <= n,
                n == s@.len(),
                t@ == s@.subrange(lo as int, k as int),
            decreases hi - k,
        {
            t.push(s[k]);
            k = k + 1;
            assert(t@ =~= s@.subrange(lo as int, k as int));
        }
    }
    assert(t@ =~= without_quotes(s@));
    t
}

/// The distribution name of an `/etc/os-release` text (see [`pretty_name`]).
pub fn os_release_pretty_name(content: &str) -> (name: Option<String>)
    ensures
        name matches Some(n) ==> pretty_name(content@) == Some(n@),
        name is None ==> pretty_name(content@) is None,
{
    let s = crate::text::chars_of(content);
    let key = crate::text::chars_of("PRETTY_NAME=");
    let n = s.len();
    let mut start: usize = 0;
    assert(s@.skip(0) =~= s@);
    while start < n
        invariant
            n == s@.len(),
            s@ == content@,
            key@ == "PRETTY_NAME="@,
            start <= n,
            pretty_name(content@) == pretty_name(s@.skip(start as int)),
        decreases n - start,
    {
        let ghost rest = s@.skip(start as int);
        let (line_chars, e) = next_line(&s, start);
        if crate::text::starts_with(line_chars.as_slice(), key.as_slice()) {
            proof {
                reveal_strlit("PRETTY_NAME=");
            }
            let value = strip_key(&line_chars, &key);
            let trimmed = trim_quotes(&value);
            return Some(crate::text::string_from_chars(trimmed.as_slice()));
        }
        if e >= n {
            return None;
        }
        assert(rest.skip(e - start + 1) =~= s@.skip(e + 1));
        start = e + 1;
    }
    None
}

/// The line break search stops exactly at the first `'\n'` from `i`.
proof fn lemma_line_end_at(s: Seq<char>, i: int, k: int)
    requires
        0 <= i <= k <= s.len(),
        forall|j: int| i <= j < k ==> s[j] != '\n',
        k == s.len() || s[k] == '\n',
    ensures
        line_end(s, i) == k,
    decreases k - i,
{
    if i < k {
        lemma_line_end_at(s, i + 1, k);
    }
}

/// A `PRETTY_NAME="v"` line yields `v` itself, whole and unchanged, for any
/// value `v` without quotes or line breaks, whatever follows on later lines.
pub proof fn lemma_pretty_name_quoted_value(v: Seq<char>, rest: Seq<char>)
    requires
        forall|i: int| 0 <= i < v.len() ==> #[trigger] v[i] != '"' && v[i] != '\n',
        rest.len() == 0 || rest[0] == '\n',
    ensures
        pretty_name("PRETTY_NAME=\""@ + v + "\""@ + rest) == Some(v),
{
    reveal_strlit("PRETTY_NAME=\"");
    reveal_strlit("PRETTY_NAME=");
    reveal_strlit("\"");
    let key = "PRETTY_NAME="@;
    let line = "PRETTY_NAME=\""@ + v + "\""@;
    let s = line + rest;
    let e = line.len() as int;
    assert(key.len() == 12);
    assert forall|j: int| 0 <= j < e implies s[j] != '\n' by {
        if j >= 13 && j < 13 + v.len() {
            assert(s[j] == v[j - 13]);
        }
    }
    lemma_line_end_at(s, 0, e);
    assert(s.take(e) =~= line);
    assert(first_line(s, e) == line);
    assert(line.take(12) =~= key);
    assert(has_prefix(line, key));
    let quoted = "\""@ + v + "\""@;
    assert(line.skip(12) =~= quoted);
    assert(!has_prefix(quoted, key)) by {
        assert(quoted[0] == '"');
        assert(key[0] == 'P');
        if 12 <= quoted.len() {
            assert(quoted.take(12)[0] == quoted[0]);
        }
    }
    assert(without_repeated_prefix(quoted, key) == quoted);
    assert(without_repeated_prefix(line, key) == quoted);
    let n = quoted.len() as int;
    assert(n == v.len() + 2);
    if v.len() == 0 {
        assert(skip_quotes(quoted, 2) == 2);
        assert(skip_quotes(quoted, 1) == 2);
        assert(skip_quotes(quoted, 0) == 2);
        assert(back_quotes(quoted, 0) == 0);
        assert(back_quotes(quoted, 1) == 0);
        assert(back_quotes(quoted, 2) == 0);
        assert(without_quotes(quoted) =~= v);
    } else {
        assert(quoted[1] == v[0]);
        assert(skip_quotes(quoted, 1) == 1);
        assert(skip_quotes(quoted, 0) == 1);
        assert(quoted[n - 2] == v[v.len() - 1]);
        assert(back_quotes(quoted, n - 1) == n - 1);
        assert(back_quotes(quoted, n) == n - 1);
        assert(quoted.subrange(1, n - 1) =~= v);
    }
}

/// Lines that do not start with `PRETTY_NAME=` are passed over: the name
/// comes from the first line that does.
pub proof fn lemma_pretty_name_skips_other_lines(line: Seq<char>, rest: Seq<char>)
    requires
        forall|i: int| 0 <= i < line.len() ==> #[trigger] line[i] != '\n',
        !has_prefix(line, "PRETTY_NAME="@),
    ensures
        pretty_name(line + "\n"@ + rest) == pretty_name(rest),
{
    reveal_strlit("\n");
    let key = "PRETTY_NAME="@;
    let s = line + "\n"@ + rest;
    let e = line.len() as int;
    assert(s[e] == '\n');
    assert forall|j: int| 0 <= j < e implies s[j] != '\n' by {
        assert(s[j] == line[j]);
    }
    lemma_line_end_at(s, 0, e);
    assert(s.take(e) =~= line);
    if e > 0 && s[e - 1] == '\r' {
        let short = s.take(e - 1);
        if has_prefix(short, key) {
            assert(line.take(key.len() as int) =~= short.take(key.len() as int));
        }
    }
    assert(!has_prefix(first_line(s, e), key));
    assert(s.skip(e + 1) =~= rest);
}

} // verus!
