//! Text handled by the launcher: decimal numbers as written in URLs and in
//! `/proc` files, and the `key: value` lines of `/proc/<pid>/status` and
//! `/proc/<pid>/io`.

use vstd::prelude::*;
use vstd::std_specs::iter::IteratorSpec;

verus! {

broadcast use vstd::string::group_string_axioms;

/// The characters of `s`, in order.
pub fn chars_of(s: &str) -> (chars: Vec<char>)
    ensures
        chars@ == s@,
{
    let mut chars: Vec<char> = Vec::new();
    let mut it = s.chars();
    loop
        invariant
            chars@ + it.remaining() == s@,
            it.obeys_prophetic_iter_laws(),
        decreases s@.len() - chars@.len(),
    {
        let ghost before = it.remaining();
        match it.next() {
            Some(c) => {
                chars.push(c);
                assert(chars@ + it.remaining() =~= s@) by {
                    assert(before == seq![c] + before.drop_first());
                }
            },
            None => {
                assert(chars@ =~= s@);
                return chars;
            },
        }
    }
}

/// The character of the decimal digit `d` (`d < 10`).
pub open spec fn digit_char(d: nat) -> char {
    (d + 48) as char
}

/// `c` is an ASCII decimal digit.
pub open spec fn is_digit(c: char) -> bool {
    '0' <= c <= '9'
}

/// The value of the decimal digit `c`.
pub open spec fn digit_value(c: char) -> nat {
    (c as int - 48) as nat
}

/// The decimal representation of `n`: no sign, no leading zeros, `"0"` for zero.
pub open spec fn decimal(n: nat) -> Seq<char>
    decreases n,
{
    if n < 10 {
        seq![digit_char(n)]
    } else {
        decimal(n / 10).push(digit_char(n % 10))
    }
}

fn digit_str(d: u32) -> (s: &'static str)
    requires
        d < 10,
    ensures
        s@ == seq![digit_char(d as nat)],
{
    match d {
        0 => {
            proof {
                reveal_strlit("0");
            }
            "0"
        },
        1 => {
            proof {
                reveal_strlit("1");
            }
            "1"
        },
        2 => {
            proof {
                reveal_strlit("2");
            }
            "2"
        },
        3 => {
            proof {
                reveal_strlit("3");
            }
            "3"
        },
        4 => {
            proof {
                reveal_strlit("4");
            }
            "4"
        },
        5 => {
            proof {
                reveal_strlit("5");
            }
            "5"
        },
        6 => {
            proof {
                reveal_strlit("6");
            }
            "6"
        },
        7 => {
            proof {
                reveal_strlit("7");
            }
            "7"
        },
        8 => {
            proof {
                reveal_strlit("8");
            }
            "8"
        },
        _ => {
            proof {
                reveal_strlit("9");
            }
            "9"
        },
    }
}

/// Appends the decimal representation of `n` to `out`.
pub fn push_decimal(out: &mut String, n: u32)
    ensures
        final(out)@ == old(out)@ + decimal(n as nat),
    decreases n,
{
    if n >= 10 {
        push_decimal(out, n / 10);
    }
    out.append(digit_str(n % 10));
    assert(out@ =~= old(out)@ + decimal(n as nat));
}

/// The value of a string of decimal digits (zero for the empty string).
pub open spec fn digits_value(s: Seq<char>) -> nat
    decreases s.len(),
{
    if s.len() == 0 {
        0
    } else {
        digits_value(s.drop_last()) * 10 + digit_value(s.last())
    }
}

/// Every character of `s` is a decimal digit.
pub open spec fn all_digits(s: Seq<char>) -> bool {
    forall|i: int| 0 <= i < s.len() ==> is_digit(#[trigger] s[i])
}

/// `s` without one leading `+`, if it has one.
pub open spec fn unsigned_body(s: Seq<char>) -> Seq<char> {
    if s.len() > 0 && s[0] == '+' {
        s.drop_first()
    } else {
        s
    }
}

/// What parsing `s` as an unsigned integer no larger than `max` gives, as the
/// standard library's `from_str` for unsigned integers does: an optional `+`,
/// then one or more decimal digits whose value fits; anything else (empty text,
/// a lone sign, a `-`, any other character, an overflow) is rejected.
pub open spec fn parse_unsigned(s: Seq<char>, max: nat) -> Option<nat> {
    let body = unsigned_body(s);
    if body.len() > 0 && all_digits(body) && digits_value(body) <= max {
        Some(digits_value(body))
    } else {
        None
    }
}

proof fn lemma_digits_prefix_le(s: Seq<char>, k: int)
    requires
        0 <= k <= s.len(),
    ensures
        digits_value(s.take(k)) <= digits_value(s),
    decreases s.len(),
{
    if k < s.len() {
        assert(s.drop_last().take(k) =~= s.take(k));
        lemma_digits_prefix_le(s.drop_last(), k);
    } else {
        assert(s.take(k) =~= s);
    }
}

proof fn lemma_digits_step(s: Seq<char>, start: int, i: int)
    requires
        0 <= start <= i < s.len(),
    ensures
        digits_value(s.subrange(start, i + 1)) == digits_value(s.subrange(start, i)) * 10
            + digit_value(s[i]),
{
    assert(s.subrange(start, i + 1).drop_last() =~= s.subrange(start, i));
}

proof fn lemma_fits_iff(acc: int, d: int, max: int)
    requires
        0 <= acc,
        0 <= d <= 9,
        9 <= max,
    ensures
        (acc * 10 + d <= max) <==> (acc <= (max - d) / 10),
{
    vstd::arithmetic::div_mod::lemma_fundamental_div_mod(max - d, 10);
    vstd::arithmetic::div_mod::lemma_mod_bound(max - d, 10);
    let q = (max - d) / 10;
    let r = (max - d) % 10;
    assert((acc * 10 + d <= max) <==> (acc <= q)) by (nonlinear_arith)
        requires
            max - d == 10 * q + r,
            0 <= r < 10,
    ;
}

/// Parses `chars` as an unsigned integer no larger than `max`.
fn parse_unsigned_chars(chars: &Vec<char>, max: u64) -> (value: Option<u64>)
    requires
        max >= 9,
    ensures
        match value {
            Some(v) => parse_unsigned(chars@, max as nat) == Some(v as nat),
            None => parse_unsigned(chars@, max as nat) is None,
        },
{
    let len = chars.len();
    let start: usize = if len > 0 && chars[0] == '+' {
        1
    } else {
        0
    };
    let ghost body = unsigned_body(chars@);
    assert(body =~= chars@.subrange(start as int, len as int));
    if start == len {
        return None;
    }
    let mut acc: u64 = 0;
    let mut i: usize = start;
    assert(chars@.subrange(start as int, start as int) =~= Seq::<char>::empty());
    while i < len
        invariant
            start <= i <= len == chars@.len(),
            start < len,
            body == chars@.subrange(start as int, len as int),
            body == unsigned_body(chars@),
            acc as nat == digits_value(chars@.subrange(start as int, i as int)),
            acc <= max,
            max >= 9,
            all_digits(chars@.subrange(start as int, i as int)),
        decreases len - i,
    {
        let c = chars[i];
        proof {
            lemma_digits_step(chars@, start as int, i as int);
        }
        if !('0' <= c && c <= '9') {
            assert(!is_digit(body[i - start]));
            return None;
        }
        let d: u64 = (c as u32 - 48) as u64;
        proof {
            lemma_fits_iff(acc as int, d as int, max as int);
        }
        if acc > (max - d) / 10 {
            proof {
                if all_digits(body) {
                    assert(body.take(i - start + 1) =~= chars@.subrange(start as int, i + 1));
                    lemma_digits_prefix_le(body, i - start + 1);
                }
            }
            return None;
        }
        acc = acc * 10 + d;
        i = i + 1;
        assert(all_digits(chars@.subrange(start as int, i as int)));
    }
    Some(acc)
}

/// Parses `s` as a `u64`, as `s.parse::<u64>()` does.
pub fn parse_u64(s: &str) -> (value: Option<u64>)
    ensures
        match value {
            Some(v) => parse_unsigned(s@, u64::MAX as nat) == Some(v as nat),
            None => parse_unsigned(s@, u64::MAX as nat) is None,
        },
{
    let chars = chars_of(s);
    parse_unsigned_chars(&chars, u64::MAX)
}

/// Parses `s` as a `u32`, as `s.parse::<u32>()` does.
pub fn parse_u32(s: &str) -> (value: Option<u32>)
    ensures
        match value {
            Some(v) => parse_unsigned(s@, u32::MAX as nat) == Some(v as nat),
            None => parse_unsigned(s@, u32::MAX as nat) is None,
        },
{
    let chars = chars_of(s);
    match parse_unsigned_chars(&chars, u32::MAX as u64) {
        Some(v) => Some(v as u32),
        None => None,
    }
}

/// The index of the first `'\n'` in `s`, or `s.len()` when there is none.
pub open spec fn newline_index(s: Seq<char>) -> nat
    decreases s.len(),
{
    if s.len() == 0 || s[0] == '\n' {
        0
    } else {
        1 + newline_index(s.drop_first())
    }
}

pub proof fn lemma_newline_index_bound(s: Seq<char>)
    ensures
        newline_index(s) <= s.len(),
        newline_index(s) < s.len() ==> s[newline_index(s) as int] == '\n',
        forall|k: int| 0 <= k < newline_index(s) ==> s[k] != '\n',
    decreases s.len(),
{
    if s.len() > 0 && s[0] != '\n' {
        lemma_newline_index_bound(s.drop_first());
        assert forall|k: int| 0 <= k < newline_index(s) implies s[k] != '\n' by {
            if k > 0 {
                assert(s[k] == s.drop_first()[k - 1]);
            }
        }
    }
}

proof fn lemma_newline_index_is(s: Seq<char>, m: int)
    requires
        0 <= m <= s.len(),
        forall|k: int| 0 <= k < m ==> s[k] != '\n',
        m < s.len() ==> s[m] == '\n',
    ensures
        newline_index(s) == m,
    decreases s.len(),
{
    if m > 0 {
        assert forall|k: int| 0 <= k < m - 1 implies s.drop_first()[k] != '\n' by {
            assert(s.drop_first()[k] == s[k + 1]);
        }
        lemma_newline_index_is(s.drop_first(), m - 1);
    }
}

/// `line` without one trailing `'\r'`, if it ends with one.
pub open spec fn strip_carriage_return(line: Seq<char>) -> Seq<char> {
    if line.len() > 0 && line.last() == '\r' {
        line.drop_last()
    } else {
        line
    }
}

/// The lines of `s`, as the standard library's `str::lines` gives them: split
/// at each `'\n'`, a `'\r'` just before a `'\n'` dropped with it, and no empty
/// line after a final line ending.
pub open spec fn lines(s: Seq<char>) -> Seq<Seq<char>>
    decreases s.len(),
{
    if s.len() == 0 {
        seq![]
    } else {
        let i = newline_index(s);
        if i >= s.len() {
            seq![s]
        } else {
            proof {
                lemma_newline_index_bound(s);
            }
            seq![strip_carriage_return(s.take(i as int))] + lines(s.skip(i as int + 1))
        }
    }
}

/// `c` has the Unicode White_Space property, which is what `char::is_whitespace`
/// and `str::trim` go by.
pub open spec fn is_whitespace(c: char) -> bool {
    ||| '\t' <= c <= '\r'
    ||| c == ' '
    ||| c == '\u{85}'
    ||| c == '\u{a0}'
    ||| c == '\u{1680}'
    ||| '\u{2000}' <= c <= '\u{200a}'
    ||| c == '\u{2028}'
    ||| c == '\u{2029}'
    ||| c == '\u{202f}'
    ||| c == '\u{205f}'
    ||| c == '\u{3000}'
}

/// `s` without its leading whitespace.
pub open spec fn trim_start(s: Seq<char>) -> Seq<char>
    decreases s.len(),
{
    if s.len() > 0 && is_whitespace(s[0]) {
        trim_start(s.drop_first())
    } else {
        s
    }
}

/// `s` without its trailing whitespace.
pub open spec fn trim_end(s: Seq<char>) -> Seq<char>
    decreases s.len(),
{
    if s.len() > 0 && is_whitespace(s.last()) {
        trim_end(s.drop_last())
    } else {
        s
    }
}

/// `s` without leading and trailing whitespace, as `str::trim` gives it.
pub open spec fn trim(s: Seq<char>) -> Seq<char> {
    trim_end(trim_start(s))
}

/// The trimmed rest of the first line that starts with `key`, if any line does.
pub open spec fn field_in_lines(lines: Seq<Seq<char>>, key: Seq<char>) -> Option<Seq<char>>
    decreases lines.len(),
{
    if lines.len() == 0 {
        None
    } else if key.is_prefix_of(lines[0]) {
        Some(trim(lines[0].skip(key.len() as int)))
    } else {
        field_in_lines(lines.drop_first(), key)
    }
}

/// The value of the first `key` line of a `/proc` file: the rest of the first
/// line that starts with `key`, trimmed.
pub open spec fn proc_field_value(contents: Seq<char>, key: Seq<char>) -> Option<Seq<char>> {
    field_in_lines(lines(contents), key)
}

fn char_is_whitespace(c: char) -> (ws: bool)
    ensures
        ws == is_whitespace(c),
{
    ('\t' <= c && c <= '\r') || c == ' ' || c == '\u{85}' || c == '\u{a0}' || c == '\u{1680}' || (
    '\u{2000}' <= c && c <= '\u{200a}') || c == '\u{2028}' || c == '\u{2029}' || c == '\u{202f}'
        || c == '\u{205f}' || c == '\u{3000}'
}

/// The bounds, within `from..to`, of `chars[from..to]` trimmed.
fn trim_bounds(chars: &Vec<char>, from: usize, to: usize) -> (bounds: (usize, usize))
    requires
        from <= to <= chars@.len(),
    ensures
        from <= bounds.0 <= bounds.1 <= to,
        chars@.subrange(bounds.0 as int, bounds.1 as int) == trim(
            chars@.subrange(from as int, to as int),
        ),
{
    let mut a = from;
    while a < to && char_is_whitespace(chars[a])
        invariant
            from <= a <= to <= chars@.len(),
            trim_start(chars@.subrange(from as int, to as int)) == trim_start(
                chars@.subrange(a as int, to as int),
            ),
        decreases to - a,
    {
        assert(chars@.subrange(a as int, to as int).drop_first() =~= chars@.subrange(
            a + 1,
            to as int,
        ));
        a = a + 1;
    }
    assert(trim_start(chars@.subrange(a as int, to as int)) == chars@.subrange(a as int, to as int));
    let mut b = to;
    while b > a && char_is_whitespace(chars[b - 1])
        invariant
            from <= a <= b <= to <= chars@.len(),
            trim_end(chars@.subrange(a as int, to as int)) == trim_end(
                chars@.subrange(a as int, b as int),
            ),
        decreases b - a,
    {
        assert(chars@.subrange(a as int, b as int).drop_last() =~= chars@.subrange(
            a as int,
            b - 1,
        ));
        b = b - 1;
    }
    (a, b)
}

/// Whether `key` is a prefix of `chars[from..to]`.
fn starts_with_at(chars: &Vec<char>, from: usize, to: usize, key: &Vec<char>) -> (found: bool)
    requires
        from <= to <= chars@.len(),
    ensures
        found == key@.is_prefix_of(chars@.subrange(from as int, to as int)),
{
    if key.len() > to - from {
        return false;
    }
    let mut k: usize = 0;
    while k < key.len()
        invariant
            key.len() <= to - from,
            from <= to <= chars@.len(),
            k <= key.len(),
            forall|m: int| 0 <= m < k ==> key@[m] == chars@[from + m],
        decreases key.len() - k,
    {
        if key[k] != chars[from + k] {
            assert(key@[k as int] != chars@.subrange(from as int, to as int)[k as int]);
            return false;
        }
        k = k + 1;
    }
    assert(key@ =~= chars@.subrange(from as int, to as int).subrange(0, key@.len() as int));
    true
}

/// The value of the first line of `contents` that starts with `key`: the
/// rest of that line, trimmed. `None` when no line starts with `key`.
pub fn proc_field(contents: &str, key: &str) -> (value: Option<String>)
    ensures
        match value {
            Some(v) => proc_field_value(contents@, key@) == Some(v@),
            None => proc_field_value(contents@, key@) is None,
        },
{
    let chars = chars_of(contents);
    let key_chars = chars_of(key);
    let n = chars.len();
    let mut pos: usize = 0;
    assert(chars@.skip(0) =~= chars@);
    while pos < n
        invariant
            pos <= n == chars@.len(),
            chars@ == contents@,
            key_chars@ == key@,
            proc_field_value(contents@, key@) == field_in_lines(lines(chars@.skip(pos as int)), key@),
        decreases n - pos,
    {
        let mut j = pos;
        while j < n && chars[j] != '\n'
            invariant
                pos <= j <= n == chars@.len(),
                forall|k: int| pos <= k < j ==> chars@[k] != '\n',
            decreases n - j,
        {
            j = j + 1;
        }
        let ghost t = chars@.skip(pos as int);
        proof {
            assert forall|k: int| 0 <= k < j - pos implies t[k] != '\n' by {
                assert(t[k] == chars@[pos + k]);
            }
            lemma_newline_index_is(t, j - pos);
        }
        let line_end = if j < n && j > pos && chars[j - 1] == '\r' {
            j - 1
        } else {
            j
        };
        let ghost line = chars@.subrange(pos as int, line_end as int);
        let ghost first = if j < n {
            strip_carriage_return(t.take(j - pos))
        } else {
            t
        };
        assert(first =~= line);
        assert(lines(t)[0] == first);
        assert(lines(t).drop_first() =~= if j < n {
            lines(chars@.skip(j + 1))
        } else {
            Seq::<Seq<char>>::empty()
        }) by {
            if j < n {
                assert(t.skip(j - pos + 1) =~= chars@.skip(j + 1));
            }
        }
        if starts_with_at(&chars, pos, line_end, &key_chars) {
            let (a, b) = trim_bounds(&chars, pos + key_chars.len(), line_end);
            assert(line.skip(key@.len() as int) =~= chars@.subrange(
                pos + key_chars.len(),
                line_end as int,
            ));
            let value = contents.substring_char(a, b).to_owned();
            return Some(value);
        }
        if j >= n {
            assert(lines(t).len() == 1);
            assert(field_in_lines(lines(t).drop_first(), key@) is None);
            return None;
        }
        pos = j + 1;
    }
    assert(chars@.skip(pos as int) =~= Seq::<char>::empty());
    None
}

} // verus!
