//! The snapshot codec: the cache file holds the last primary snapshot as a
//! JSON array, one inner array per package record, in a fixed compact form.
//! The writer and the reader are both here, the reader accepting exactly the
//! compact form the writer produces, and decoding what encoding produced
//! gives the identical ordered package list back.

use vstd::prelude::*;

use crate::text::{all_digits, dec_str, digit_val, digits_val, is_digit, push_dec, spec_digit_char};
use crate::types::CratePackage;

verus! {

/// The hexadecimal digit characters, lower case.
pub open spec fn hex_char(d: int) -> char {
    if d < 10 {
        spec_digit_char(d)
    } else if d == 10 {
        'a'
    } else if d == 11 {
        'b'
    } else if d == 12 {
        'c'
    } else if d == 13 {
        'd'
    } else if d == 14 {
        'e'
    } else {
        'f'
    }
}

/// Whether a character is a lower-case hexadecimal digit.
pub open spec fn is_hex(c: char) -> bool {
    is_digit(c) || (97 <= c as u32 <= 102)
}

/// The value of a lower-case hexadecimal digit.
pub open spec fn hex_val(c: char) -> int {
    if is_digit(c) {
        digit_val(c)
    } else {
        c as u32 - 87
    }
}

/// How one character is written inside a quoted string: quote and backslash
/// escaped, the common control characters by letter, other control
/// characters as a four-digit escape, everything else as itself.
pub open spec fn esc(c: char) -> Seq<char> {
    if c == '"' {
        seq!['\\', '"']
    } else if c == '\\' {
        seq!['\\', '\\']
    } else if c == '\n' {
        seq!['\\', 'n']
    } else if c == '\r' {
        seq!['\\', 'r']
    } else if c == '\t' {
        seq!['\\', 't']
    } else if (c as u32) < 32 {
        seq!['\\', 'u', '0', '0', hex_char(c as u32 as int / 16), hex_char(c as u32 as int % 16)]
    } else {
        seq![c]
    }
}

/// The written form of a string's characters.
pub open spec fn enc_chars(s: Seq<char>) -> Seq<char>
    decreases s.len(),
{
    if s.len() == 0 {
        seq![]
    } else {
        esc(s[0]) + enc_chars(s.drop_first())
    }
}

/// The written form of a string: its characters between quotes.
pub open spec fn enc_string(s: Seq<char>) -> Seq<char> {
    seq!['"'] + enc_chars(s) + seq!['"']
}

/// One parsed character prepended to a parse result.
pub open spec fn sp_cons(c: char, rest: Option<(Seq<char>, int)>) -> Option<(Seq<char>, int)> {
    match rest {
        Some(p) => Some((seq![c] + p.0, p.1)),
        None => None,
    }
}

/// Reads string characters from position `i` up to the closing quote;
/// yields the characters and the position after the quote.
pub open spec fn sp_chars(s: Seq<char>, i: int) -> Option<(Seq<char>, int)>
    decreases s.len() - i,
{
    if i < 0 || i >= s.len() {
        None
    } else if s[i] == '"' {
        Some((seq![], i + 1))
    } else if s[i] == '\\' {
        if i + 1 >= s.len() {
            None
        } else {
            let e = s[i + 1];
            if e == '"' {
                sp_cons('"', sp_chars(s, i + 2))
            } else if e == '\\' {
                sp_cons('\\', sp_chars(s, i + 2))
            } else if e == 'n' {
                sp_cons('\n', sp_chars(s, i + 2))
            } else if e == 'r' {
                sp_cons('\r', sp_chars(s, i + 2))
            } else if e == 't' {
                sp_cons('\t', sp_chars(s, i + 2))
            } else if e == 'u' {
                if i + 6 > s.len() {
                    None
                } else if s[i + 2] == '0' && s[i + 3] == '0' && is_hex(s[i + 4]) && is_hex(
                    s[i + 5],
                ) {
                    let code = hex_val(s[i + 4]) * 16 + hex_val(s[i + 5]);
                    sp_cons(code as u32 as char, sp_chars(s, i + 6))
                } else {
                    None
                }
            } else {
                None
            }
        }
    } else {
        sp_cons(s[i], sp_chars(s, i + 1))
    }
}

/// Reads a quoted string at position `i`; yields its characters and the
/// position after the closing quote.
pub open spec fn sp_string(s: Seq<char>, i: int) -> Option<(Seq<char>, int)> {
    if 0 <= i < s.len() && s[i] == '"' {
        sp_chars(s, i + 1)
    } else {
        None
    }
}

/// Written string characters, followed by the closing quote and anything
/// further, read back as exactly those characters.
proof fn lemma_chars_round(s: Seq<char>, i: int, v: Seq<char>, rest: Seq<char>)
    requires
        0 <= i <= s.len(),
        s.skip(i) == enc_chars(v) + seq!['"'] + rest,
    ensures
        sp_chars(s, i) == Some((v, i + enc_chars(v).len() + 1)),
    decreases v.len(),
{
    if v.len() == 0 {
        assert(s.skip(i).len() == rest.len() + 1);
        assert(s[i] == s.skip(i)[0]);
        assert(s.skip(i)[0] == '"');
    } else {
        let c = v[0];
        let e = esc(c);
        let k = e.len();
        assert(enc_chars(v) == e + enc_chars(v.drop_first()));
        assert(s.skip(i).len() == enc_chars(v).len() + 1 + rest.len());
        assert forall|m: int| 0 <= m < k implies s[i + m] == e[m] by {
            assert(s.skip(i)[m] == s[i + m]);
            assert((enc_chars(v) + seq!['"'] + rest)[m] == e[m]);
        };
        assert(i + k <= s.len());
        assert(s.skip(i + k) =~= enc_chars(v.drop_first()) + seq!['"'] + rest) by {
            assert forall|m: int| 0 <= m < s.len() - (i + k) implies s.skip(i + k)[m] == (enc_chars(
                v.drop_first(),
            ) + seq!['"'] + rest)[m] by {
                assert(s.skip(i + k)[m] == s.skip(i)[m + k]);
                assert(s.skip(i)[m + k] == (enc_chars(v) + seq!['"'] + rest)[m + k]);
            };
        };
        lemma_chars_round(s, i + k, v.drop_first(), rest);
        if c == '"' {
            assert(s[i] == '\\' && s[i + 1] == '"');
            assert(seq![c] + v.drop_first() =~= v);
        } else if c == '\\' {
            assert(s[i] == '\\' && s[i + 1] == '\\');
            assert(seq![c] + v.drop_first() =~= v);
        } else if c == '\n' {
            assert(s[i] == '\\' && s[i + 1] == 'n');
            assert(seq![c] + v.drop_first() =~= v);
        } else if c == '\r' {
            assert(s[i] == '\\' && s[i + 1] == 'r');
            assert(seq![c] + v.drop_first() =~= v);
        } else if c == '\t' {
            assert(s[i] == '\\' && s[i + 1] == 't');
            assert(seq![c] + v.drop_first() =~= v);
        } else if (c as u32) < 32 {
            let code = c as u32 as int;
            assert(s[i] == '\\' && s[i + 1] == 'u' && s[i + 2] == '0' && s[i + 3] == '0');
            assert(s[i + 4] == hex_char(code / 16) && s[i + 5] == hex_char(code % 16));
            assert(is_hex(hex_char(code / 16)) && hex_val(hex_char(code / 16)) == code / 16);
            assert(is_hex(hex_char(code % 16)) && hex_val(hex_char(code % 16)) == code % 16);
            assert(code / 16 * 16 + code % 16 == code);
            vstd::utf8::char_u32_cast(c, code as u32);
            assert((code as u32 as char) == c);
            assert(seq![c] + v.drop_first() =~= v);
        } else {
            assert(s[i] == e[0]);
            assert(s[i] == c);
            assert(c != '"' && c != '\\');
            assert(seq![c] + v.drop_first() =~= v);
        }
    }
}

/// The end of the digit run starting at `i`.
pub open spec fn sp_digits_end(s: Seq<char>, i: int) -> int
    decreases s.len() - i,
{
    if i < 0 || i >= s.len() || !is_digit(s[i]) {
        i
    } else {
        sp_digits_end(s, i + 1)
    }
}

/// `sp_digits_end` is the first non-digit position at or after `i`.
proof fn lemma_sp_digits_end(s: Seq<char>, i: int, e: int)
    requires
        0 <= i <= e <= s.len(),
        forall|m: int| i <= m < e ==> is_digit(s[m]),
        e < s.len() ==> !is_digit(s[e]),
    ensures
        sp_digits_end(s, i) == e,
    decreases e - i,
{
    if i < e {
        lemma_sp_digits_end(s, i + 1, e);
    }
}

/// Reads an unsigned count at `i`: the maximal digit run, whose value must
/// fit.
pub open spec fn sp_u64(s: Seq<char>, i: int) -> Option<(u64, int)> {
    let e = sp_digits_end(s, i);
    if 0 <= i && i < s.len() && e > i && digits_val(s.subrange(i, e)) <= u64::MAX {
        Some((digits_val(s.subrange(i, e)) as u64, e))
    } else {
        None
    }
}

/// Every character of a decimal rendering is a digit.
proof fn lemma_dec_str_digits(n: int)
    requires
        n >= 0,
    ensures
        all_digits(dec_str(n)),
        dec_str(n).len() >= 1,
    decreases n,
{
    if n >= 10 {
        lemma_dec_str_digits(n / 10);
        let d = dec_str(n);
        assert forall|m: int| 0 <= m < d.len() implies is_digit(d[m]) by {
            if m < d.len() - 1 {
                assert(d[m] == dec_str(n / 10)[m]);
            }
        };
    }
}

/// A decimal rendering reads back as its number.
proof fn lemma_dec_str_val(n: int)
    requires
        n >= 0,
    ensures
        digits_val(dec_str(n)) == n,
    decreases n,
{
    if n < 10 {
        let d = dec_str(n);
        assert(d =~= seq![spec_digit_char(n)]);
        assert(d.len() == 1);
        assert(d.drop_last() =~= Seq::<char>::empty());
        assert(digits_val(d.drop_last()) == 0);
        assert(d.last() == spec_digit_char(n));
        assert(digit_val(spec_digit_char(n)) == n);
        assert(digits_val(d) == digits_val(d.drop_last()) * 10 + digit_val(d.last()));
    } else {
        lemma_dec_str_val(n / 10);
        let d = dec_str(n);
        assert(d == dec_str(n / 10).push(spec_digit_char(n % 10)));
        assert(d.len() == dec_str(n / 10).len() + 1);
        assert(d.drop_last() =~= dec_str(n / 10));
        assert(d.last() == spec_digit_char(n % 10));
        assert(digit_val(spec_digit_char(n % 10)) == n % 10);
        assert(digits_val(d) == digits_val(d.drop_last()) * 10 + digit_val(d.last()));
        assert(digits_val(d) == (n / 10) * 10 + n % 10);
    }
}

/// A written count, followed by anything that does not extend the digits,
/// reads back as itself.
pub proof fn lemma_u64_round(s: Seq<char>, i: int, n: u64, rest: Seq<char>)
    requires
        0 <= i <= s.len(),
        s.skip(i) == dec_str(n as int) + rest,
        rest.len() > 0,
        !is_digit(rest[0]),
    ensures
        sp_u64(s, i) == Some((n, i + dec_str(n as int).len())),
{
    let d = dec_str(n as int);
    let e = i + d.len();
    lemma_dec_str_digits(n as int);
    lemma_dec_str_val(n as int);
    assert(s.skip(i).len() == d.len() + rest.len());
    assert forall|m: int| i <= m < e implies is_digit(s[m]) by {
        assert(s.skip(i)[m - i] == s[m]);
        assert((d + rest)[m - i] == d[m - i]);
    };
    assert(s[e] == s.skip(i)[d.len() as int]);
    assert(s[e] == rest[0]);
    lemma_sp_digits_end(s, i, e);
    assert(s.subrange(i, e) =~= d) by {
        assert forall|m: int| 0 <= m < d.len() implies s.subrange(i, e)[m] == d[m] by {
            assert(s.subrange(i, e)[m] == s.skip(i)[m]);
        };
    };
}

/// The written form of a truth value.
pub open spec fn enc_bool(b: bool) -> Seq<char> {
    if b {
        seq!['t', 'r', 'u', 'e']
    } else {
        seq!['f', 'a', 'l', 's', 'e']
    }
}

/// The written form of an absent value.
pub open spec fn enc_null() -> Seq<char> {
    seq!['n', 'u', 'l', 'l']
}

/// Reads a truth value at `i`.
pub open spec fn sp_bool(s: Seq<char>, i: int) -> Option<(bool, int)> {
    if 0 <= i && i + 4 <= s.len() && s[i] == 't' && s[i + 1] == 'r' && s[i + 2] == 'u' && s[i + 3]
        == 'e' {
        Some((true, i + 4))
    } else if 0 <= i && i + 5 <= s.len() && s[i] == 'f' && s[i + 1] == 'a' && s[i + 2] == 'l' && s[i
        + 3] == 's' && s[i + 4] == 'e' {
        Some((false, i + 5))
    } else {
        None
    }
}

/// Whether an absent value is written at `i`.
pub open spec fn sp_is_null(s: Seq<char>, i: int) -> bool {
    0 <= i && i + 4 <= s.len() && s[i] == 'n' && s[i + 1] == 'u' && s[i + 2] == 'l' && s[i + 3]
        == 'l'
}

/// A written truth value, followed by anything, reads back as itself.
pub proof fn lemma_bool_round(s: Seq<char>, i: int, b: bool, rest: Seq<char>)
    requires
        0 <= i <= s.len(),
        s.skip(i) == enc_bool(b) + rest,
    ensures
        sp_bool(s, i) == Some((b, i + enc_bool(b).len())),
{
    let e = enc_bool(b);
    assert(s.skip(i).len() == e.len() + rest.len());
    assert forall|m: int| 0 <= m < e.len() implies s[i + m] == e[m] by {
        assert(s.skip(i)[m] == s[i + m]);
        assert((e + rest)[m] == e[m]);
    };
    assert(s[i] == e[0]);
    assert(s[i + 1] == e[1]);
    assert(s[i + 2] == e[2]);
    assert(s[i + 3] == e[3]);
    if !b {
        assert(s[i + 4] == e[4]);
    }
}

/// The written form of an optional string.
pub open spec fn enc_opt_string(o: Option<Seq<char>>) -> Seq<char> {
    match o {
        Some(v) => enc_string(v),
        None => enc_null(),
    }
}

/// Reads an optional string at `i`.
pub open spec fn sp_opt_string(s: Seq<char>, i: int) -> Option<(Option<Seq<char>>, int)> {
    if sp_is_null(s, i) {
        Some((None, i + 4))
    } else {
        match sp_string(s, i) {
            Some(p) => Some((Some(p.0), p.1)),
            None => None,
        }
    }
}

/// The written form of an optional truth value.
pub open spec fn enc_opt_bool(o: Option<bool>) -> Seq<char> {
    match o {
        Some(b) => enc_bool(b),
        None => enc_null(),
    }
}

/// Reads an optional truth value at `i`.
pub open spec fn sp_opt_bool(s: Seq<char>, i: int) -> Option<(Option<bool>, int)> {
    if sp_is_null(s, i) {
        Some((None, i + 4))
    } else {
        match sp_bool(s, i) {
            Some(p) => Some((Some(p.0), p.1)),
            None => None,
        }
    }
}

/// A written absent value, followed by anything, reads back as absent.
proof fn lemma_null_at(s: Seq<char>, i: int, rest: Seq<char>)
    requires
        0 <= i <= s.len(),
        s.skip(i) == enc_null() + rest,
    ensures
        sp_is_null(s, i),
{
    assert(s.skip(i).len() == 4 + rest.len());
    assert forall|m: int| 0 <= m < 4 implies s[i + m] == enc_null()[m] by {
        assert(s.skip(i)[m] == s[i + m]);
        assert((enc_null() + rest)[m] == enc_null()[m]);
    };
    assert(s[i] == 'n');
    assert(s[i + 1] == 'u');
    assert(s[i + 2] == 'l');
    assert(s[i + 3] == 'l');
}

/// A written optional string, followed by anything, reads back as itself.
pub proof fn lemma_opt_string_round(s: Seq<char>, i: int, o: Option<Seq<char>>, rest: Seq<char>)
    requires
        0 <= i <= s.len(),
        s.skip(i) == enc_opt_string(o) + rest,
    ensures
        sp_opt_string(s, i) == Some((o, i + enc_opt_string(o).len())),
{
    match o {
        None => {
            lemma_null_at(s, i, rest);
        },
        Some(v) => {
            lemma_string_round(s, i, v, rest);
            assert(s[i] == s.skip(i)[0]);
            assert(s[i] == '"');
            assert(!sp_is_null(s, i));
        },
    }
}

/// A written optional truth value, followed by anything, reads back as
/// itself.
pub proof fn lemma_opt_bool_round(s: Seq<char>, i: int, o: Option<bool>, rest: Seq<char>)
    requires
        0 <= i <= s.len(),
        s.skip(i) == enc_opt_bool(o) + rest,
    ensures
        sp_opt_bool(s, i) == Some((o, i + enc_opt_bool(o).len())),
{
    match o {
        None => {
            lemma_null_at(s, i, rest);
        },
        Some(b) => {
            lemma_bool_round(s, i, b, rest);
            assert(s[i] == s.skip(i)[0]);
            assert(s[i] == enc_bool(b)[0]);
            assert(!sp_is_null(s, i));
        },
    }
}

/// A written string, followed by anything, reads back as itself.
pub proof fn lemma_string_round(s: Seq<char>, i: int, v: Seq<char>, rest: Seq<char>)
    requires
        0 <= i <= s.len(),
        s.skip(i) == enc_string(v) + rest,
    ensures
        sp_string(s, i) == Some((v, i + enc_string(v).len())),
{
    assert(s.skip(i).len() == enc_string(v).len() + rest.len());
    assert(s[i] == s.skip(i)[0]);
    assert(s.skip(i)[0] == '"');
    assert(s.skip(i + 1) =~= enc_chars(v) + seq!['"'] + rest) by {
        assert forall|m: int| 0 <= m < s.len() - (i + 1) implies s.skip(i + 1)[m] == (enc_chars(v)
            + seq!['"'] + rest)[m] by {
            assert(s.skip(i + 1)[m] == s.skip(i)[m + 1]);
            assert(s.skip(i)[m + 1] == (enc_string(v) + rest)[m + 1]);
        };
    };
    lemma_chars_round(s, i + 1, v, rest);
}

/// Splitting a known remainder: when everything from `i` on reads `a`
/// followed by `b`, then `a` lies at `i` and everything from `i + a.len()`
/// on reads `b`.
proof fn lemma_skip_shift(s: Seq<char>, i: int, a: Seq<char>, b: Seq<char>)
    requires
        0 <= i <= s.len(),
        s.skip(i) == a + b,
    ensures
        i + a.len() <= s.len(),
        s.skip(i + a.len()) =~= b,
        forall|m: int| 0 <= m < a.len() ==> s[i + m] == a[m],
        a.len() > 0 ==> s[i] == a[0],
        b.len() > 0 ==> s[i + a.len()] == b[0],
{
    assert(s.skip(i).len() == a.len() + b.len());
    if a.len() > 0 {
        assert(s.skip(i)[0] == s[i]);
        assert((a + b)[0] == a[0]);
    }
    if b.len() > 0 {
        assert(s.skip(i)[a.len() as int] == s[i + a.len()]);
        assert((a + b)[a.len() as int] == b[0]);
    }
    assert forall|m: int| 0 <= m < a.len() implies s[i + m] == a[m] by {
        assert(s.skip(i)[m] == s[i + m]);
        assert((a + b)[m] == a[m]);
    };
    assert forall|m: int| 0 <= m < s.len() - (i + a.len()) implies s.skip(i + a.len())[m]
        == b[m] by {
        assert(s.skip(i + a.len())[m] == s.skip(i)[m + a.len()]);
        assert(s.skip(i)[m + a.len()] == (a + b)[m + a.len()]);
    };
}

/// The written form of a string list's items, comma separated.
pub open spec fn enc_str_items(ts: Seq<Seq<char>>) -> Seq<char>
    decreases ts.len(),
{
    if ts.len() == 0 {
        seq![]
    } else if ts.len() == 1 {
        enc_string(ts[0])
    } else {
        enc_string(ts[0]) + seq![','] + enc_str_items(ts.drop_first())
    }
}

/// The written form of a string list.
pub open spec fn enc_str_list(ts: Seq<Seq<char>>) -> Seq<char> {
    seq!['['] + enc_str_items(ts) + seq![']']
}

/// The written form of an optional string list.
pub open spec fn enc_opt_list(o: Option<Seq<Seq<char>>>) -> Seq<char> {
    match o {
        Some(ts) => enc_str_list(ts),
        None => enc_null(),
    }
}

/// Reads string-list items at `i`, up to and past the closing bracket.
pub open spec fn sp_str_items(s: Seq<char>, i: int) -> Option<(Seq<Seq<char>>, int)>
    decreases s.len() - i,
{
    match sp_string(s, i) {
        None => None,
        Some(p) => {
            let (v, j) = p;
            if j < s.len() && s[j] == ',' {
                if j + 1 <= i {
                    None
                } else {
                    match sp_str_items(s, j + 1) {
                        None => None,
                        Some(q) => Some((seq![v] + q.0, q.1)),
                    }
                }
            } else if j < s.len() && s[j] == ']' {
                Some((seq![v], j + 1))
            } else {
                None
            }
        },
    }
}

/// Reads a string list at `i`.
pub open spec fn sp_str_list(s: Seq<char>, i: int) -> Option<(Seq<Seq<char>>, int)> {
    if 0 <= i && i + 1 < s.len() && s[i] == '[' && s[i + 1] == ']' {
        Some((seq![], i + 2))
    } else if 0 <= i && i < s.len() && s[i] == '[' {
        sp_str_items(s, i + 1)
    } else {
        None
    }
}

/// Reads an optional string list at `i`.
pub open spec fn sp_opt_list(s: Seq<char>, i: int) -> Option<(Option<Seq<Seq<char>>>, int)> {
    if sp_is_null(s, i) {
        Some((None, i + 4))
    } else {
        match sp_str_list(s, i) {
            Some(p) => Some((Some(p.0), p.1)),
            None => None,
        }
    }
}

/// Written string-list items followed by the closing bracket read back as
/// exactly those items.
proof fn lemma_str_items_round(s: Seq<char>, i: int, ts: Seq<Seq<char>>, rest: Seq<char>)
    requires
        0 <= i <= s.len(),
        ts.len() >= 1,
        s.skip(i) == enc_str_items(ts) + seq![']'] + rest,
    ensures
        sp_str_items(s, i) == Some((ts, i + enc_str_items(ts).len() + 1)),
    decreases ts.len(),
{
    if ts.len() == 1 {
        assert(s.skip(i) =~= enc_string(ts[0]) + (seq![']'] + rest));
        lemma_string_round(s, i, ts[0], seq![']'] + rest);
        lemma_skip_shift(s, i, enc_string(ts[0]), seq![']'] + rest);
        let j = i + enc_string(ts[0]).len();
        assert(s[j] == s.skip(j)[0]);
        assert(s[j] == ']');
        assert(seq![ts[0]] =~= ts);
    } else {
        let tail = seq![','] + enc_str_items(ts.drop_first()) + seq![']'] + rest;
        assert(s.skip(i) =~= enc_string(ts[0]) + tail);
        lemma_string_round(s, i, ts[0], tail);
        lemma_skip_shift(s, i, enc_string(ts[0]), tail);
        let j = i + enc_string(ts[0]).len();
        assert(s[j] == s.skip(j)[0]);
        assert(s[j] == ',');
        assert(s.skip(j).drop_first() =~= s.skip(j + 1));
        assert(s.skip(j + 1) =~= enc_str_items(ts.drop_first()) + seq![']'] + rest) by {
            assert forall|m: int| 0 <= m < s.len() - (j + 1) implies s.skip(j + 1)[m] == (
            enc_str_items(ts.drop_first()) + seq![']'] + rest)[m] by {
                assert(s.skip(j + 1)[m] == s.skip(j)[m + 1]);
                assert(s.skip(j)[m + 1] == tail[m + 1]);
            };
        };
        lemma_str_items_round(s, j + 1, ts.drop_first(), rest);
        assert(seq![ts[0]] + ts.drop_first() =~= ts);
    }
}

/// A written optional string list, followed by anything that is not a
/// further list item, reads back as itself.
proof fn lemma_opt_list_round(s: Seq<char>, i: int, o: Option<Seq<Seq<char>>>, rest: Seq<char>)
    requires
        0 <= i <= s.len(),
        s.skip(i) == enc_opt_list(o) + rest,
        rest.len() > 0,
        rest[0] == ',',
    ensures
        sp_opt_list(s, i) == Some((o, i + enc_opt_list(o).len())),
{
    match o {
        None => {
            lemma_null_at(s, i, rest);
        },
        Some(ts) => {
            lemma_skip_shift(s, i, enc_opt_list(o), rest);
            assert(s[i] == enc_opt_list(o)[0]);
            assert(s[i] == '[');
            assert(!sp_is_null(s, i));
            if ts.len() == 0 {
                assert(s[i + 1] == enc_opt_list(o)[1]);
                assert(s[i + 1] == ']');
                assert(i + 1 < s.len());
            } else {
                assert(s.skip(i).drop_first() =~= s.skip(i + 1));
                assert(s.skip(i + 1) =~= enc_str_items(ts) + seq![']'] + rest) by {
                    assert forall|m: int| 0 <= m < s.len() - (i + 1) implies s.skip(i + 1)[m] == (
                    enc_str_items(ts) + seq![']'] + rest)[m] by {
                        assert(s.skip(i + 1)[m] == s.skip(i)[m + 1]);
                        assert(s.skip(i)[m + 1] == (enc_opt_list(o) + rest)[m + 1]);
                    };
                };
                lemma_str_items_round(s, i + 1, ts, rest);
                assert(s[i + 1] == enc_opt_list(o)[1]);
                assert(enc_opt_list(o)[1] == enc_string(ts[0])[0]);
                assert(s[i + 1] == '"');
                assert(!(i + 1 < s.len() && s[i + 1] == ']'));
            }
        },
    }
}

/// The content of one package record, as mathematical values: what the
/// written form captures and what reading it back must reproduce.
pub ghost struct PkgView {
    pub id: Seq<char>,
    pub name: Seq<char>,
    pub description: Seq<char>,
    pub version: Seq<char>,
    pub created_at: Seq<char>,
    pub updated_at: Seq<char>,
    pub downloads: u64,
    pub recent_downloads: u64,
    pub categories: Option<Seq<Seq<char>>>,
    pub repository: Option<Seq<char>>,
    pub homepage: Option<Seq<char>>,
    pub documentation: Option<Seq<char>>,
    pub dep_version: Seq<char>,
    pub dep_optional: bool,
    pub dep_dev_dependency: bool,
    pub is_core_library: bool,
    pub retracted: Option<bool>,
}

/// The views of a list of strings.
pub open spec fn string_views(ts: Seq<String>) -> Seq<Seq<char>> {
    Seq::new(ts.len(), |i: int| ts[i]@)
}

/// The content of a package record.
pub open spec fn pkg_view(p: crate::types::CratePackage) -> PkgView {
    PkgView {
        id: p.id@,
        name: p.name@,
        description: p.description@,
        version: p.version@,
        created_at: p.created_at@,
        updated_at: p.updated_at@,
        downloads: p.downloads,
        recent_downloads: p.recent_downloads,
        categories: match p.categories {
            Some(ts) => Some(string_views(ts@)),
            None => None,
        },
        repository: match p.repository {
            Some(r) => Some(r@),
            None => None,
        },
        homepage: match p.homepage {
            Some(r) => Some(r@),
            None => None,
        },
        documentation: match p.documentation {
            Some(r) => Some(r@),
            None => None,
        },
        dep_version: p.ratatui_dependency.version@,
        dep_optional: p.ratatui_dependency.optional,
        dep_dev_dependency: p.ratatui_dependency.dev_dependency,
        is_core_library: p.is_core_library,
        retracted: p.retracted,
    }
}

/// The contents of a list of package records.
pub open spec fn pkg_views(ps: Seq<crate::types::CratePackage>) -> Seq<PkgView> {
    Seq::new(ps.len(), |i: int| pkg_view(ps[i]))
}

/// The first half of a record's content: names, timestamps and counters.
pub ghost struct PkgHead {
    pub id: Seq<char>,
    pub name: Seq<char>,
    pub description: Seq<char>,
    pub version: Seq<char>,
    pub created_at: Seq<char>,
    pub updated_at: Seq<char>,
    pub downloads: u64,
    pub recent_downloads: u64,
}

/// The second half of a record's content: links, tags, the dependency and
/// the flags.
pub ghost struct PkgTail {
    pub categories: Option<Seq<Seq<char>>>,
    pub repository: Option<Seq<char>>,
    pub homepage: Option<Seq<char>>,
    pub documentation: Option<Seq<char>>,
    pub dep_version: Seq<char>,
    pub dep_optional: bool,
    pub dep_dev_dependency: bool,
    pub is_core_library: bool,
    pub retracted: Option<bool>,
}

/// The first half of a record's content.
pub open spec fn head_of(p: PkgView) -> PkgHead {
    PkgHead {
        id: p.id,
        name: p.name,
        description: p.description,
        version: p.version,
        created_at: p.created_at,
        updated_at: p.updated_at,
        downloads: p.downloads,
        recent_downloads: p.recent_downloads,
    }
}

/// The second half of a record's content.
pub open spec fn tail_of(p: PkgView) -> PkgTail {
    PkgTail {
        categories: p.categories,
        repository: p.repository,
        homepage: p.homepage,
        documentation: p.documentation,
        dep_version: p.dep_version,
        dep_optional: p.dep_optional,
        dep_dev_dependency: p.dep_dev_dependency,
        is_core_library: p.is_core_library,
        retracted: p.retracted,
    }
}

/// A record's content, from its two halves.
pub open spec fn assemble_pkg(h: PkgHead, t: PkgTail) -> PkgView {
    PkgView {
        id: h.id,
        name: h.name,
        description: h.description,
        version: h.version,
        created_at: h.created_at,
        updated_at: h.updated_at,
        downloads: h.downloads,
        recent_downloads: h.recent_downloads,
        categories: t.categories,
        repository: t.repository,
        homepage: t.homepage,
        documentation: t.documentation,
        dep_version: t.dep_version,
        dep_optional: t.dep_optional,
        dep_dev_dependency: t.dep_dev_dependency,
        is_core_library: t.is_core_library,
        retracted: t.retracted,
    }
}

/// The written form of a record's first half: the opening bracket and the
/// first eight values.
pub open spec fn enc_pkg_head(p: PkgView) -> Seq<char> {
    seq!['['] + enc_string(p.id) + seq![','] + enc_string(p.name) + seq![','] + enc_string(
        p.description,
    ) + seq![','] + enc_string(p.version) + seq![','] + enc_string(p.created_at) + seq![',']
        + enc_string(p.updated_at) + seq![','] + dec_str(p.downloads as int) + seq![','] + dec_str(
        p.recent_downloads as int,
    )
}

/// The written form of a record's second half: the remaining nine values
/// and the closing bracket.
pub open spec fn enc_pkg_tail(p: PkgView) -> Seq<char> {
    seq![','] + enc_opt_list(p.categories) + seq![','] + enc_opt_string(p.repository) + seq![',']
        + enc_opt_string(p.homepage) + seq![','] + enc_opt_string(p.documentation) + seq![',']
        + enc_string(p.dep_version) + seq![','] + enc_bool(p.dep_optional) + seq![','] + enc_bool(
        p.dep_dev_dependency,
    ) + seq![','] + enc_bool(p.is_core_library) + seq![','] + enc_opt_bool(p.retracted) + seq![']']
}

/// The written form of one package record: its seventeen values between
/// brackets, comma separated, in a fixed order.
pub open spec fn enc_pkg(p: PkgView) -> Seq<char> {
    enc_pkg_head(p) + enc_pkg_tail(p)
}

/// Reads one character at `i`.
pub open spec fn sp_expect(s: Seq<char>, i: int, c: char) -> Option<int> {
    if 0 <= i && i < s.len() && s[i] == c {
        Some(i + 1)
    } else {
        None
    }
}

/// Reads a comma, then a string.
pub open spec fn sp_c_string(s: Seq<char>, i: int) -> Option<(Seq<char>, int)> {
    match sp_expect(s, i, ',') {
        Some(j) => sp_string(s, j),
        None => None,
    }
}

/// Reads a comma, then a count.
pub open spec fn sp_c_u64(s: Seq<char>, i: int) -> Option<(u64, int)> {
    match sp_expect(s, i, ',') {
        Some(j) => sp_u64(s, j),
        None => None,
    }
}

/// Reads a comma, then a truth value.
pub open spec fn sp_c_bool(s: Seq<char>, i: int) -> Option<(bool, int)> {
    match sp_expect(s, i, ',') {
        Some(j) => sp_bool(s, j),
        None => None,
    }
}

/// Reads a comma, then an optional string.
pub open spec fn sp_c_opt_string(s: Seq<char>, i: int) -> Option<(Option<Seq<char>>, int)> {
    match sp_expect(s, i, ',') {
        Some(j) => sp_opt_string(s, j),
        None => None,
    }
}

/// Reads a comma, then an optional truth value.
pub open spec fn sp_c_opt_bool(s: Seq<char>, i: int) -> Option<(Option<bool>, int)> {
    match sp_expect(s, i, ',') {
        Some(j) => sp_opt_bool(s, j),
        None => None,
    }
}

/// Reads a comma, then an optional string list.
pub open spec fn sp_c_opt_list(s: Seq<char>, i: int) -> Option<(Option<Seq<Seq<char>>>, int)> {
    match sp_expect(s, i, ',') {
        Some(j) => sp_opt_list(s, j),
        None => None,
    }
}

/// Reads a record's first half at `i`.
pub open spec fn sp_pkg_head(s: Seq<char>, i: int) -> Option<(PkgHead, int)> {
    match sp_expect(s, i, '[') {
        None => None,
        Some(i0) => match sp_string(s, i0) {
            None => None,
            Some((id, i1)) => match sp_c_string(s, i1) {
                None => None,
                Some((name, i2)) => match sp_c_string(s, i2) {
                    None => None,
                    Some((description, i3)) => match sp_c_string(s, i3) {
                        None => None,
                        Some((version, i4)) => match sp_c_string(s, i4) {
                            None => None,
                            Some((created_at, i5)) => match sp_c_string(s, i5) {
                                None => None,
                                Some((updated_at, i6)) => match sp_c_u64(s, i6) {
                                    None => None,
                                    Some((downloads, i7)) => match sp_c_u64(s, i7) {
                                        None => None,
                                        Some((recent, i8)) => Some(
                                            (
                                                PkgHead {
                                                    id,
                                                    name,
                                                    description,
                                                    version,
                                                    created_at,
                                                    updated_at,
                                                    downloads,
                                                    recent_downloads: recent,
                                                },
                                                i8,
                                            ),
                                        ),
                                    },
                                },
                            },
                        },
                    },
                },
            },
        },
    }
}

/// Reads a record's second half at `i`, up to and past the closing bracket.
pub open spec fn sp_pkg_tail(s: Seq<char>, i: int) -> Option<(PkgTail, int)> {
    match sp_c_opt_list(s, i) {
        None => None,
        Some((categories, i9)) => match sp_c_opt_string(s, i9) {
            None => None,
            Some((repository, i10)) => match sp_c_opt_string(s, i10) {
                None => None,
                Some((homepage, i11)) => match sp_c_opt_string(s, i11) {
                    None => None,
                    Some((documentation, i12)) => match sp_c_string(s, i12) {
                        None => None,
                        Some((dep_version, i13)) => match sp_c_bool(s, i13) {
                            None => None,
                            Some((dep_optional, i14)) => match sp_c_bool(s, i14) {
                                None => None,
                                Some((dep_dev, i15)) => match sp_c_bool(s, i15) {
                                    None => None,
                                    Some((core, i16)) => match sp_c_opt_bool(s, i16) {
                                        None => None,
                                        Some((retracted, i17)) => match sp_expect(s, i17, ']') {
                                            None => None,
                                            Some(end) => Some(
                                                (
                                                    PkgTail {
                                                        categories,
                                                        repository,
                                                        homepage,
                                                        documentation,
                                                        dep_version,
                                                        dep_optional,
                                                        dep_dev_dependency: dep_dev,
                                                        is_core_library: core,
                                                        retracted,
                                                    },
                                                    end,
                                                ),
                                            ),
                                        },
                                    },
                                },
                            },
                        },
                    },
                },
            },
        },
    }
}

/// Reads one package record at `i`, up to and past its closing bracket.
pub open spec fn sp_pkg(s: Seq<char>, i: int) -> Option<(PkgView, int)> {
    match sp_pkg_head(s, i) {
        None => None,
        Some((h, j)) => match sp_pkg_tail(s, j) {
            None => None,
            Some((t, end)) => Some((assemble_pkg(h, t), end)),
        },
    }
}


/// A written record's first half, followed by anything, reads back as
/// itself.
#[verifier::rlimit(100)]
#[verifier::spinoff_prover]
proof fn lemma_pkg_head_round(s: Seq<char>, i: int, p: PkgView, rest: Seq<char>)
    requires
        0 <= i <= s.len(),
        s.skip(i) == enc_pkg_head(p) + rest,
        rest.len() > 0,
        rest[0] == ',',
    ensures
        sp_pkg_head(s, i) == Some((head_of(p), i + enc_pkg_head(p).len())),
{
    let t7 = seq![','] + dec_str(p.recent_downloads as int) + rest;
    let t6 = seq![','] + dec_str(p.downloads as int) + t7;
    let t5 = seq![','] + enc_string(p.updated_at) + t6;
    let t4 = seq![','] + enc_string(p.created_at) + t5;
    let t3 = seq![','] + enc_string(p.version) + t4;
    let t2 = seq![','] + enc_string(p.description) + t3;
    let t1 = seq![','] + enc_string(p.name) + t2;
    let t0 = enc_string(p.id) + t1;
    assert(enc_pkg_head(p) + rest =~= seq!['['] + t0);
    lemma_skip_shift(s, i, seq!['['], t0);
    assert(s[i] == '[');
    assert(s.skip(i + 1) =~= enc_string(p.id) + t1);
    lemma_string_round(s, i + 1, p.id, t1);
    lemma_skip_shift(s, i + 1, enc_string(p.id), t1);
    let i1 = i + 1 + enc_string(p.id).len();
    assert(s.skip(i1) =~= seq![','] + (enc_string(p.name) + t2));
    lemma_skip_shift(s, i1, seq![','], enc_string(p.name) + t2);
    assert(s[i1] == ',');
    lemma_string_round(s, i1 + 1, p.name, t2);
    lemma_skip_shift(s, i1 + 1, enc_string(p.name), t2);
    let i2 = i1 + 1 + enc_string(p.name).len();
    assert(s.skip(i2) =~= seq![','] + (enc_string(p.description) + t3));
    lemma_skip_shift(s, i2, seq![','], enc_string(p.description) + t3);
    assert(s[i2] == ',');
    lemma_string_round(s, i2 + 1, p.description, t3);
    lemma_skip_shift(s, i2 + 1, enc_string(p.description), t3);
    let i3 = i2 + 1 + enc_string(p.description).len();
    assert(s.skip(i3) =~= seq![','] + (enc_string(p.version) + t4));
    lemma_skip_shift(s, i3, seq![','], enc_string(p.version) + t4);
    assert(s[i3] == ',');
    lemma_string_round(s, i3 + 1, p.version, t4);
    lemma_skip_shift(s, i3 + 1, enc_string(p.version), t4);
    let i4 = i3 + 1 + enc_string(p.version).len();
    assert(s.skip(i4) =~= seq![','] + (enc_string(p.created_at) + t5));
    lemma_skip_shift(s, i4, seq![','], enc_string(p.created_at) + t5);
    assert(s[i4] == ',');
    lemma_string_round(s, i4 + 1, p.created_at, t5);
    lemma_skip_shift(s, i4 + 1, enc_string(p.created_at), t5);
    let i5 = i4 + 1 + enc_string(p.created_at).len();
    assert(s.skip(i5) =~= seq![','] + (enc_string(p.updated_at) + t6));
    lemma_skip_shift(s, i5, seq![','], enc_string(p.updated_at) + t6);
    assert(s[i5] == ',');
    lemma_string_round(s, i5 + 1, p.updated_at, t6);
    lemma_skip_shift(s, i5 + 1, enc_string(p.updated_at), t6);
    let i6 = i5 + 1 + enc_string(p.updated_at).len();
    assert(s.skip(i6) =~= seq![','] + (dec_str(p.downloads as int) + t7));
    lemma_skip_shift(s, i6, seq![','], dec_str(p.downloads as int) + t7);
    assert(s[i6] == ',');
    assert(!is_digit(t7[0]));
    lemma_u64_round(s, i6 + 1, p.downloads, t7);
    lemma_skip_shift(s, i6 + 1, dec_str(p.downloads as int), t7);
    let i7 = i6 + 1 + dec_str(p.downloads as int).len();
    assert(s.skip(i7) =~= seq![','] + (dec_str(p.recent_downloads as int) + rest));
    lemma_skip_shift(s, i7, seq![','], dec_str(p.recent_downloads as int) + rest);
    assert(s[i7] == ',');
    assert(!is_digit(rest[0]));
    lemma_u64_round(s, i7 + 1, p.recent_downloads, rest);
}

/// The first four values of a record's second half read back as themselves.
#[verifier::rlimit(100)]
#[verifier::spinoff_prover]
proof fn lemma_pkg_tail_round_a(s: Seq<char>, i: int, p: PkgView, rest2: Seq<char>)
    requires
        0 <= i <= s.len(),
        s.skip(i) == seq![','] + enc_opt_list(p.categories) + seq![','] + enc_opt_string(
            p.repository,
        ) + seq![','] + enc_opt_string(p.homepage) + seq![','] + enc_opt_string(p.documentation)
            + rest2,
        rest2.len() > 0,
        rest2[0] == ',',
    ensures
        ({
            let p1 = i + 1 + enc_opt_list(p.categories).len();
            let p2 = p1 + 1 + enc_opt_string(p.repository).len();
            let p3 = p2 + 1 + enc_opt_string(p.homepage).len();
            let p4 = p3 + 1 + enc_opt_string(p.documentation).len();
            &&& sp_c_opt_list(s, i) == Some((p.categories, p1))
            &&& sp_c_opt_string(s, p1) == Some((p.repository, p2))
            &&& sp_c_opt_string(s, p2) == Some((p.homepage, p3))
            &&& sp_c_opt_string(s, p3) == Some((p.documentation, p4))
            &&& 0 <= p4 <= s.len()
            &&& s.skip(p4) == rest2
        }),
{
    let t11 = seq![','] + enc_opt_string(p.documentation) + rest2;
    let t10 = seq![','] + enc_opt_string(p.homepage) + t11;
    let t9 = seq![','] + enc_opt_string(p.repository) + t10;
    assert(s.skip(i) =~= seq![','] + (enc_opt_list(p.categories) + t9));
    lemma_skip_shift(s, i, seq![','], enc_opt_list(p.categories) + t9);
    assert(s[i] == ',');
    lemma_opt_list_round(s, i + 1, p.categories, t9);
    lemma_skip_shift(s, i + 1, enc_opt_list(p.categories), t9);
    let p1 = i + 1 + enc_opt_list(p.categories).len();
    assert(s.skip(p1) =~= seq![','] + (enc_opt_string(p.repository) + t10));
    lemma_skip_shift(s, p1, seq![','], enc_opt_string(p.repository) + t10);
    assert(s[p1] == ',');
    lemma_opt_string_round(s, p1 + 1, p.repository, t10);
    lemma_skip_shift(s, p1 + 1, enc_opt_string(p.repository), t10);
    let p2 = p1 + 1 + enc_opt_string(p.repository).len();
    assert(s.skip(p2) =~= seq![','] + (enc_opt_string(p.homepage) + t11));
    lemma_skip_shift(s, p2, seq![','], enc_opt_string(p.homepage) + t11);
    assert(s[p2] == ',');
    lemma_opt_string_round(s, p2 + 1, p.homepage, t11);
    lemma_skip_shift(s, p2 + 1, enc_opt_string(p.homepage), t11);
    let p3 = p2 + 1 + enc_opt_string(p.homepage).len();
    assert(s.skip(p3) =~= seq![','] + (enc_opt_string(p.documentation) + rest2));
    lemma_skip_shift(s, p3, seq![','], enc_opt_string(p.documentation) + rest2);
    assert(s[p3] == ',');
    lemma_opt_string_round(s, p3 + 1, p.documentation, rest2);
    lemma_skip_shift(s, p3 + 1, enc_opt_string(p.documentation), rest2);
}

/// The last five values of a record's second half, and its closing bracket,
/// read back as themselves.
#[verifier::rlimit(100)]
#[verifier::spinoff_prover]
proof fn lemma_pkg_tail_round_b(s: Seq<char>, i: int, p: PkgView, rest: Seq<char>)
    requires
        0 <= i <= s.len(),
        s.skip(i) == seq![','] + enc_string(p.dep_version) + seq![','] + enc_bool(p.dep_optional)
            + seq![','] + enc_bool(p.dep_dev_dependency) + seq![','] + enc_bool(p.is_core_library)
            + seq![','] + enc_opt_bool(p.retracted) + seq![']'] + rest,
    ensures
        ({
            let q1 = i + 1 + enc_string(p.dep_version).len();
            let q2 = q1 + 1 + enc_bool(p.dep_optional).len();
            let q3 = q2 + 1 + enc_bool(p.dep_dev_dependency).len();
            let q4 = q3 + 1 + enc_bool(p.is_core_library).len();
            let q5 = q4 + 1 + enc_opt_bool(p.retracted).len();
            &&& sp_c_string(s, i) == Some((p.dep_version, q1))
            &&& sp_c_bool(s, q1) == Some((p.dep_optional, q2))
            &&& sp_c_bool(s, q2) == Some((p.dep_dev_dependency, q3))
            &&& sp_c_bool(s, q3) == Some((p.is_core_library, q4))
            &&& sp_c_opt_bool(s, q4) == Some((p.retracted, q5))
            &&& sp_expect(s, q5, ']') == Some(q5 + 1)
        }),
{
    let t_end = seq![']'] + rest;
    let t16 = seq![','] + enc_opt_bool(p.retracted) + t_end;
    let t15 = seq![','] + enc_bool(p.is_core_library) + t16;
    let t14 = seq![','] + enc_bool(p.dep_dev_dependency) + t15;
    let t13 = seq![','] + enc_bool(p.dep_optional) + t14;
    assert(s.skip(i) =~= seq![','] + (enc_string(p.dep_version) + t13));
    lemma_skip_shift(s, i, seq![','], enc_string(p.dep_version) + t13);
    assert(s[i] == ',');
    lemma_string_round(s, i + 1, p.dep_version, t13);
    lemma_skip_shift(s, i + 1, enc_string(p.dep_version), t13);
    let q1 = i + 1 + enc_string(p.dep_version).len();
    assert(s.skip(q1) =~= seq![','] + (enc_bool(p.dep_optional) + t14));
    lemma_skip_shift(s, q1, seq![','], enc_bool(p.dep_optional) + t14);
    assert(s[q1] == ',');
    lemma_bool_round(s, q1 + 1, p.dep_optional, t14);
    lemma_skip_shift(s, q1 + 1, enc_bool(p.dep_optional), t14);
    let q2 = q1 + 1 + enc_bool(p.dep_optional).len();
    assert(s.skip(q2) =~= seq![','] + (enc_bool(p.dep_dev_dependency) + t15));
    lemma_skip_shift(s, q2, seq![','], enc_bool(p.dep_dev_dependency) + t15);
    assert(s[q2] == ',');
    lemma_bool_round(s, q2 + 1, p.dep_dev_dependency, t15);
    lemma_skip_shift(s, q2 + 1, enc_bool(p.dep_dev_dependency), t15);
    let q3 = q2 + 1 + enc_bool(p.dep_dev_dependency).len();
    assert(s.skip(q3) =~= seq![','] + (enc_bool(p.is_core_library) + t16));
    lemma_skip_shift(s, q3, seq![','], enc_bool(p.is_core_library) + t16);
    assert(s[q3] == ',');
    lemma_bool_round(s, q3 + 1, p.is_core_library, t16);
    lemma_skip_shift(s, q3 + 1, enc_bool(p.is_core_library), t16);
    let q4 = q3 + 1 + enc_bool(p.is_core_library).len();
    assert(s.skip(q4) =~= seq![','] + (enc_opt_bool(p.retracted) + t_end));
    lemma_skip_shift(s, q4, seq![','], enc_opt_bool(p.retracted) + t_end);
    assert(s[q4] == ',');
    lemma_opt_bool_round(s, q4 + 1, p.retracted, t_end);
    lemma_skip_shift(s, q4 + 1, enc_opt_bool(p.retracted), t_end);
    let q5 = q4 + 1 + enc_opt_bool(p.retracted).len();
    assert(s[q5] == ']');
    assert(q5 < s.len());
}

/// A written record's second half, followed by anything, reads back as
/// itself.
#[verifier::rlimit(100)]
#[verifier::spinoff_prover]
proof fn lemma_pkg_tail_round(s: Seq<char>, i: int, p: PkgView, rest: Seq<char>)
    requires
        0 <= i <= s.len(),
        s.skip(i) == enc_pkg_tail(p) + rest,
    ensures
        sp_pkg_tail(s, i) == Some((tail_of(p), i + enc_pkg_tail(p).len())),
{
    let rest2 = seq![','] + enc_string(p.dep_version) + seq![','] + enc_bool(p.dep_optional)
        + seq![','] + enc_bool(p.dep_dev_dependency) + seq![','] + enc_bool(p.is_core_library)
        + seq![','] + enc_opt_bool(p.retracted) + seq![']'] + rest;
    assert(s.skip(i) =~= seq![','] + enc_opt_list(p.categories) + seq![','] + enc_opt_string(
        p.repository,
    ) + seq![','] + enc_opt_string(p.homepage) + seq![','] + enc_opt_string(p.documentation)
        + rest2);
    lemma_pkg_tail_round_a(s, i, p, rest2);
    let p4 = i + 1 + enc_opt_list(p.categories).len() + 1 + enc_opt_string(p.repository).len() + 1
        + enc_opt_string(p.homepage).len() + 1 + enc_opt_string(p.documentation).len();
    lemma_pkg_tail_round_b(s, p4, p, rest);
}

/// A written package record, followed by anything, reads back as itself.
#[verifier::rlimit(100)]
#[verifier::spinoff_prover]
pub proof fn lemma_pkg_round(s: Seq<char>, i: int, p: PkgView, rest: Seq<char>)
    requires
        0 <= i <= s.len(),
        s.skip(i) == enc_pkg(p) + rest,
    ensures
        sp_pkg(s, i) == Some((p, i + enc_pkg(p).len())),
{
    assert(s.skip(i) =~= enc_pkg_head(p) + (enc_pkg_tail(p) + rest));
    lemma_skip_shift(s, i, enc_pkg_head(p), enc_pkg_tail(p) + rest);
    let j = i + enc_pkg_head(p).len();
    assert((enc_pkg_tail(p) + rest)[0] == ',');
    lemma_pkg_head_round(s, i, p, enc_pkg_tail(p) + rest);
    lemma_pkg_tail_round(s, j, p, rest);
    assert(assemble_pkg(head_of(p), tail_of(p)) == p);
}

/// The written form of the records of a snapshot, comma separated.
pub open spec fn enc_pkg_items(ps: Seq<PkgView>) -> Seq<char>
    decreases ps.len(),
{
    if ps.len() == 0 {
        seq![]
    } else if ps.len() == 1 {
        enc_pkg(ps[0])
    } else {
        enc_pkg(ps[0]) + seq![','] + enc_pkg_items(ps.drop_first())
    }
}

/// The written form of a whole snapshot: its records between brackets.
pub open spec fn enc_doc(ps: Seq<PkgView>) -> Seq<char> {
    seq!['['] + enc_pkg_items(ps) + seq![']']
}

/// Reads snapshot records at `i`, up to and past the closing bracket.
pub open spec fn sp_pkg_items(s: Seq<char>, i: int) -> Option<(Seq<PkgView>, int)>
    decreases s.len() - i,
{
    match sp_pkg(s, i) {
        None => None,
        Some(p) => {
            let (v, j) = p;
            if j < s.len() && s[j] == ',' {
                if j + 1 <= i {
                    None
                } else {
                    match sp_pkg_items(s, j + 1) {
                        None => None,
                        Some(q) => Some((seq![v] + q.0, q.1)),
                    }
                }
            } else if j < s.len() && s[j] == ']' {
                Some((seq![v], j + 1))
            } else {
                None
            }
        },
    }
}

/// Reads a whole snapshot document: brackets around the records, with
/// nothing before or after.
pub open spec fn sp_doc(s: Seq<char>) -> Option<Seq<PkgView>> {
    if s.len() == 2 && s[0] == '[' && s[1] == ']' {
        Some(seq![])
    } else if s.len() > 0 && s[0] == '[' {
        match sp_pkg_items(s, 1) {
            Some(p) => {
                if p.1 == s.len() {
                    Some(p.0)
                } else {
                    None
                }
            },
            None => None,
        }
    } else {
        None
    }
}

/// Written snapshot records followed by the closing bracket read back as
/// exactly those records.
#[verifier::rlimit(100)]
#[verifier::spinoff_prover]
proof fn lemma_pkg_items_round(s: Seq<char>, i: int, ps: Seq<PkgView>, rest: Seq<char>)
    requires
        0 <= i <= s.len(),
        ps.len() >= 1,
        s.skip(i) == enc_pkg_items(ps) + seq![']'] + rest,
    ensures
        sp_pkg_items(s, i) == Some((ps, i + enc_pkg_items(ps).len() + 1)),
    decreases ps.len(),
{
    if ps.len() == 1 {
        assert(s.skip(i) =~= enc_pkg(ps[0]) + (seq![']'] + rest));
        lemma_pkg_round(s, i, ps[0], seq![']'] + rest);
        lemma_skip_shift(s, i, enc_pkg(ps[0]), seq![']'] + rest);
        let j = i + enc_pkg(ps[0]).len();
        assert(s[j] == ']');
        assert(seq![ps[0]] =~= ps);
    } else {
        let tail = seq![','] + enc_pkg_items(ps.drop_first()) + seq![']'] + rest;
        assert(s.skip(i) =~= enc_pkg(ps[0]) + tail);
        lemma_pkg_round(s, i, ps[0], tail);
        lemma_skip_shift(s, i, enc_pkg(ps[0]), tail);
        let j = i + enc_pkg(ps[0]).len();
        assert(s[j] == ',');
        assert(s.skip(j + 1) =~= enc_pkg_items(ps.drop_first()) + seq![']'] + rest) by {
            assert forall|m: int| 0 <= m < s.len() - (j + 1) implies s.skip(j + 1)[m] == (
            enc_pkg_items(ps.drop_first()) + seq![']'] + rest)[m] by {
                assert(s.skip(j + 1)[m] == s.skip(j)[m + 1]);
                assert(s.skip(j)[m + 1] == tail[m + 1]);
            };
        };
        lemma_pkg_items_round(s, j + 1, ps.drop_first(), rest);
        assert(seq![ps[0]] + ps.drop_first() =~= ps);
    }
}

/// Law: cache round trip — reading a written snapshot back yields the
/// identical ordered package list, whatever the records hold.
#[verifier::rlimit(100)]
#[verifier::spinoff_prover]
pub proof fn lemma_snapshot_round_trip(ps: Seq<PkgView>)
    ensures
        sp_doc(enc_doc(ps)) == Some(ps),
{
    let s = enc_doc(ps);
    if ps.len() == 0 {
        assert(s =~= seq!['[', ']']);
        assert(s[0] == '[' && s[1] == ']');
    } else {
        assert(s[0] == '[');
        assert(s.skip(1) =~= enc_pkg_items(ps) + seq![']'] + Seq::<char>::empty());
        lemma_pkg_items_round(s, 1, ps, Seq::<char>::empty());
        assert(1 + enc_pkg_items(ps).len() + 1 == s.len());
        assert(enc_pkg_items(ps).len() > 0) by {
            assert(enc_pkg(ps[0]).len() > 0);
        };
        assert(!(s.len() == 2 && s[1] == ']')) by {
            if s.len() == 2 {
                assert(enc_pkg_items(ps).len() == 0);
            }
        };
    }
}

/// The view of an optional string.
pub open spec fn opt_view(o: Option<String>) -> Option<Seq<char>> {
    match o {
        Some(x) => Some(x@),
        None => None,
    }
}

/// Executable form of `hex_char` on the sixteen digits.
fn hex_digit_char(d: u32) -> (c: char)
    requires
        d < 16,
    ensures
        c == hex_char(d as int),
{
    match d {
        0 => '0',
        1 => '1',
        2 => '2',
        3 => '3',
        4 => '4',
        5 => '5',
        6 => '6',
        7 => '7',
        8 => '8',
        9 => '9',
        10 => 'a',
        11 => 'b',
        12 => 'c',
        13 => 'd',
        14 => 'e',
        _ => 'f',
    }
}

/// Appends the written form of one string character.
fn push_esc(out: &mut Vec<char>, c: char)
    ensures
        final(out)@ == old(out)@ + esc(c),
{
    let cu = c as u32;
    if c == '"' {
        out.push('\\');
        out.push('"');
    } else if c == '\\' {
        out.push('\\');
        out.push('\\');
    } else if c == '\n' {
        out.push('\\');
        out.push('n');
    } else if c == '\r' {
        out.push('\\');
        out.push('r');
    } else if c == '\t' {
        out.push('\\');
        out.push('t');
    } else if cu < 32 {
        out.push('\\');
        out.push('u');
        out.push('0');
        out.push('0');
        out.push(hex_digit_char(cu / 16));
        out.push(hex_digit_char(cu % 16));
        assert(out@ =~= old(out)@ + esc(c));
    } else {
        out.push(c);
        assert(out@ =~= old(out)@ + esc(c));
    }
    assert(out@ =~= old(out)@ + esc(c));
}

/// Appends the written form of a string.
fn push_enc_string(out: &mut Vec<char>, s: &String)
    ensures
        final(out)@ == old(out)@ + enc_string(s@),
{
    let v = crate::text::string_to_chars(s.as_str());
    out.push('"');
    let n = v.len();
    let mut i: usize = 0;
    proof {
        assert(v@.skip(0) =~= v@);
        assert(out@ =~= old(out)@ + seq!['"']);
    }
    while i < n
        invariant
            n == v@.len(),
            i <= n,
            out@ + enc_chars(v@.skip(i as int)) == old(out)@ + seq!['"'] + enc_chars(v@),
        decreases n - i,
    {
        proof {
            assert(v@.skip(i as int)[0] == v@[i as int]);
            assert(v@.skip(i as int).drop_first() =~= v@.skip(i + 1));
        }
        push_esc(out, v[i]);
        i += 1;
    }
    proof {
        assert(v@.skip(n as int) =~= Seq::<char>::empty());
    }
    out.push('"');
    assert(out@ =~= old(out)@ + enc_string(s@));
}

/// Appends the written form of a truth value.
fn push_bool(out: &mut Vec<char>, b: bool)
    ensures
        final(out)@ == old(out)@ + enc_bool(b),
{
    if b {
        out.push('t');
        out.push('r');
        out.push('u');
        out.push('e');
    } else {
        out.push('f');
        out.push('a');
        out.push('l');
        out.push('s');
        out.push('e');
    }
    assert(out@ =~= old(out)@ + enc_bool(b));
}

/// Appends the written form of an absent value.
fn push_null(out: &mut Vec<char>)
    ensures
        final(out)@ == old(out)@ + enc_null(),
{
    out.push('n');
    out.push('u');
    out.push('l');
    out.push('l');
    assert(out@ =~= old(out)@ + enc_null());
}

/// Appends the written form of an optional string.
fn push_opt_string(out: &mut Vec<char>, o: &Option<String>)
    ensures
        final(out)@ == old(out)@ + enc_opt_string(opt_view(*o)),
{
    match o {
        Some(s) => push_enc_string(out, s),
        None => push_null(out),
    }
}

/// Appends the written form of an optional truth value.
fn push_opt_bool(out: &mut Vec<char>, o: Option<bool>)
    ensures
        final(out)@ == old(out)@ + enc_opt_bool(o),
{
    match o {
        Some(b) => push_bool(out, b),
        None => push_null(out),
    }
}

/// Appends the written form of an optional string list.
fn push_opt_list(out: &mut Vec<char>, o: &Option<Vec<String>>)
    ensures
        final(out)@ == old(out)@ + enc_opt_list(
            match *o {
                Some(ts) => Some(string_views(ts@)),
                None => None,
            },
        ),
{
    match o {
        None => push_null(out),
        Some(ts) => {
            let ghost tv = string_views(ts@);
            out.push('[');
            let n = ts.len();
            if n == 0 {
                out.push(']');
                proof {
                    assert(tv =~= Seq::<Seq<char>>::empty());
                    assert(out@ =~= old(out)@ + enc_opt_list(Some(tv)));
                }
                return ;
            }
            let mut i: usize = 0;
            proof {
                assert(tv.skip(0) =~= tv);
                assert(out@ =~= old(out)@ + seq!['[']);
            }
            while i < n
                invariant
                    n == ts@.len(),
                    n >= 1,
                    i <= n,
                    tv == string_views(ts@),
                    out@ + enc_str_items(tv.skip(i as int)) == old(out)@ + seq!['[']
                        + enc_str_items(tv),
                decreases n - i,
            {
                proof {
                    assert(tv.skip(i as int)[0] == ts@[i as int]@);
                    assert(tv.skip(i as int).drop_first() =~= tv.skip(i + 1));
                }
                push_enc_string(out, &ts[i]);
                if i + 1 < n {
                    out.push(',');
                }
                i += 1;
            }
            out.push(']');
            proof {
                assert(out@ =~= old(out)@ + enc_opt_list(Some(tv)));
            }
        },
    }
}

/// Appends the written form of a record's first half.
#[verifier::rlimit(100)]
#[verifier::spinoff_prover]
fn push_pkg_head(out: &mut Vec<char>, p: &CratePackage)
    ensures
        final(out)@ == old(out)@ + enc_pkg_head(pkg_view(*p)),
{
    out.push('[');
    push_enc_string(out, &p.id);
    out.push(',');
    push_enc_string(out, &p.name);
    out.push(',');
    push_enc_string(out, &p.description);
    out.push(',');
    push_enc_string(out, &p.version);
    out.push(',');
    push_enc_string(out, &p.created_at);
    out.push(',');
    push_enc_string(out, &p.updated_at);
    out.push(',');
    push_dec(out, p.downloads);
    out.push(',');
    push_dec(out, p.recent_downloads);
    proof {
        assert(out@ =~= old(out)@ + enc_pkg_head(pkg_view(*p)));
    }
}

/// Appends the tags and links of a record's second half.
#[verifier::rlimit(100)]
#[verifier::spinoff_prover]
fn push_pkg_tail_a(out: &mut Vec<char>, p: &CratePackage)
    ensures
        final(out)@ == old(out)@ + (seq![','] + enc_opt_list(pkg_view(*p).categories) + seq![',']
            + enc_opt_string(opt_view(p.repository)) + seq![','] + enc_opt_string(
            opt_view(p.homepage),
        ) + seq![','] + enc_opt_string(opt_view(p.documentation))),
{
    out.push(',');
    push_opt_list(out, &p.categories);
    out.push(',');
    push_opt_string(out, &p.repository);
    out.push(',');
    push_opt_string(out, &p.homepage);
    out.push(',');
    push_opt_string(out, &p.documentation);
    proof {
        assert(out@ =~= old(out)@ + (seq![','] + enc_opt_list(pkg_view(*p).categories) + seq![',']
            + enc_opt_string(opt_view(p.repository)) + seq![','] + enc_opt_string(
            opt_view(p.homepage),
        ) + seq![','] + enc_opt_string(opt_view(p.documentation))));
    }
}

/// Appends the dependency and the flags of a record's second half.
#[verifier::rlimit(100)]
#[verifier::spinoff_prover]
fn push_pkg_tail_b(out: &mut Vec<char>, p: &CratePackage)
    ensures
        final(out)@ == old(out)@ + (seq![','] + enc_string(p.ratatui_dependency.version@)
            + seq![','] + enc_bool(p.ratatui_dependency.optional) + seq![','] + enc_bool(
            p.ratatui_dependency.dev_dependency,
        ) + seq![','] + enc_bool(p.is_core_library) + seq![','] + enc_opt_bool(p.retracted)
            + seq![']']),
{
    out.push(',');
    push_enc_string(out, &p.ratatui_dependency.version);
    out.push(',');
    push_bool(out, p.ratatui_dependency.optional);
    out.push(',');
    push_bool(out, p.ratatui_dependency.dev_dependency);
    out.push(',');
    push_bool(out, p.is_core_library);
    out.push(',');
    push_opt_bool(out, p.retracted);
    out.push(']');
    proof {
        assert(out@ =~= old(out)@ + (seq![','] + enc_string(p.ratatui_dependency.version@)
            + seq![','] + enc_bool(p.ratatui_dependency.optional) + seq![','] + enc_bool(
            p.ratatui_dependency.dev_dependency,
        ) + seq![','] + enc_bool(p.is_core_library) + seq![','] + enc_opt_bool(p.retracted)
            + seq![']']));
    }
}

/// Appends the written form of a record's second half.
#[verifier::rlimit(100)]
#[verifier::spinoff_prover]
fn push_pkg_tail(out: &mut Vec<char>, p: &CratePackage)
    ensures
        final(out)@ == old(out)@ + enc_pkg_tail(pkg_view(*p)),
{
    push_pkg_tail_a(out, p);
    push_pkg_tail_b(out, p);
    proof {
        assert(out@ =~= old(out)@ + enc_pkg_tail(pkg_view(*p)));
    }
}

/// Appends the written form of one package record.
fn push_pkg(out: &mut Vec<char>, p: &CratePackage)
    ensures
        final(out)@ == old(out)@ + enc_pkg(pkg_view(*p)),
{
    push_pkg_head(out, p);
    push_pkg_tail(out, p);
    proof {
        assert(out@ =~= old(out)@ + enc_pkg(pkg_view(*p)));
    }
}

/// The written form of a whole snapshot, as a string: the cache document.
pub fn encode_snapshot(pkgs: &Vec<CratePackage>) -> (r: String)
    ensures
        r@ == enc_doc(pkg_views(pkgs@)),
{
    let ghost pv = pkg_views(pkgs@);
    let mut out: Vec<char> = Vec::new();
    out.push('[');
    let n = pkgs.len();
    if n == 0 {
        out.push(']');
        proof {
            assert(pv =~= Seq::<PkgView>::empty());
            assert(out@ =~= enc_doc(pv));
        }
        return crate::text::chars_to_string(&out);
    }
    let mut i: usize = 0;
    proof {
        assert(pv.skip(0) =~= pv);
        assert(out@ =~= seq!['[']);
    }
    while i < n
        invariant
            n == pkgs@.len(),
            n >= 1,
            i <= n,
            pv == pkg_views(pkgs@),
            out@ + enc_pkg_items(pv.skip(i as int)) == seq!['['] + enc_pkg_items(pv),
        decreases n - i,
    {
        proof {
            assert(pv.skip(i as int)[0] == pkg_view(pkgs@[i as int]));
            assert(pv.skip(i as int).drop_first() =~= pv.skip(i + 1));
        }
        push_pkg(&mut out, &pkgs[i]);
        if i + 1 < n {
            out.push(',');
        }
        i += 1;
    }
    out.push(']');
    proof {
        assert(out@ =~= enc_doc(pv));
    }
    crate::text::chars_to_string(&out)
}

/// One character prepended to an exec parse result.
fn cons_char(c: char, r: Option<(Vec<char>, usize)>) -> (r2: Option<(Vec<char>, usize)>)
    ensures
        match r2 {
            Some(p) => r matches Some(q) && p.0@ == seq![c] + q.0@ && p.1 == q.1,
            None => r is None,
        },
{
    match r {
        None => None,
        Some((v, j)) => {
            let ghost v0 = v@;
            let mut v = v;
            v.insert(0, c);
            proof {
                assert(v@ =~= seq![c] + v0);
            }
            Some((v, j))
        },
    }
}

/// Reads string characters, exactly as `sp_chars` says.
fn parse_chars(s: &Vec<char>, i: usize) -> (r: Option<(Vec<char>, usize)>)
    ensures
        match r {
            Some(p) => sp_chars(s@, i as int) == Some((p.0@, p.1 as int)) && i < p.1 <= s@.len(),
            None => sp_chars(s@, i as int) is None,
        },
    decreases s@.len() - i,
{
    if i >= s.len() {
        return None;
    }
    let c = s[i];
    if c == '"' {
        let v: Vec<char> = Vec::new();
        proof {
            assert(v@ =~= Seq::<char>::empty());
        }
        return Some((v, i + 1));
    }
    if c == '\\' {
        if i + 1 >= s.len() {
            return None;
        }
        let e = s[i + 1];
        if e == '"' {
            cons_char('"', parse_chars(s, i + 2))
        } else if e == '\\' {
            cons_char('\\', parse_chars(s, i + 2))
        } else if e == 'n' {
            cons_char('\n', parse_chars(s, i + 2))
        } else if e == 'r' {
            cons_char('\r', parse_chars(s, i + 2))
        } else if e == 't' {
            cons_char('\t', parse_chars(s, i + 2))
        } else if e == 'u' {
            if s.len() - i < 6 {
                return None;
            }
            let h1 = s[i + 4] as u32;
            let h2 = s[i + 5] as u32;
            let hex1 = (48 <= h1 && h1 <= 57) || (97 <= h1 && h1 <= 102);
            let hex2 = (48 <= h2 && h2 <= 57) || (97 <= h2 && h2 <= 102);
            if s[i + 2] == '0' && s[i + 3] == '0' && hex1 && hex2 {
                let v1: u32 = if h1 <= 57 {
                    h1 - 48
                } else {
                    h1 - 87
                };
                let v2: u32 = if h2 <= 57 {
                    h2 - 48
                } else {
                    h2 - 87
                };
                let code: u32 = v1 * 16 + v2;
                let ch = (code as u8) as char;
                proof {
                    assert(v1 == hex_val(s@[i + 4]));
                    assert(v2 == hex_val(s@[i + 5]));
                    assert(code < 256);
                    assert(ch == (code as char));
                }
                cons_char(ch, parse_chars(s, i + 6))
            } else {
                None
            }
        } else {
            None
        }
    } else {
        cons_char(c, parse_chars(s, i + 1))
    }
}

/// Reads a quoted string, exactly as `sp_string` says.
fn parse_string(s: &Vec<char>, i: usize) -> (r: Option<(String, usize)>)
    ensures
        match r {
            Some(p) => sp_string(s@, i as int) == Some((p.0@, p.1 as int)) && i < p.1 <= s@.len(),
            None => sp_string(s@, i as int) is None,
        },
{
    if i < s.len() && s[i] == '"' {
        match parse_chars(s, i + 1) {
            Some((v, j)) => Some((crate::text::chars_to_string(&v), j)),
            None => None,
        }
    } else {
        None
    }
}

/// The guard `acc <= (u64::MAX - d) / 10` decides whether `acc * 10 + d`
/// still fits.
proof fn lemma_u64_digit_step(acc: int, d: int)
    requires
        0 <= d <= 9,
        0 <= acc,
    ensures
        (acc <= (u64::MAX - d) / 10) <==> (acc * 10 + d <= u64::MAX),
{
    let m = u64::MAX - d;
    vstd::arithmetic::div_mod::lemma_fundamental_div_mod(m, 10);
    let q = m / 10;
    if acc <= q {
        assert(acc * 10 <= q * 10) by (nonlinear_arith)
            requires
                acc <= q,
        ;
    } else {
        assert(acc * 10 >= (q + 1) * 10) by (nonlinear_arith)
            requires
                acc >= q + 1,
        ;
    }
}

/// Reads an unsigned count, exactly as `sp_u64` says.
#[verifier::rlimit(50)]
fn parse_u64(s: &Vec<char>, i: usize) -> (r: Option<(u64, usize)>)
    ensures
        match r {
            Some(p) => sp_u64(s@, i as int) == Some((p.0, p.1 as int)) && i < p.1 <= s@.len(),
            None => sp_u64(s@, i as int) is None,
        },
{
    let n = s.len();
    if i >= n {
        return None;
    }
    let mut j: usize = i;
    while j < n && s[j] as u32 >= 48 && s[j] as u32 <= 57
        invariant
            i <= j <= n,
            n == s@.len(),
            forall|m: int| i <= m < j ==> is_digit(s@[m]),
        decreases n - j,
    {
        j += 1;
    }
    proof {
        lemma_sp_digits_end(s@, i as int, j as int);
    }
    if j == i {
        return None;
    }
    let ghost run = s@.subrange(i as int, j as int);
    proof {
        assert(all_digits(run));
        assert(run.len() == j - i);
    }
    let mut acc: u64 = 0;
    let mut m: usize = i;
    while m < j
        invariant
            i <= m <= j <= n,
            n == s@.len(),
            run == s@.subrange(i as int, j as int),
            all_digits(run),
            sp_digits_end(s@, i as int) == j as int,
            forall|k: int| i <= k < j ==> is_digit(s@[k]),
            acc == digits_val(run.take(m - i)),
        decreases j - m,
    {
        let cu = s[m] as u32;
        let d = (cu - 48) as u64;
        proof {
            assert(run[m - i] == s@[m as int]);
            assert(is_digit(s@[m as int]));
            assert(run.take(m + 1 - i).drop_last() =~= run.take(m - i));
            assert(run.take(m + 1 - i).last() == s@[m as int]);
            lemma_u64_digit_step(acc as int, d as int);
        }
        if acc > (u64::MAX - d) / 10 {
            proof {
                assert(digits_val(run.take(m + 1 - i)) == acc * 10 + d);
                crate::text::lemma_digits_val_grows(run, m + 1 - i);
                assert(run.take(run.len() as int) =~= run);
                assert(digits_val(run) > u64::MAX);
            }
            return None;
        }
        acc = acc * 10 + d;
        m += 1;
    }
    proof {
        assert(run.take(run.len() as int) =~= run);
    }
    Some((acc, j))
}

/// Reads a truth value, exactly as `sp_bool` says.
fn parse_bool(s: &Vec<char>, i: usize) -> (r: Option<(bool, usize)>)
    ensures
        match r {
            Some(p) => sp_bool(s@, i as int) == Some((p.0, p.1 as int)) && i < p.1 <= s@.len(),
            None => sp_bool(s@, i as int) is None,
        },
{
    if i < s.len() && s.len() - i >= 4 && s[i] == 't' && s[i + 1] == 'r' && s[i + 2] == 'u' && s[i
        + 3] == 'e' {
        Some((true, i + 4))
    } else if i < s.len() && s.len() - i >= 5 && s[i] == 'f' && s[i + 1] == 'a' && s[i + 2] == 'l'
        && s[i + 3] == 's' && s[i + 4] == 'e' {
        Some((false, i + 5))
    } else {
        None
    }
}

/// Whether an absent value is written at `i`, exactly as `sp_is_null` says.
fn parse_is_null(s: &Vec<char>, i: usize) -> (b: bool)
    ensures
        b == sp_is_null(s@, i as int),
{
    i < s.len() && s.len() - i >= 4 && s[i] == 'n' && s[i + 1] == 'u' && s[i + 2] == 'l' && s[i + 3]
        == 'l'
}

/// Reads an optional string, exactly as `sp_opt_string` says.
fn parse_opt_string(s: &Vec<char>, i: usize) -> (r: Option<(Option<String>, usize)>)
    ensures
        match r {
            Some(p) => sp_opt_string(s@, i as int) == Some((opt_view(p.0), p.1 as int)) && i < p.1
                <= s@.len(),
            None => sp_opt_string(s@, i as int) is None,
        },
{
    let _len = s.len();
    if parse_is_null(s, i) {
        Some((None, i + 4))
    } else {
        match parse_string(s, i) {
            Some((v, j)) => Some((Some(v), j)),
            None => None,
        }
    }
}

/// Reads an optional truth value, exactly as `sp_opt_bool` says.
fn parse_opt_bool(s: &Vec<char>, i: usize) -> (r: Option<(Option<bool>, usize)>)
    ensures
        match r {
            Some(p) => sp_opt_bool(s@, i as int) == Some((p.0, p.1 as int)) && i < p.1 <= s@.len(),
            None => sp_opt_bool(s@, i as int) is None,
        },
{
    let _len = s.len();
    if parse_is_null(s, i) {
        Some((None, i + 4))
    } else {
        match parse_bool(s, i) {
            Some((v, j)) => Some((Some(v), j)),
            None => None,
        }
    }
}

/// Reads string-list items, exactly as `sp_str_items` says.
fn parse_str_items(s: &Vec<char>, i: usize) -> (r: Option<(Vec<String>, usize)>)
    ensures
        match r {
            Some(p) => sp_str_items(s@, i as int) == Some((string_views(p.0@), p.1 as int)) && i
                < p.1 <= s@.len(),
            None => sp_str_items(s@, i as int) is None,
        },
    decreases s@.len() - i,
{
    match parse_string(s, i) {
        None => None,
        Some((v, j)) => {
            if j < s.len() && s[j] == ',' {
                match parse_str_items(s, j + 1) {
                    None => None,
                    Some((vs, k)) => {
                        let ghost vs0 = vs@;
                        let mut vs = vs;
                        vs.insert(0, v);
                        proof {
                            assert(string_views(vs@) =~= seq![vs@[0]@] + string_views(vs0));
                        }
                        Some((vs, k))
                    },
                }
            } else if j < s.len() && s[j] == ']' {
                let mut vs: Vec<String> = Vec::new();
                let ghost gv = v@;
                vs.push(v);
                proof {
                    assert(string_views(vs@) =~= seq![gv]);
                }
                Some((vs, j + 1))
            } else {
                None
            }
        },
    }
}

/// Reads an optional string list, exactly as `sp_opt_list` says.
fn parse_opt_list(s: &Vec<char>, i: usize) -> (r: Option<(Option<Vec<String>>, usize)>)
    ensures
        match r {
            Some(p) => sp_opt_list(s@, i as int) == Some(
                (
                    match p.0 {
                        Some(ts) => Some(string_views(ts@)),
                        None => None,
                    },
                    p.1 as int,
                ),
            ) && i < p.1 <= s@.len(),
            None => sp_opt_list(s@, i as int) is None,
        },
{
    let n = s.len();
    if parse_is_null(s, i) {
        Some((None, i + 4))
    } else if i < n && n - i >= 2 && s[i] == '[' && s[i + 1] == ']' {
        let vs: Vec<String> = Vec::new();
        proof {
            assert(string_views(vs@) =~= Seq::<Seq<char>>::empty());
        }
        Some((Some(vs), i + 2))
    } else if i < s.len() && s[i] == '[' {
        match parse_str_items(s, i + 1) {
            Some((vs, j)) => Some((Some(vs), j)),
            None => None,
        }
    } else {
        None
    }
}

/// Reads one expected character, exactly as `sp_expect` says.
fn expect_char(s: &Vec<char>, i: usize, c: char) -> (r: Option<usize>)
    ensures
        match r {
            Some(j) => sp_expect(s@, i as int, c) == Some(j as int) && j == i + 1 && i < s@.len(),
            None => sp_expect(s@, i as int, c) is None,
        },
{
    if i < s.len() && s[i] == c {
        Some(i + 1)
    } else {
        None
    }
}

/// Reads a comma, then a string, exactly as `sp_c_string` says.
fn parse_c_string(s: &Vec<char>, i: usize) -> (r: Option<(String, usize)>)
    ensures
        match r {
            Some(p) => sp_c_string(s@, i as int) == Some((p.0@, p.1 as int)) && i < p.1
                <= s@.len(),
            None => sp_c_string(s@, i as int) is None,
        },
{
    match expect_char(s, i, ',') {
        Some(j) => parse_string(s, j),
        None => None,
    }
}

/// Reads a comma, then a count, exactly as `sp_c_u64` says.
fn parse_c_u64(s: &Vec<char>, i: usize) -> (r: Option<(u64, usize)>)
    ensures
        match r {
            Some(p) => sp_c_u64(s@, i as int) == Some((p.0, p.1 as int)) && i < p.1 <= s@.len(),
            None => sp_c_u64(s@, i as int) is None,
        },
{
    match expect_char(s, i, ',') {
        Some(j) => parse_u64(s, j),
        None => None,
    }
}

/// Reads a comma, then a truth value, exactly as `sp_c_bool` says.
fn parse_c_bool(s: &Vec<char>, i: usize) -> (r: Option<(bool, usize)>)
    ensures
        match r {
            Some(p) => sp_c_bool(s@, i as int) == Some((p.0, p.1 as int)) && i < p.1 <= s@.len(),
            None => sp_c_bool(s@, i as int) is None,
        },
{
    match expect_char(s, i, ',') {
        Some(j) => parse_bool(s, j),
        None => None,
    }
}

/// Reads a comma, then an optional string, exactly as `sp_c_opt_string`
/// says.
fn parse_c_opt_string(s: &Vec<char>, i: usize) -> (r: Option<(Option<String>, usize)>)
    ensures
        match r {
            Some(p) => sp_c_opt_string(s@, i as int) == Some((opt_view(p.0), p.1 as int)) && i
                < p.1 <= s@.len(),
            None => sp_c_opt_string(s@, i as int) is None,
        },
{
    match expect_char(s, i, ',') {
        Some(j) => parse_opt_string(s, j),
        None => None,
    }
}

/// Reads a comma, then an optional truth value, exactly as `sp_c_opt_bool`
/// says.
fn parse_c_opt_bool(s: &Vec<char>, i: usize) -> (r: Option<(Option<bool>, usize)>)
    ensures
        match r {
            Some(p) => sp_c_opt_bool(s@, i as int) == Some((p.0, p.1 as int)) && i < p.1
                <= s@.len(),
            None => sp_c_opt_bool(s@, i as int) is None,
        },
{
    match expect_char(s, i, ',') {
        Some(j) => parse_opt_bool(s, j),
        None => None,
    }
}

/// Reads a comma, then an optional string list, exactly as `sp_c_opt_list`
/// says.
fn parse_c_opt_list(s: &Vec<char>, i: usize) -> (r: Option<(Option<Vec<String>>, usize)>)
    ensures
        match r {
            Some(p) => sp_c_opt_list(s@, i as int) == Some(
                (
                    match p.0 {
                        Some(ts) => Some(string_views(ts@)),
                        None => None,
                    },
                    p.1 as int,
                ),
            ) && i < p.1 <= s@.len(),
            None => sp_c_opt_list(s@, i as int) is None,
        },
{
    match expect_char(s, i, ',') {
        Some(j) => parse_opt_list(s, j),
        None => None,
    }
}

/// Reads one package record, exactly as `sp_pkg` says.
#[verifier::rlimit(100)]
#[verifier::spinoff_prover]
fn parse_pkg(s: &Vec<char>, i: usize) -> (r: Option<(CratePackage, usize)>)
    ensures
        match r {
            Some(p) => sp_pkg(s@, i as int) == Some((pkg_view(p.0), p.1 as int)) && i < p.1
                <= s@.len(),
            None => sp_pkg(s@, i as int) is None,
        },
{
    let i0 = match expect_char(s, i, '[') {
        Some(j) => j,
        None => {
            return None;
        },
    };
    let (id, i1) = match parse_string(s, i0) {
        Some(p) => p,
        None => {
            return None;
        },
    };
    let (name, i2) = match parse_c_string(s, i1) {
        Some(p) => p,
        None => {
            return None;
        },
    };
    let (description, i3) = match parse_c_string(s, i2) {
        Some(p) => p,
        None => {
            return None;
        },
    };
    let (version, i4) = match parse_c_string(s, i3) {
        Some(p) => p,
        None => {
            return None;
        },
    };
    let (created_at, i5) = match parse_c_string(s, i4) {
        Some(p) => p,
        None => {
            return None;
        },
    };
    let (updated_at, i6) = match parse_c_string(s, i5) {
        Some(p) => p,
        None => {
            return None;
        },
    };
    let (downloads, i7) = match parse_c_u64(s, i6) {
        Some(p) => p,
        None => {
            return None;
        },
    };
    let (recent_downloads, i8) = match parse_c_u64(s, i7) {
        Some(p) => p,
        None => {
            return None;
        },
    };
    let (categories, i9) = match parse_c_opt_list(s, i8) {
        Some(p) => p,
        None => {
            return None;
        },
    };
    let (repository, i10) = match parse_c_opt_string(s, i9) {
        Some(p) => p,
        None => {
            return None;
        },
    };
    let (homepage, i11) = match parse_c_opt_string(s, i10) {
        Some(p) => p,
        None => {
            return None;
        },
    };
    let (documentation, i12) = match parse_c_opt_string(s, i11) {
        Some(p) => p,
        None => {
            return None;
        },
    };
    let (dep_version, i13) = match parse_c_string(s, i12) {
        Some(p) => p,
        None => {
            return None;
        },
    };
    let (dep_optional, i14) = match parse_c_bool(s, i13) {
        Some(p) => p,
        None => {
            return None;
        },
    };
    let (dep_dev_dependency, i15) = match parse_c_bool(s, i14) {
        Some(p) => p,
        None => {
            return None;
        },
    };
    let (is_core_library, i16) = match parse_c_bool(s, i15) {
        Some(p) => p,
        None => {
            return None;
        },
    };
    let (retracted, i17) = match parse_c_opt_bool(s, i16) {
        Some(p) => p,
        None => {
            return None;
        },
    };
    let end = match expect_char(s, i17, ']') {
        Some(j) => j,
        None => {
            return None;
        },
    };
    let pkg = CratePackage {
        id,
        name,
        description,
        version,
        created_at,
        updated_at,
        downloads,
        recent_downloads,
        categories,
        repository,
        homepage,
        documentation,
        ratatui_dependency: crate::types::RatatuiDependency {
            version: dep_version,
            optional: dep_optional,
            dev_dependency: dep_dev_dependency,
        },
        is_core_library,
        retracted,
    };
    Some((pkg, end))
}

/// Reads snapshot records, exactly as `sp_pkg_items` says.
fn parse_pkg_items(s: &Vec<char>, i: usize) -> (r: Option<(Vec<CratePackage>, usize)>)
    ensures
        match r {
            Some(p) => sp_pkg_items(s@, i as int) == Some((pkg_views(p.0@), p.1 as int)) && i < p.1
                <= s@.len(),
            None => sp_pkg_items(s@, i as int) is None,
        },
    decreases s@.len() - i,
{
    match parse_pkg(s, i) {
        None => None,
        Some((v, j)) => {
            if j < s.len() && s[j] == ',' {
                match parse_pkg_items(s, j + 1) {
                    None => None,
                    Some((vs, k)) => {
                        let ghost vs0 = vs@;
                        let mut vs = vs;
                        vs.insert(0, v);
                        proof {
                            assert(pkg_views(vs@) =~= seq![pkg_view(vs@[0])] + pkg_views(vs0));
                        }
                        Some((vs, k))
                    },
                }
            } else if j < s.len() && s[j] == ']' {
                let ghost gv = pkg_view(v);
                let mut vs: Vec<CratePackage> = Vec::new();
                vs.push(v);
                proof {
                    assert(pkg_views(vs@) =~= seq![gv]);
                }
                Some((vs, j + 1))
            } else {
                None
            }
        },
    }
}

/// Reads a whole snapshot document back, exactly as `sp_doc` says: the
/// ordered package list, or nothing when the text is not a written
/// snapshot.
pub fn decode_snapshot(s: &str) -> (r: Option<Vec<CratePackage>>)
    ensures
        match r {
            Some(ps) => sp_doc(s@) == Some(pkg_views(ps@)),
            None => sp_doc(s@) is None,
        },
{
    let v = crate::text::string_to_chars(s);
    let n = v.len();
    if n == 2 && v[0] == '[' && v[1] == ']' {
        let ps: Vec<CratePackage> = Vec::new();
        proof {
            assert(pkg_views(ps@) =~= Seq::<PkgView>::empty());
        }
        return Some(ps);
    }
    if n > 0 && v[0] == '[' {
        match parse_pkg_items(&v, 1) {
            Some((ps, e)) => {
                if e == n {
                    Some(ps)
                } else {
                    None
                }
            },
            None => None,
        }
    } else {
        None
    }
}

} // verus!
