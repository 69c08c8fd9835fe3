//! Character and string helpers: decimal rendering of counters, the
//! human-readable download counts, substring search, tokenizing of typed
//! commands, and lexicographic comparison. All of it works on `Vec<char>`
//! and `String`, whose views are sequences of characters.

use vstd::prelude::*;
use vstd::string::StrSliceExecFns;

verus! {

/// The character of one decimal digit.
pub open spec fn spec_digit_char(d: int) -> char {
    if d == 0 {
        '0'
    } else if d == 1 {
        '1'
    } else if d == 2 {
        '2'
    } else if d == 3 {
        '3'
    } else if d == 4 {
        '4'
    } else if d == 5 {
        '5'
    } else if d == 6 {
        '6'
    } else if d == 7 {
        '7'
    } else if d == 8 {
        '8'
    } else {
        '9'
    }
}

/// The decimal rendering of a number, most significant digit first, with no
/// leading zeros (and `0` rendered as one digit).
pub open spec fn dec_str(n: int) -> Seq<char>
    decreases n,
{
    if n < 10 {
        seq![spec_digit_char(n)]
    } else {
        dec_str(n / 10).push(spec_digit_char(n % 10))
    }
}

/// Executable form of `spec_digit_char` on the digits.
pub fn digit_char(d: u64) -> (c: char)
    requires
        d < 10,
    ensures
        c == spec_digit_char(d as int),
{
    match d {
        0 => '0',
        1 => '1',
        2 => '2',
        3 => '3',
        4 => '4',
        5 => '5',
        6 => '6',
        7 => '7',
        8 => '8',
        _ => '9',
    }
}

/// Appends the decimal rendering of `n` to `out`.
pub fn push_dec(out: &mut Vec<char>, n: u64)
    ensures
        final(out)@ == old(out)@ + dec_str(n as int),
    decreases n,
{
    if n < 10 {
        out.push(digit_char(n));
    } else {
        push_dec(out, n / 10);
        out.push(digit_char(n % 10));
    }
}

/// Relies on std's `FromIterator` for `String`: collecting characters
/// yields the string of exactly those characters, in order.
#[verifier::external_body]
pub(crate) fn chars_to_string(v: &Vec<char>) -> (s: String)
    ensures
        s@ == v@,
{
    v.iter().collect()
}

/// The characters of a string slice, as a vector.
pub fn string_to_chars(s: &str) -> (v: Vec<char>)
    ensures
        v@ == s@,
{
    let n = s.unicode_len();
    let mut v: Vec<char> = Vec::new();
    for i in 0..n
        invariant
            n == s@.len(),
            v@ == s@.take(i as int),
    {
        v.push(s.get_char(i));
        assert(v@ =~= s@.take(i + 1));
    }
    assert(v@ =~= s@);
    v
}

/// The decimal rendering of a counter, as a string.
pub fn u64_to_string(n: u64) -> (s: String)
    ensures
        s@ == dec_str(n as int),
{
    let mut out: Vec<char> = Vec::new();
    push_dec(&mut out, n);
    chars_to_string(&out)
}

/// The compact rendering of a download count: tenths of millions with an
/// `M` suffix from one million up, tenths of thousands with a `K` suffix
/// from one thousand up, the plain decimal below that. Tenths are rounded
/// half-up.
pub open spec fn spec_format_number(n: int) -> Seq<char> {
    if n >= 1000000 {
        spec_tenths_str(n / 100000 + if n % 100000 >= 50000 {
            1int
        } else {
            0int
        }).push('M')
    } else if n >= 1000 {
        spec_tenths_str(n / 100 + if n % 100 >= 50 {
            1int
        } else {
            0int
        }).push('K')
    } else {
        dec_str(n)
    }
}

/// A quantity of tenths rendered as `whole.tenth`.
pub open spec fn spec_tenths_str(tenths: int) -> Seq<char> {
    dec_str(tenths / 10).push('.').push(spec_digit_char(tenths % 10))
}

/// Appends `whole.tenth` for a quantity of tenths.
fn push_tenths(out: &mut Vec<char>, tenths: u64)
    ensures
        final(out)@ == old(out)@ + spec_tenths_str(tenths as int),
{
    push_dec(out, tenths / 10);
    out.push('.');
    out.push(digit_char(tenths % 10));
}

/// Renders a download count compactly, as `spec_format_number` says.
pub fn format_number(n: u64) -> (s: String)
    ensures
        s@ == spec_format_number(n as int),
{
    let mut out: Vec<char> = Vec::new();
    if n >= 1000000 {
        let tenths = n / 100000 + if n % 100000 >= 50000 {
            1
        } else {
            0
        };
        push_tenths(&mut out, tenths);
        out.push('M');
    } else if n >= 1000 {
        let tenths = n / 100 + if n % 100 >= 50 {
            1
        } else {
            0
        };
        push_tenths(&mut out, tenths);
        out.push('K');
    } else {
        push_dec(&mut out, n);
    }
    chars_to_string(&out)
}

/// What `str::to_lowercase` returns for given characters: the same on every
/// call and every machine, so the result carries a name the contracts can
/// share.
pub uninterp spec fn lower_of(s: Seq<char>) -> Seq<char>;

/// Relies on `str::to_lowercase`: the lowercase equivalent depends on the
/// characters alone, and of the empty string it is empty.
#[verifier::external_body]
pub(crate) fn lowercase(s: &String) -> (r: String)
    ensures
        r@ == lower_of(s@),
        s@.len() == 0 ==> r@.len() == 0,
{
    s.to_lowercase()
}

/// Whether `needle` occurs in `hay` starting at position `i`.
pub open spec fn spec_contains_at(hay: Seq<char>, needle: Seq<char>, i: int) -> bool {
    0 <= i && i + needle.len() <= hay.len() && hay.subrange(i, i + needle.len()) == needle
}

/// Whether `needle` occurs anywhere in `hay` (the empty needle always does).
pub open spec fn spec_contains(hay: Seq<char>, needle: Seq<char>) -> bool {
    exists|i: int| spec_contains_at(hay, needle, i)
}

/// Whether `needle` occurs at position `i` of `hay`, by direct comparison.
fn matches_at(hay: &Vec<char>, needle: &Vec<char>, i: usize) -> (b: bool)
    requires
        i + needle@.len() <= hay@.len(),
    ensures
        b == spec_contains_at(hay@, needle@, i as int),
{
    let hn = hay.len();
    let mut j: usize = 0;
    while j < needle.len()
        invariant
            j <= needle@.len(),
            i + needle@.len() <= hay@.len(),
            hn == hay@.len(),
            forall|k: int| 0 <= k < j ==> hay@[i + k] == needle@[k],
        decreases needle@.len() - j,
    {
        if hay[i + j] != needle[j] {
            assert(hay@.subrange(i as int, i + needle@.len())[j as int] != needle@[j as int]);
            return false;
        }
        j += 1;
    }
    assert(hay@.subrange(i as int, i + needle@.len()) =~= needle@);
    true
}

/// Substring search: whether `needle` occurs anywhere in `hay`.
pub fn contains_chars(hay: &Vec<char>, needle: &Vec<char>) -> (b: bool)
    ensures
        b == spec_contains(hay@, needle@),
{
    if needle.len() == 0 {
        assert(hay@.subrange(0, 0) =~= needle@);
        assert(spec_contains_at(hay@, needle@, 0));
        return true;
    }
    if needle.len() > hay.len() {
        assert(forall|i: int| !spec_contains_at(hay@, needle@, i));
        return false;
    }
    let hn = hay.len();
    let last = hn - needle.len();
    let mut i: usize = 0;
    while i <= last
        invariant
            hn == hay@.len(),
            needle@.len() >= 1,
            last == hay@.len() - needle@.len(),
            i <= last + 1,
            forall|k: int| 0 <= k < i ==> !spec_contains_at(hay@, needle@, k),
        decreases last + 1 - i,
    {
        if matches_at(hay, needle, i) {
            return true;
        }
        i += 1;
    }
    assert(forall|k: int| k > last ==> !spec_contains_at(hay@, needle@, k));
    false
}

/// Whether a character vector spells exactly the given string.
pub fn chars_eq_str(v: &Vec<char>, s: &str) -> (b: bool)
    ensures
        b == (v@ == s@),
{
    let sv = string_to_chars(s);
    if v.len() != sv.len() {
        return false;
    }
    let n = v.len();
    for i in 0..n
        invariant
            n == v@.len(),
            n == sv@.len(),
            sv@ == s@,
            forall|k: int| 0 <= k < i ==> v@[k] == sv@[k],
    {
        if v[i] != sv[i] {
            return false;
        }
    }
    assert(v@ =~= sv@);
    true
}

/// Relies on `String::push`: appends exactly one character.
#[verifier::external_body]
pub(crate) fn push_char(s: &mut String, c: char)
    ensures
        final(s)@ == old(s)@.push(c),
{
    s.push(c)
}

/// The string with its last character removed (the empty string stays
/// empty), as typing backspace does.
pub fn drop_last_char(s: &String) -> (r: String)
    ensures
        s@.len() == 0 ==> r@ == Seq::<char>::empty(),
        s@.len() > 0 ==> r@ == s@.drop_last(),
{
    let mut v = string_to_chars(s.as_str());
    if v.len() > 0 {
        let _last = v.pop();
        proof {
            assert(v@ =~= s@.drop_last());
        }
    } else {
        proof {
            assert(v@ =~= Seq::<char>::empty());
        }
    }
    chars_to_string(&v)
}

/// The whitespace that separates typed command words.
pub open spec fn is_ws(c: char) -> bool {
    c == ' ' || c == '\t' || c == '\n' || c == '\r'
}

/// Executable form of `is_ws`.
pub fn is_ws_char(c: char) -> (b: bool)
    ensures
        b == is_ws(c),
{
    c == ' ' || c == '\t' || c == '\n' || c == '\r'
}

/// The words still to come when `s` remains to be scanned and `cur` holds
/// the partially read word.
pub open spec fn spec_split_ws_acc(s: Seq<char>, cur: Seq<char>) -> Seq<Seq<char>>
    decreases s.len(),
{
    if s.len() == 0 {
        if cur.len() == 0 {
            seq![]
        } else {
            seq![cur]
        }
    } else if is_ws(s[0]) {
        if cur.len() == 0 {
            spec_split_ws_acc(s.drop_first(), seq![])
        } else {
            seq![cur] + spec_split_ws_acc(s.drop_first(), seq![])
        }
    } else {
        spec_split_ws_acc(s.drop_first(), cur.push(s[0]))
    }
}

/// The words of a string, in order: maximal runs of non-whitespace.
pub open spec fn spec_split_ws(s: Seq<char>) -> Seq<Seq<char>> {
    spec_split_ws_acc(s, seq![])
}

/// The views of a sequence of character vectors.
pub open spec fn views_of(ts: Seq<Vec<char>>) -> Seq<Seq<char>> {
    Seq::new(ts.len(), |i: int| ts[i]@)
}

/// The words of a character vector, in order.
pub fn split_ws(v: &Vec<char>) -> (r: Vec<Vec<char>>)
    ensures
        views_of(r@) == spec_split_ws(v@),
{
    let n = v.len();
    let mut r: Vec<Vec<char>> = Vec::new();
    let mut cur: Vec<char> = Vec::new();
    let mut i: usize = 0;
    proof {
        assert(views_of(r@) =~= Seq::<Seq<char>>::empty());
        assert(v@.skip(0) =~= v@);
    }
    while i < n
        invariant
            n == v@.len(),
            i <= n,
            spec_split_ws(v@) == views_of(r@) + spec_split_ws_acc(v@.skip(i as int), cur@),
        decreases n - i,
    {
        let c = v[i];
        proof {
            assert(v@.skip(i as int)[0] == v@[i as int]);
            assert(v@.skip(i as int).drop_first() =~= v@.skip(i + 1));
        }
        if is_ws_char(c) {
            if cur.len() > 0 {
                let ghost r_old = r@;
                let ghost cur_old = cur@;
                let done = cur;
                cur = Vec::new();
                r.push(done);
                proof {
                    assert(cur@ =~= seq![]);
                    assert(views_of(r@) =~= views_of(r_old).push(cur_old));
                    assert(views_of(r_old) + (seq![cur_old] + spec_split_ws_acc(
                        v@.skip(i + 1),
                        seq![],
                    )) =~= views_of(r@) + spec_split_ws_acc(v@.skip(i + 1), seq![]));
                }
            } else {
                proof {
                    assert(cur@ =~= seq![]);
                }
            }
        } else {
            cur.push(c);
        }
        i += 1;
    }
    proof {
        assert(v@.skip(n as int) =~= Seq::<char>::empty());
    }
    if cur.len() > 0 {
        let ghost r_old = r@;
        let ghost cur_old = cur@;
        let done = cur;
        r.push(done);
        proof {
            assert(views_of(r@) =~= views_of(r_old).push(cur_old));
            assert(views_of(r_old) + seq![cur_old] =~= views_of(r@));
        }
    } else {
        proof {
            assert(views_of(r@) + Seq::<Seq<char>>::empty() =~= views_of(r@));
        }
    }
    r
}

/// The length of the leading run of whitespace.
pub open spec fn lead_ws_len(s: Seq<char>) -> int
    decreases s.len(),
{
    if s.len() == 0 || !is_ws(s[0]) {
        0
    } else {
        1 + lead_ws_len(s.drop_first())
    }
}

/// `lead_ws_len` is the first non-whitespace position (or the length).
proof fn lemma_lead_ws_len(s: Seq<char>, k: int)
    requires
        0 <= k <= s.len(),
        forall|m: int| 0 <= m < k ==> is_ws(s[m]),
        k < s.len() ==> !is_ws(s[k]),
    ensures
        lead_ws_len(s) == k,
    decreases s.len(),
{
    if s.len() > 0 && is_ws(s[0]) {
        lemma_lead_ws_len(s.drop_first(), k - 1);
    }
}

/// The string without leading and trailing whitespace.
pub open spec fn spec_trim(s: Seq<char>) -> Seq<char> {
    let t = s.skip(lead_ws_len(s));
    t.take(t.len() - lead_ws_len(t.reverse()))
}

/// Trims leading and trailing whitespace.
pub fn trim_chars(v: &Vec<char>) -> (r: Vec<char>)
    ensures
        r@ == spec_trim(v@),
{
    let mut a: usize = 0;
    while a < v.len() && is_ws_char(v[a])
        invariant
            a <= v@.len(),
            forall|m: int| 0 <= m < a ==> is_ws(v@[m]),
        decreases v@.len() - a,
    {
        a += 1;
    }
    proof {
        lemma_lead_ws_len(v@, a as int);
    }
    let ghost t = v@.skip(a as int);
    let mut b: usize = v.len();
    while b > a && is_ws_char(v[b - 1])
        invariant
            a <= b <= v@.len(),
            forall|m: int| b <= m < v@.len() ==> is_ws(v@[m]),
            forall|m: int| 0 <= m < a ==> is_ws(v@[m]),
        decreases b,
    {
        b -= 1;
    }
    proof {
        assert(t.reverse().len() == t.len());
        assert(forall|m: int| 0 <= m < v@.len() - b ==> #[trigger] t.reverse()[m] == t[t.len() - 1
            - m] && is_ws(t[t.len() - 1 - m]));
        if b > a {
            assert(t.reverse()[v@.len() - b] == t[t.len() - 1 - (v@.len() - (b as int))]);
            assert(t[b - 1 - a] == v@[b - 1]);
            assert(!is_ws(t.reverse()[v@.len() - b]));
        }
        lemma_lead_ws_len(t.reverse(), v@.len() - b);
    }
    let mut r: Vec<char> = Vec::new();
    let mut m: usize = a;
    while m < b
        invariant
            a <= m <= b <= v@.len(),
            r@ == v@.subrange(a as int, m as int),
        decreases b - m,
    {
        let c = v[m];
        r.push(c);
        assert(r@ =~= v@.subrange(a as int, m + 1));
        m += 1;
    }
    proof {
        assert(r@ =~= t.take(t.len() - (v@.len() - b)));
    }
    r
}

/// The words joined with single spaces.
pub open spec fn spec_join_space(toks: Seq<Seq<char>>) -> Seq<char>
    decreases toks.len(),
{
    if toks.len() == 0 {
        seq![]
    } else if toks.len() == 1 {
        toks[0]
    } else {
        toks[0] + seq![' '] + spec_join_space(toks.drop_first())
    }
}

/// Joins words with single spaces, starting at word `i`.
pub fn join_space_at(toks: &Vec<Vec<char>>, i: usize, out: &mut Vec<char>)
    requires
        i <= toks@.len(),
    ensures
        final(out)@ == old(out)@ + spec_join_space(views_of(toks@).skip(i as int)),
    decreases toks@.len() - i,
{
    if i == toks.len() {
        assert(final(out)@ =~= old(out)@ + spec_join_space(views_of(toks@).skip(i as int)));
        return ;
    }
    let tok = &toks[i];
    let mut k: usize = 0;
    while k < tok.len()
        invariant
            k <= tok@.len(),
            out@ == old(out)@ + tok@.take(k as int),
            tok@ == toks@[i as int]@,
            i < toks@.len(),
        decreases tok@.len() - k,
    {
        let c = tok[k];
        out.push(c);
        assert(out@ =~= old(out)@ + tok@.take(k + 1));
        k += 1;
    }
    assert(out@ =~= old(out)@ + views_of(toks@)[i as int]);
    if i + 1 == toks.len() {
        assert(views_of(toks@).skip(i as int) =~= seq![views_of(toks@)[i as int]]);
        return ;
    }
    out.push(' ');
    join_space_at(toks, i + 1, out);
    proof {
        let dv = views_of(toks@);
        assert(dv.skip(i as int).drop_first() =~= dv.skip(i + 1));
        assert(dv.skip(i as int)[0] == dv[i as int]);
        assert(final(out)@ =~= old(out)@ + spec_join_space(dv.skip(i as int)));
    }
}

/// Joins words with single spaces.
pub fn join_space(toks: &Vec<Vec<char>>) -> (r: Vec<char>)
    ensures
        r@ == spec_join_space(views_of(toks@)),
{
    let mut out: Vec<char> = Vec::new();
    join_space_at(toks, 0, &mut out);
    assert(views_of(toks@).skip(0) =~= views_of(toks@));
    out
}

/// Whether a character is a decimal digit.
pub open spec fn is_digit(c: char) -> bool {
    48 <= c as u32 <= 57
}

/// The value of a digit character.
pub open spec fn digit_val(c: char) -> int {
    c as u32 - 48
}

/// The value of a digit string, most significant digit first.
pub open spec fn digits_val(s: Seq<char>) -> int
    decreases s.len(),
{
    if s.len() == 0 {
        0
    } else {
        digits_val(s.drop_last()) * 10 + digit_val(s.last())
    }
}

/// Whether every character is a decimal digit.
pub open spec fn all_digits(s: Seq<char>) -> bool {
    forall|i: int| 0 <= i < s.len() ==> is_digit(s[i])
}

/// What parsing an unsigned count accepts: an optional leading `+`, then at
/// least one digit, with a value that fits.
pub open spec fn spec_parse_usize(s: Seq<char>) -> Option<usize> {
    let t = if s.len() > 0 && s[0] == '+' {
        s.drop_first()
    } else {
        s
    };
    if t.len() > 0 && all_digits(t) && digits_val(t) <= usize::MAX {
        Some(digits_val(t) as usize)
    } else {
        None
    }
}

/// Digit strings never lose value as they grow to the right.
pub proof fn lemma_digits_val_grows(s: Seq<char>, i: int)
    requires
        0 <= i <= s.len(),
        all_digits(s),
    ensures
        digits_val(s.take(i)) <= digits_val(s),
        digits_val(s) >= 0,
    decreases s.len() - i,
{
    if i == s.len() {
        assert(s.take(i) =~= s);
        lemma_digits_val_nonneg(s);
    } else {
        lemma_digits_val_grows(s, i + 1);
        lemma_digits_val_nonneg(s.take(i));
        assert(s.take(i + 1).drop_last() =~= s.take(i));
        assert(digits_val(s.take(i + 1)) == digits_val(s.take(i)) * 10 + digit_val(s[i]));
    }
}

/// Digit-string values are never negative.
pub proof fn lemma_digits_val_nonneg(s: Seq<char>)
    ensures
        all_digits(s) ==> digits_val(s) >= 0,
    decreases s.len(),
{
    if s.len() > 0 {
        lemma_digits_val_nonneg(s.drop_last());
        assert(all_digits(s) ==> all_digits(s.drop_last()));
    }
}

/// The guard `acc <= (usize::MAX - d) / 10` decides whether `acc * 10 + d`
/// still fits.
proof fn lemma_digit_step_bound(acc: int, d: int)
    requires
        0 <= d <= 9,
        0 <= acc,
    ensures
        (acc <= (usize::MAX - d) / 10) <==> (acc * 10 + d <= usize::MAX),
{
    let m = usize::MAX - d;
    vstd::arithmetic::div_mod::lemma_fundamental_div_mod(m, 10);
    let q = m / 10;
    if acc <= q {
        assert(acc * 10 <= q * 10) by (nonlinear_arith)
            requires
                acc <= q,
        ;
    } else {
        assert(acc * 10 >= (q + 1) * 10) by (nonlinear_arith)
            requires
                acc >= q + 1,
        ;
    }
}

/// Parses an unsigned count, exactly as `spec_parse_usize` says.
#[verifier::rlimit(50)]
pub fn parse_usize(v: &Vec<char>) -> (r: Option<usize>)
    ensures
        r == spec_parse_usize(v@),
{
    let start: usize = if v.len() > 0 && v[0] == '+' {
        1
    } else {
        0
    };
    let ghost t = if start == 1 {
        v@.drop_first()
    } else {
        v@
    };
    proof {
        if start == 1 {
            assert(t =~= v@.skip(1));
        } else {
            assert(t =~= v@.skip(0));
        }
    }
    if start == v.len() {
        return None;
    }
    let mut acc: usize = 0;
    let mut i: usize = start;
    while i < v.len()
        invariant
            start <= i <= v@.len(),
            start < v@.len(),
            (start == 1) == (v@.len() > 0 && v@[0] == '+'),
            start == 0 || start == 1,
            t == v@.skip(start as int),
            forall|m: int| start <= m < i ==> is_digit(v@[m]),
            acc == digits_val(t.take(i - start)),
        decreases v@.len() - i,
    {
        let c = v[i];
        let cu = c as u32;
        if cu < 48 || cu > 57 {
            proof {
                assert(t[i - start] == v@[i as int]);
                assert(!is_digit(v@[i as int]));
                assert(!all_digits(t)) by {
                    if all_digits(t) {
                        assert(is_digit(t[i - start]));
                    }
                };
            }
            return None;
        }
        let d = (cu - 48) as usize;
        proof {
            assert(t.take(i + 1 - start).drop_last() =~= t.take(i - start));
            assert(t.take(i + 1 - start).last() == v@[i as int]);
        }
        if acc > (usize::MAX - d) / 10 {
            proof {
                lemma_digit_step_bound(acc as int, d as int);
                assert(acc * 10 + d > usize::MAX);
                assert(digits_val(t.take(i + 1 - start)) == acc * 10 + d);
                if all_digits(t) {
                    lemma_digits_val_grows(t, i + 1 - start);
                    assert(t.take(t.len() as int) =~= t);
                    assert(digits_val(t) > usize::MAX);
                }
                if v@.len() > 0 && v@[0] == '+' {
                    assert(t == v@.drop_first());
                } else {
                    assert(t == v@);
                }
            }
            return None;
        }
        proof {
            lemma_digit_step_bound(acc as int, d as int);
        }
        acc = acc * 10 + d;
        i += 1;
    }
    proof {
        assert(t.take(t.len() as int) =~= t);
        assert(all_digits(t)) by {
            assert forall|m: int| 0 <= m < t.len() implies is_digit(t[m]) by {
                assert(t[m] == v@[m + start]);
            };
        };
    }
    Some(acc)
}

/// Lexicographic order on character sequences, by code point; a proper
/// prefix comes first. This is the order in which the underlying strings
/// compare, since their encoding preserves code-point order.
pub open spec fn lex_le(a: Seq<char>, b: Seq<char>) -> bool
    decreases a.len(),
{
    if a.len() == 0 {
        true
    } else if b.len() == 0 {
        false
    } else if (a[0] as u32) < (b[0] as u32) {
        true
    } else if (a[0] as u32) > (b[0] as u32) {
        false
    } else {
        lex_le(a.drop_first(), b.drop_first())
    }
}

/// Compares two character vectors, exactly as `lex_le` says.
pub fn lex_le_chars(a: &Vec<char>, b: &Vec<char>) -> (r: bool)
    ensures
        r == lex_le(a@, b@),
{
    let mut i: usize = 0;
    assert(a@.skip(0) =~= a@);
    assert(b@.skip(0) =~= b@);
    while i < a.len() && i < b.len()
        invariant
            i <= a@.len(),
            i <= b@.len(),
            lex_le(a@, b@) == lex_le(a@.skip(i as int), b@.skip(i as int)),
        decreases a@.len() - i,
    {
        let ca = a[i] as u32;
        let cb = b[i] as u32;
        if ca < cb {
            return true;
        }
        if ca > cb {
            return false;
        }
        proof {
            assert(a@.skip(i as int).drop_first() =~= a@.skip(i + 1));
            assert(b@.skip(i as int).drop_first() =~= b@.skip(i + 1));
            assert(a@.skip(i as int)[0] == a@[i as int]);
            assert(b@.skip(i as int)[0] == b@[i as int]);
        }
        i += 1;
    }
    proof {
        assert(a@.skip(i as int).len() == a@.len() - i);
        assert(b@.skip(i as int).len() == b@.len() - i);
    }
    a.len() <= b.len()
}

} // verus!
