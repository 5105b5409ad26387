//! Character-level building blocks shared by the components: decimal
//! rendering, padding, number parsing, and splitting text into lines and
//! whitespace-separated words.
use vstd::prelude::*;

verus! {

// ---------------------------------------------------------------------------
// Characters
// ---------------------------------------------------------------------------

/// The Unicode `White_Space` property, which is what `char::is_whitespace`
/// (and therefore `str::split_whitespace`) tests.
pub open spec fn is_whitespace(c: char) -> bool {
    let x = c as u32;
    ||| x == 0x20
    ||| (0x09 <= x && x <= 0x0d)
    ||| x == 0x85
    ||| x == 0xa0
    ||| x == 0x1680
    ||| (0x2000 <= x && x <= 0x200a)
    ||| x == 0x2028
    ||| x == 0x2029
    ||| x == 0x202f
    ||| x == 0x205f
    ||| x == 0x3000
}

pub fn char_is_whitespace(c: char) -> (r: bool)
    ensures
        r == is_whitespace(c),
{
    let x = c as u32;
    x == 0x20 || (0x09 <= x && x <= 0x0d) || x == 0x85 || x == 0xa0 || x == 0x1680 || (0x2000
        <= x && x <= 0x200a) || x == 0x2028 || x == 0x2029 || x == 0x202f || x == 0x205f || x
        == 0x3000
}

pub open spec fn is_digit(c: char) -> bool {
    '0' <= c && c <= '9'
}

pub open spec fn digit_value(c: char) -> nat {
    (c as u32 - '0' as u32) as nat
}

/// The character of a decimal digit `d < 10`.
pub open spec fn digit_char(d: nat) -> char {
    ((d + 48) as u32) as char
}

fn make_digit(d: u64) -> (c: char)
    requires
        d < 10,
    ensures
        c == digit_char(d as nat),
        is_digit(c),
{
    let b: u8 = (d as u8) + 48u8;
    b as char
}

/// The characters of a string, in order.
pub fn chars_of(s: &str) -> (v: Vec<char>)
    ensures
        v@ == s@,
{
    let mut v: Vec<char> = Vec::new();
    for c in it: s.chars()
        invariant
            v@ == it.seq().take(it.index() as int),
    {
        v.push(c);
    }
    v
}

/// Appends one character to a string, by `String::push`; trusted to leave
/// the old text followed by that character.
#[verifier::external_body]
pub fn push_char(buf: &mut String, c: char)
    ensures
        final(buf)@ == old(buf)@.push(c),
{
    buf.push(c);
}

/// Appends characters one by one.
pub fn push_chars(buf: &mut String, s: &[char])
    ensures
        final(buf)@ == old(buf)@ + s@,
{
    let mut i: usize = 0;
    while i < s.len()
        invariant
            i <= s@.len(),
            buf@ == old(buf)@ + s@.take(i as int),
        decreases s@.len() - i,
    {
        push_char(buf, s[i]);
        assert(s@.take(i + 1) == s@.take(i as int).push(s@[i as int]));
        i = i + 1;
    }
    assert(s@.take(s@.len() as int) == s@);
}

/// A string holding exactly the given characters.
pub fn string_of(s: &[char]) -> (r: String)
    ensures
        r@ == s@,
{
    let mut r = String::new();
    push_chars(&mut r, s);
    r
}

// ---------------------------------------------------------------------------
// Decimal rendering
// ---------------------------------------------------------------------------

/// Decimal representation of a natural number, without leading zeros
/// (`"0"` for zero), as `{}` prints an unsigned integer.
pub open spec fn decimal(n: nat) -> Seq<char>
    decreases n,
{
    if n < 10 {
        seq![digit_char(n)]
    } else {
        decimal(n / 10).push(digit_char(n % 10))
    }
}

/// Decimal representation of an integer, with a leading `-` when negative,
/// as `{}` prints a signed integer.
pub open spec fn signed_decimal(n: int) -> Seq<char> {
    if n < 0 {
        seq!['-'] + decimal((-n) as nat)
    } else {
        decimal(n as nat)
    }
}

/// `s` right-aligned in a field of `width` characters filled with `fill`,
/// as `{:width}` (fill `' '`) and `{:0width}` on a non-negative number.
pub open spec fn pad_left(s: Seq<char>, width: nat, fill: char) -> Seq<char> {
    if s.len() >= width {
        s
    } else {
        Seq::new((width - s.len()) as nat, |i: int| fill) + s
    }
}

pub proof fn lemma_decimal_len_pos(n: nat)
    ensures
        decimal(n).len() >= 1,
        n < 10 <==> decimal(n).len() == 1,
    decreases n,
{
    if n >= 10 {
        lemma_decimal_len_pos(n / 10);
    }
}

/// The decimal representation of `n` is a non-empty string of digits whose
/// value is `n`, with no leading zero unless it is `"0"`.
pub proof fn law_decimal_value(n: nat)
    ensures
        decimal(n).len() >= 1,
        all_digits(decimal(n)),
        digits_value(decimal(n)) == n,
        decimal(n)[0] == '0' ==> n == 0,
    decreases n,
{
    if n < 10 {
        assert(digit_value(digit_char(n)) == n);
        assert(seq![digit_char(n)].drop_last() =~= Seq::<char>::empty());
        assert(digits_value(Seq::<char>::empty()) == 0);
        assert(digits_value(decimal(n)) == digits_value(Seq::<char>::empty()) * 10 + digit_value(
            digit_char(n),
        ));
    } else {
        law_decimal_value(n / 10);
        let d = decimal(n);
        assert(d.drop_last() =~= decimal(n / 10));
        assert(digit_value(digit_char(n % 10)) == n % 10);
        assert(d[0] == decimal(n / 10)[0]);
        assert(d.last() == digit_char(n % 10));
        assert(digits_value(d) == digits_value(decimal(n / 10)) * 10 + digit_value(d.last()));
        assert(forall|i: int| 0 <= i < d.len() ==> is_digit(#[trigger] d[i])) by {
            assert forall|i: int| 0 <= i < d.len() implies is_digit(#[trigger] d[i]) by {
                if i < d.len() - 1 {
                    assert(d[i] == decimal(n / 10)[i]);
                }
            }
        }
    }
}

/// A leading zero does not change the value of a string of digits.
pub proof fn lemma_leading_zero_value(d: Seq<char>)
    requires
        all_digits(d),
    ensures
        all_digits(seq!['0'] + d),
        digits_value(seq!['0'] + d) == digits_value(d),
    decreases d.len(),
{
    let z = seq!['0'] + d;
    assert forall|i: int| 0 <= i < z.len() implies is_digit(#[trigger] z[i]) by {
        if i > 0 {
            assert(z[i] == d[i - 1]);
        }
    }
    if d.len() == 0 {
        assert(z.drop_last() =~= Seq::<char>::empty());
        assert(digits_value(Seq::<char>::empty()) == 0);
        assert(digit_value('0') == 0);
    } else {
        assert(all_digits(d.drop_last()));
        lemma_leading_zero_value(d.drop_last());
        assert(z.drop_last() =~= seq!['0'] + d.drop_last());
        assert(z.last() == d.last());
    }
}

/// A number padded to two characters: unchanged when it has two digits or
/// more, otherwise one fill character before its single digit.
pub proof fn lemma_pad2(n: nat, fill: char)
    ensures
        pad_left(decimal(n), 2, fill) == (if n >= 10 {
            decimal(n)
        } else {
            seq![fill] + decimal(n)
        }),
        pad_left(decimal(n), 2, fill).len() >= 2,
        n < 100 ==> pad_left(decimal(n), 2, fill).len() == 2,
{
    lemma_decimal_len_pos(n);
    if n < 10 {
        assert(Seq::new(1, |i: int| fill) =~= seq![fill]);
    }
    if 10 <= n < 100 {
        lemma_decimal_len_pos(n / 10);
    }
}

/// Appends the decimal representation of `n`.
pub fn push_decimal(buf: &mut String, n: u64)
    ensures
        final(buf)@ == old(buf)@ + decimal(n as nat),
    decreases n,
{
    if n >= 10 {
        push_decimal(buf, n / 10);
    }
    push_char(buf, make_digit(n % 10));
    assert(n < 10 ==> decimal(n as nat) == seq![digit_char(n as nat)]);
}

/// Appends the decimal representation of a signed `n`.
pub fn push_signed_decimal(buf: &mut String, n: i64)
    ensures
        final(buf)@ == old(buf)@ + signed_decimal(n as int),
{
    if n < 0 {
        push_char(buf, '-');
        let m: u64 = if n == i64::MIN {
            9223372036854775808u64
        } else {
            (-n) as u64
        };
        push_decimal(buf, m);
    } else {
        push_decimal(buf, n as u64);
    }
}

/// Appends `n` right-aligned in a field of two characters: `{:2}`.
pub fn push_u64_width2(buf: &mut String, n: u64)
    ensures
        final(buf)@ == old(buf)@ + pad_left(decimal(n as nat), 2, ' '),
{
    proof {
        lemma_decimal_len_pos(n as nat);
    }
    if n < 10 {
        push_char(buf, ' ');
    }
    push_decimal(buf, n);
}

/// Appends `n` zero-padded to two digits: `{:02}`.
pub fn push_u64_zero2(buf: &mut String, n: u64)
    ensures
        final(buf)@ == old(buf)@ + pad_left(decimal(n as nat), 2, '0'),
{
    proof {
        lemma_decimal_len_pos(n as nat);
    }
    if n < 10 {
        push_char(buf, '0');
    }
    push_decimal(buf, n);
}

/// Appends a signed `n` right-aligned in a field of two characters: `{:2}`.
pub fn push_i64_width2(buf: &mut String, n: i64)
    ensures
        final(buf)@ == old(buf)@ + pad_left(signed_decimal(n as int), 2, ' '),
{
    proof {
        if n < 0 {
            lemma_decimal_len_pos((-n) as nat);
        } else {
            lemma_decimal_len_pos(n as nat);
        }
    }
    if 0 <= n && n < 10 {
        push_char(buf, ' ');
    }
    push_signed_decimal(buf, n);
}

// ---------------------------------------------------------------------------
// Number parsing
// ---------------------------------------------------------------------------

pub open spec fn all_digits(s: Seq<char>) -> bool {
    forall|i: int| 0 <= i < s.len() ==> is_digit(#[trigger] s[i])
}

/// The value of a string of decimal digits.
pub open spec fn digits_value(s: Seq<char>) -> nat
    decreases s.len(),
{
    if s.len() == 0 {
        0
    } else {
        digits_value(s.drop_last()) * 10 + digit_value(s.last())
    }
}

/// What `str::parse::<u64>` accepts: an optional `+` followed by at least one
/// ASCII digit, with a value that fits in a `u64`.
pub open spec fn parse_u64(s: Seq<char>) -> Option<u64> {
    let body = if s.len() > 0 && s[0] == '+' {
        s.drop_first()
    } else {
        s
    };
    if body.len() > 0 && all_digits(body) && digits_value(body) <= u64::MAX {
        Some(digits_value(body) as u64)
    } else {
        None
    }
}

proof fn lemma_digits_value_monotone(s: Seq<char>, j: int, k: int)
    requires
        0 <= j <= k <= s.len(),
        all_digits(s),
    ensures
        digits_value(s.take(j)) <= digits_value(s.take(k)),
    decreases k - j,
{
    if j < k {
        lemma_digits_value_monotone(s, j, k - 1);
        assert(s.take(k).drop_last() == s.take(k - 1));
    }
}

/// Parses an unsigned decimal number the way `str::parse::<u64>` does.
pub fn parse_u64_chars(s: &[char]) -> (r: Option<u64>)
    ensures
        r == parse_u64(s@),
{
    let start: usize = if s.len() > 0 && s[0] == '+' {
        1
    } else {
        0
    };
    let ghost body = if s@.len() > 0 && s@[0] == '+' {
        s@.drop_first()
    } else {
        s@
    };
    assert(body == s@.skip(start as int));
    if start >= s.len() {
        return None;
    }
    let mut acc: u64 = 0;
    let mut i: usize = start;
    while i < s.len()
        invariant
            start <= i <= s@.len(),
            body == s@.skip(start as int),
            body == (if s@.len() > 0 && s@[0] == '+' {
                s@.drop_first()
            } else {
                s@
            }),
            all_digits(body.take(i - start)),
            acc as nat == digits_value(body.take(i - start)),
        decreases s@.len() - i,
    {
        let c = s[i];
        assert(body[i - start] == c);
        if !('0' <= c && c <= '9') {
            assert(!all_digits(body));
            return None;
        }
        let d: u64 = (c as u32 - '0' as u32) as u64;
        assert(body.take(i + 1 - start).drop_last() == body.take(i - start));
        assert(all_digits(body.take(i + 1 - start)));
        if acc > 1844674407370955161u64 || (acc == 1844674407370955161u64 && d > 5) {
            assert(digits_value(body.take(i + 1 - start)) > u64::MAX);
            proof {
                if all_digits(body) {
                    lemma_digits_value_monotone(body, i + 1 - start, body.len() as int);
                    assert(body.take(body.len() as int) == body);
                }
            }
            return None;
        }
        acc = acc * 10 + d;
        i = i + 1;
    }
    assert(body.take(body.len() as int) == body);
    Some(acc)
}

// ---------------------------------------------------------------------------
// Prefixes
// ---------------------------------------------------------------------------

pub open spec fn has_prefix(s: Seq<char>, p: Seq<char>) -> bool {
    p.len() <= s.len() && s.take(p.len() as int) == p
}

/// `str::strip_prefix`: the rest of `s` after `p`, when `s` starts with `p`.
pub open spec fn strip_prefix(s: Seq<char>, p: Seq<char>) -> Option<Seq<char>> {
    if has_prefix(s, p) {
        Some(s.skip(p.len() as int))
    } else {
        None
    }
}

pub fn strip_prefix_chars(s: &[char], p: &[char]) -> (r: Option<Vec<char>>)
    ensures
        match r {
            Some(v) => strip_prefix(s@, p@) == Some(v@),
            None => strip_prefix(s@, p@) is None,
        },
{
    if p.len() > s.len() {
        return None;
    }
    let mut i: usize = 0;
    while i < p.len()
        invariant
            p@.len() <= s@.len(),
            i <= p@.len(),
            forall|k: int| 0 <= k < i ==> s@[k] == p@[k],
        decreases p@.len() - i,
    {
        if s[i] != p[i] {
            assert(s@.take(p@.len() as int)[i as int] != p@[i as int]);
            return None;
        }
        i = i + 1;
    }
    assert(s@.take(p@.len() as int) =~= p@);
    let mut rest: Vec<char> = Vec::new();
    let mut j: usize = p.len();
    while j < s.len()
        invariant
            p@.len() <= j <= s@.len(),
            rest@ == s@.subrange(p@.len() as int, j as int),
        decreases s@.len() - j,
    {
        rest.push(s[j]);
        assert(s@.subrange(p@.len() as int, j + 1) == s@.subrange(p@.len() as int, j as int).push(
            s@[j as int],
        ));
        j = j + 1;
    }
    assert(rest@ =~= s@.skip(p@.len() as int));
    Some(rest)
}

// ---------------------------------------------------------------------------
// Words (`str::split_whitespace`)
// ---------------------------------------------------------------------------

/// The end of the word that starts at `i`: the first whitespace at or after
/// `i`, or the end of `s`.
pub open spec fn word_end(s: Seq<char>, i: int) -> int
    decreases s.len() - i,
{
    if i < 0 || i >= s.len() || is_whitespace(s[i]) {
        i
    } else {
        word_end(s, i + 1)
    }
}

pub proof fn lemma_word_end(s: Seq<char>, i: int)
    requires
        0 <= i <= s.len(),
    ensures
        i <= word_end(s, i) <= s.len(),
        i < s.len() && !is_whitespace(s[i]) ==> i < word_end(s, i),
        forall|k: int| i <= k < word_end(s, i) ==> !is_whitespace(#[trigger] s[k]),
        word_end(s, i) < s.len() ==> is_whitespace(s[word_end(s, i)]),
    decreases s.len() - i,
{
    if i < s.len() && !is_whitespace(s[i]) {
        lemma_word_end(s, i + 1);
    }
}

/// The whitespace-separated words of `s` from position `i` on.
pub open spec fn words_from(s: Seq<char>, i: int) -> Seq<Seq<char>>
    decreases s.len() - i,
{
    if i < 0 || i >= s.len() {
        seq![]
    } else if is_whitespace(s[i]) {
        words_from(s, i + 1)
    } else {
        let j = word_end(s, i);
        if j <= i || j > s.len() {
            seq![]
        } else {
            seq![s.subrange(i, j)] + words_from(s, j)
        }
    }
}

/// The words of `s`, as `str::split_whitespace` yields them.
pub open spec fn words(s: Seq<char>) -> Seq<Seq<char>> {
    words_from(s, 0)
}

pub open spec fn views_of(v: Seq<Vec<char>>) -> Seq<Seq<char>> {
    v.map_values(|w: Vec<char>| w@)
}

/// Splits `s` into its whitespace-separated words.
pub fn split_words(s: &[char]) -> (r: Vec<Vec<char>>)
    ensures
        views_of(r@) == words(s@),
{
    let mut out: Vec<Vec<char>> = Vec::new();
    let mut i: usize = 0;
    while i < s.len()
        invariant
            i <= s@.len(),
            words(s@) == views_of(out@) + words_from(s@, i as int),
        decreases s@.len() - i,
    {
        if char_is_whitespace(s[i]) {
            i = i + 1;
        } else {
            proof {
                lemma_word_end(s@, i as int);
            }
            let mut w: Vec<char> = Vec::new();
            let mut j: usize = i;
            while j < s.len() && !char_is_whitespace(s[j])
                invariant
                    i <= j <= s@.len(),
                    j <= word_end(s@, i as int),
                    word_end(s@, i as int) == word_end(s@, j as int),
                    w@ == s@.subrange(i as int, j as int),
                decreases s@.len() - j,
            {
                proof {
                    lemma_word_end(s@, j + 1);
                }
                w.push(s[j]);
                assert(s@.subrange(i as int, j + 1) == s@.subrange(i as int, j as int).push(
                    s@[j as int],
                ));
                j = j + 1;
            }
            assert(j == word_end(s@, i as int));
            let ghost before = out@;
            out.push(w);
            assert(views_of(out@) == views_of(before).push(s@.subrange(i as int, j as int)));
            assert(words_from(s@, i as int) == seq![s@.subrange(i as int, j as int)] + words_from(
                s@,
                j as int,
            ));
            assert(views_of(out@) + words_from(s@, j as int) == views_of(before) + words_from(
                s@,
                i as int,
            ));
            i = j;
        }
    }
    assert(views_of(out@) + words_from(s@, i as int) == views_of(out@));
    out
}

// ---------------------------------------------------------------------------
// Lines (`str::lines`)
// ---------------------------------------------------------------------------

/// The position of the first `'\n'` at or after `i`, or the length of `s`.
pub open spec fn line_end(s: Seq<char>, i: int) -> int
    decreases s.len() - i,
{
    if i < 0 || i >= s.len() || s[i] == '\n' {
        i
    } else {
        line_end(s, i + 1)
    }
}

pub proof fn lemma_line_end(s: Seq<char>, i: int)
    requires
        0 <= i <= s.len(),
    ensures
        i <= line_end(s, i) <= s.len(),
        forall|k: int| i <= k < line_end(s, i) ==> #[trigger] s[k] != '\n',
        line_end(s, i) < s.len() ==> s[line_end(s, i)] == '\n',
    decreases s.len() - i,
{
    if i < s.len() && s[i] != '\n' {
        lemma_line_end(s, i + 1);
    }
}

/// A line as `str::lines` yields it: the text before its `'\n'`, without a
/// `'\r'` that directly precedes that `'\n'`.
pub open spec fn line_at(s: Seq<char>, i: int) -> Seq<char> {
    let j = line_end(s, i);
    if j < s.len() && j > i && s[j - 1] == '\r' {
        s.subrange(i, j - 1)
    } else {
        s.subrange(i, j)
    }
}

/// The lines of `s` from position `i` on.
pub open spec fn lines_from(s: Seq<char>, i: int) -> Seq<Seq<char>>
    decreases s.len() - i,
{
    if i < 0 || i >= s.len() {
        seq![]
    } else {
        let j = line_end(s, i);
        if j < i || j >= s.len() {
            seq![line_at(s, i)]
        } else {
            seq![line_at(s, i)] + lines_from(s, j + 1)
        }
    }
}

/// The lines of `s`, as `str::lines` yields them.
pub open spec fn lines(s: Seq<char>) -> Seq<Seq<char>> {
    lines_from(s, 0)
}

/// Splits `s` into its lines.
pub fn split_lines(s: &[char]) -> (r: Vec<Vec<char>>)
    ensures
        views_of(r@) == lines(s@),
{
    let mut out: Vec<Vec<char>> = Vec::new();
    let mut i: usize = 0;
    while i < s.len()
        invariant
            i <= s@.len(),
            lines(s@) == views_of(out@) + lines_from(s@, i as int),
        decreases s@.len() - i,
    {
        proof {
            lemma_line_end(s@, i as int);
        }
        let mut line: Vec<char> = Vec::new();
        let mut j: usize = i;
        while j < s.len() && s[j] != '\n'
            invariant
                i <= j <= s@.len(),
                j <= line_end(s@, i as int),
                line_end(s@, i as int) == line_end(s@, j as int),
                line@ == s@.subrange(i as int, j as int),
            decreases s@.len() - j,
        {
            proof {
                lemma_line_end(s@, j + 1);
            }
            line.push(s[j]);
            assert(s@.subrange(i as int, j + 1) == s@.subrange(i as int, j as int).push(
                s@[j as int],
            ));
            j = j + 1;
        }
        assert(j == line_end(s@, i as int));
        if j < s.len() && j > i && s[j - 1] == '\r' {
            line.pop();
            assert(line@ =~= s@.subrange(i as int, j - 1));
        }
        assert(line@ == line_at(s@, i as int));
        let ghost before = out@;
        out.push(line);
        assert(views_of(out@) == views_of(before).push(line_at(s@, i as int)));
        if j < s.len() {
            assert(lines_from(s@, i as int) == seq![line_at(s@, i as int)] + lines_from(
                s@,
                j + 1,
            ));
            assert(views_of(out@) + lines_from(s@, j + 1) == views_of(before) + lines_from(
                s@,
                i as int,
            ));
            i = j + 1;
        } else {
            assert(lines_from(s@, i as int) == seq![line_at(s@, i as int)]);
            assert(lines_from(s@, j as int) == Seq::<Seq<char>>::empty());
            assert(views_of(out@) + lines_from(s@, j as int) == views_of(before) + lines_from(
                s@,
                i as int,
            ));
            i = j;
        }
    }
    assert(views_of(out@) + lines_from(s@, i as int) == views_of(out@));
    out
}

} // verus!
