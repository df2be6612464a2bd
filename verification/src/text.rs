//! Character-level text helpers: Unicode whitespace, trimming, line
//! splitting, and decimal formatting and parsing of integers.

use vstd::prelude::*;

verus! {

/// Unicode `White_Space`: the characters for which `char::is_whitespace` holds.
pub open spec fn is_whitespace(c: char) -> bool {
    let u = c as u32;
    ||| 0x09 <= u <= 0x0d
    ||| u == 0x20
    ||| u == 0x85
    ||| u == 0xa0
    ||| u == 0x1680
    ||| 0x2000 <= u <= 0x200a
    ||| u == 0x2028
    ||| u == 0x2029
    ||| u == 0x202f
    ||| u == 0x205f
    ||| u == 0x3000
}

/// The text holds at least one character that is not whitespace.
pub open spec fn has_visible_text(s: Seq<char>) -> bool {
    exists|i: int| 0 <= i < s.len() && !is_whitespace(#[trigger] s[i])
}

/// Whether `c` is a Unicode whitespace character.
pub fn char_is_whitespace(c: char) -> (b: bool)
    ensures
        b == is_whitespace(c),
{
    let u = c as u32;
    (0x09 <= u && u <= 0x0d) || u == 0x20 || u == 0x85 || u == 0xa0 || u == 0x1680 || (0x2000
        <= u && u <= 0x200a) || u == 0x2028 || u == 0x2029 || u == 0x202f || u == 0x205f || u
        == 0x3000
}

/// Whether the text is more than whitespace.
pub fn text_is_visible(s: &str) -> (b: bool)
    ensures
        b == has_visible_text(s@),
{
    let n = s.unicode_len();
    let mut i: usize = 0;
    while i < n
        invariant
            n == s@.len(),
            i <= n,
            forall|j: int| 0 <= j < i ==> is_whitespace(#[trigger] s@[j]),
        decreases n - i,
    {
        let c = s.get_char(i);
        if !char_is_whitespace(c) {
            return true;
        }
        i = i + 1;
    }
    false
}


/// The character of the decimal digit `d`.
pub open spec fn digit_char(d: int) -> char {
    (d + 48) as char
}

/// The decimal digits of `n`, most significant first, without leading zeros.
pub open spec fn decimal(n: nat) -> Seq<char>
    decreases n,
{
    if n < 10 {
        seq![digit_char(n as int)]
    } else {
        decimal(n / 10).push(digit_char((n % 10) as int))
    }
}

/// How `{}` formats an integer: a minus sign for a negative value, then its digits.
pub open spec fn decimal_int(n: int) -> Seq<char> {
    if n < 0 {
        seq!['-'] + decimal((-n) as nat)
    } else {
        decimal(n as nat)
    }
}

fn digit_str(d: u64) -> (s: &'static str)
    requires
        d < 10,
    ensures
        s@ == seq![digit_char(d as int)],
{
    proof {
        reveal_strlit("0");
        reveal_strlit("1");
        reveal_strlit("2");
        reveal_strlit("3");
        reveal_strlit("4");
        reveal_strlit("5");
        reveal_strlit("6");
        reveal_strlit("7");
        reveal_strlit("8");
        reveal_strlit("9");
    }
    match d {
        0 => "0",
        1 => "1",
        2 => "2",
        3 => "3",
        4 => "4",
        5 => "5",
        6 => "6",
        7 => "7",
        8 => "8",
        _ => "9",
    }
}

/// Appends the decimal digits of `n` to `out`.
pub fn push_decimal(out: &mut String, n: u64)
    ensures
        final(out)@ == old(out)@ + decimal(n as nat),
    decreases n,
{
    if n >= 10 {
        push_decimal(out, n / 10);
    }
    out.append(digit_str(n % 10));
    proof {
        if n >= 10 {
            assert(old(out)@ + decimal((n / 10) as nat) + seq![digit_char((n % 10) as int)]
                =~= old(out)@ + decimal(n as nat));
        }
    }
}

/// Appends `n` to `out` the way `{}` formats a signed integer.
pub fn push_decimal_i64(out: &mut String, n: i64)
    ensures
        final(out)@ == old(out)@ + decimal_int(n as int),
{
    if n < 0 {
        proof {
            reveal_strlit("-");
        }
        out.append("-");
        let m: u64 = (-(n + 1)) as u64 + 1;
        push_decimal(out, m);
        assert(old(out)@ + seq!['-'] + decimal(m as nat) =~= old(out)@ + decimal_int(n as int));
    } else {
        push_decimal(out, n as u64);
    }
}


/// The text without its leading whitespace, as `str::trim_start` gives it.
pub open spec fn trim_start(s: Seq<char>) -> Seq<char>
    decreases s.len(),
{
    if s.len() > 0 && is_whitespace(s[0]) {
        trim_start(s.drop_first())
    } else {
        s
    }
}

/// The text without its trailing whitespace, as `str::trim_end` gives it.
pub open spec fn trim_end(s: Seq<char>) -> Seq<char>
    decreases s.len(),
{
    if s.len() > 0 && is_whitespace(s.last()) {
        trim_end(s.drop_last())
    } else {
        s
    }
}

/// The text without leading and trailing whitespace, as `str::trim` gives it.
pub open spec fn trim(s: Seq<char>) -> Seq<char> {
    trim_end(trim_start(s))
}

proof fn lemma_trim_start_front(s: Seq<char>)
    ensures
        trim_start(s).len() > 0 ==> !is_whitespace(trim_start(s)[0]),
    decreases s.len(),
{
    if s.len() > 0 && is_whitespace(s[0]) {
        lemma_trim_start_front(s.drop_first());
    }
}

proof fn lemma_trim_end_ends(s: Seq<char>)
    ensures
        trim_end(s).len() > 0 ==> !is_whitespace(trim_end(s).last()),
        trim_end(s).len() > 0 ==> trim_end(s)[0] == s[0],
        trim_end(s).len() <= s.len(),
    decreases s.len(),
{
    if s.len() > 0 && is_whitespace(s.last()) {
        lemma_trim_end_ends(s.drop_last());
    }
}

/// Trimmed text that is not empty starts and ends with a character that is
/// not whitespace.
pub proof fn lemma_trim_ends(s: Seq<char>)
    ensures
        trim(s).len() > 0 ==> !is_whitespace(trim(s)[0]) && !is_whitespace(trim(s).last()),
{
    lemma_trim_start_front(s);
    lemma_trim_end_ends(trim_start(s));
}

/// Removes leading and trailing whitespace.
pub fn trim_str(s: &str) -> (t: &str)
    ensures
        t@ == trim(s@),
{
    let n = s.unicode_len();
    let mut i: usize = 0;
    assert(s@.subrange(0, n as int) =~= s@);
    loop
        invariant
            n == s@.len(),
            i <= n,
            trim_start(s@) == trim_start(s@.subrange(i as int, n as int)),
        ensures
            i <= n,
            trim_start(s@) == s@.subrange(i as int, n as int),
        decreases n - i,
    {
        if i >= n {
            break;
        }
        let c = s.get_char(i);
        if !char_is_whitespace(c) {
            break;
        }
        assert(s@.subrange(i as int, n as int).drop_first() =~= s@.subrange(i + 1, n as int));
        i = i + 1;
    }
    let mut j: usize = n;
    loop
        invariant
            n == s@.len(),
            i <= j <= n,
            trim_start(s@) == s@.subrange(i as int, n as int),
            trim_end(s@.subrange(i as int, n as int)) == trim_end(s@.subrange(i as int, j as int)),
        ensures
            i <= j <= n,
            trim(s@) == s@.subrange(i as int, j as int),
        decreases j,
    {
        if j <= i {
            break;
        }
        let c = s.get_char(j - 1);
        if !char_is_whitespace(c) {
            break;
        }
        assert(s@.subrange(i as int, j as int).drop_last() =~= s@.subrange(i as int, j - 1));
        j = j - 1;
    }
    s.substring_char(i, j)
}

/// An ASCII decimal digit.
pub open spec fn is_digit(c: char) -> bool {
    48 <= c as u32 <= 57
}

/// The value of a run of decimal digits, most significant first.
pub open spec fn digits_value(s: Seq<char>) -> nat
    decreases s.len(),
{
    if s.len() == 0 {
        0
    } else {
        digits_value(s.drop_last()) * 10 + (s.last() as u32 - 48) as nat
    }
}

/// Whether `s` is one or more ASCII decimal digits.
pub open spec fn all_digits(s: Seq<char>) -> bool {
    forall|i: int| 0 <= i < s.len() ==> is_digit(#[trigger] s[i])
}

/// Whether the text opens with a `+` or `-` sign.
pub open spec fn has_sign(s: Seq<char>) -> bool {
    s.len() > 0 && (s[0] == '-' || s[0] == '+')
}

/// The text after its sign, if it has one.
pub open spec fn unsigned_part(s: Seq<char>) -> Seq<char> {
    if has_sign(s) {
        s.drop_first()
    } else {
        s
    }
}

/// What `str::parse::<i32>` gives: an optional `+` or `-`, then at least one
/// decimal digit and nothing else, with a value that fits in an `i32`.
pub open spec fn parse_i32_spec(s: Seq<char>) -> Option<i32> {
    let body = unsigned_part(s);
    let magnitude = digits_value(body) as int;
    let v = if s.len() > 0 && s[0] == '-' {
        -magnitude
    } else {
        magnitude
    };
    if body.len() > 0 && all_digits(body) && i32::MIN <= v <= i32::MAX {
        Some(v as i32)
    } else {
        None
    }
}

/// Parses a decimal `i32` as `str::parse::<i32>` does.
pub fn parse_i32(s: &str) -> (r: Option<i32>)
    ensures
        r == parse_i32_spec(s@),
{
    let n = s.unicode_len();
    let mut start: usize = 0;
    let mut negative = false;
    if n > 0 {
        let c = s.get_char(0) as u32;
        if c == 45 {
            negative = true;
            start = 1;
        } else if c == 43 {
            start = 1;
        }
    }
    let ghost body = unsigned_part(s@);
    assert(body =~= s@.subrange(start as int, n as int));
    if start >= n {
        return None;
    }
    let limit: u64 = 2147483649;
    let mut acc: u64 = 0;
    let mut i: usize = start;
    while i < n
        invariant
            n == s@.len(),
            start <= i <= n,
            body == unsigned_part(s@),
            body == s@.subrange(start as int, n as int),
            limit == 2147483649,
            all_digits(body.take(i - start)),
            (acc < limit && acc == digits_value(body.take(i - start))) || (acc == limit
                && digits_value(body.take(i - start)) >= limit),
        decreases n - i,
    {
        let c = s.get_char(i) as u32;
        if c < 48 || c > 57 {
            assert(!is_digit(body[i - start]));
            return None;
        }
        assert(body.take(i - start + 1).drop_last() =~= body.take(i - start));
        acc = acc * 10 + (c - 48) as u64;
        if acc > limit {
            acc = limit;
        }
        i = i + 1;
    }
    assert(body.take(n - start) =~= body);
    if negative {
        if acc <= 2147483648 {
            Some((-(acc as i64)) as i32)
        } else {
            None
        }
    } else {
        if acc <= 2147483647 {
            Some(acc as i32)
        } else {
            None
        }
    }
}


/// The decimal digits of `n`: at least one, each an ASCII digit, the last
/// one `n % 10` and the ones before it those of `n / 10` (none when `n` is
/// below ten), the first one not `0` unless `n` is zero; their value is `n`.
pub proof fn lemma_decimal_digits(n: nat)
    ensures
        decimal(n).len() > 0,
        all_digits(decimal(n)),
        forall|k: int| 0 <= k < decimal(n).len() ==> 48 <= #[trigger] decimal(n)[k] as u32 <= 57,
        decimal(n).last() as u32 == n % 10 + 48,
        n < 10 ==> decimal(n).len() == 1,
        n >= 10 ==> decimal(n).drop_last() == decimal(n / 10),
        n > 0 ==> decimal(n)[0] != '0',
        digits_value(decimal(n)) == n,
    decreases n,
{
    if n >= 10 {
        lemma_decimal_digits(n / 10);
        let s = decimal(n / 10).push(digit_char((n % 10) as int));
        assert(s.drop_last() =~= decimal(n / 10));
        assert(digit_char((n % 10) as int) as u32 == (n % 10) + 48);
        assert(s[0] == decimal(n / 10)[0]);
    } else {
        assert(digit_char(n as int) as u32 == n + 48);
        let s = seq![digit_char(n as int)];
        assert(s.drop_last() =~= Seq::<char>::empty());
        assert(digits_value(Seq::<char>::empty()) == 0);
        assert(digits_value(s) == n);
    }
}

/// Parsing the way `{}` writes an `i32` gives the number back.
pub proof fn lemma_parse_decimal_roundtrip(n: i32)
    ensures
        parse_i32_spec(decimal_int(n as int)) == Some(n),
{
    if n < 0 {
        let m = (-(n as int)) as nat;
        lemma_decimal_digits(m);
        let s = seq!['-'] + decimal(m);
        assert(s.drop_first() =~= decimal(m));
        assert(unsigned_part(s) == decimal(m));
    } else {
        lemma_decimal_digits(n as nat);
        let s = decimal(n as nat);
        assert(is_digit(s[0]));
        assert(unsigned_part(s) == s);
    }
}

/// Whether two texts are the same.
pub fn str_equal(a: &str, b: &str) -> (r: bool)
    ensures
        r == (a@ == b@),
{
    let n = a.unicode_len();
    if n != b.unicode_len() {
        return false;
    }
    let mut i: usize = 0;
    while i < n
        invariant
            n == a@.len(),
            n == b@.len(),
            i <= n,
            forall|j: int| 0 <= j < i ==> a@[j] == b@[j],
        decreases n - i,
    {
        if a.get_char(i) != b.get_char(i) {
            return false;
        }
        i = i + 1;
    }
    assert(a@ =~= b@);
    true
}

/// Whitespace is exactly Unicode's `White_Space`: the code points 9 to 13,
/// 32, 0x85, 0xA0, 0x1680, 0x2000 to 0x200A, 0x2028, 0x2029, 0x202F, 0x205F
/// and 0x3000, and no other character.
pub proof fn lemma_whitespace_exactly(c: char)
    ensures
        is_whitespace(c) <==> ({
            let u = c as u32;
            ||| u == 9
            ||| u == 10
            ||| u == 11
            ||| u == 12
            ||| u == 13
            ||| u == 32
            ||| u == 0x85
            ||| u == 0xa0
            ||| u == 0x1680
            ||| u == 0x2000
            ||| u == 0x2001
            ||| u == 0x2002
            ||| u == 0x2003
            ||| u == 0x2004
            ||| u == 0x2005
            ||| u == 0x2006
            ||| u == 0x2007
            ||| u == 0x2008
            ||| u == 0x2009
            ||| u == 0x200a
            ||| u == 0x2028
            ||| u == 0x2029
            ||| u == 0x202f
            ||| u == 0x205f
            ||| u == 0x3000
        }),
{
}

/// A text has visible text exactly when some character of it is not
/// whitespace; so a text that holds any character other than the
/// `White_Space` ones (a letter, a digit, a Hangul syllable, ...) has
/// visible text, and one made of whitespace only (or empty) has none.
pub proof fn lemma_visible_text_exactly(s: Seq<char>)
    ensures
        has_visible_text(s) <==> exists|i: int| 0 <= i < s.len() && !is_whitespace(#[trigger] s[i]),
        forall|i: int| 0 <= i < s.len() && !is_whitespace(#[trigger] s[i]) ==> has_visible_text(s),
        (forall|i: int| 0 <= i < s.len() ==> is_whitespace(#[trigger] s[i])) ==> !has_visible_text(s),
{
}

/// What trimming keeps: a stretch `s[a..b]` of the text such that everything
/// before `a` and from `b` on is whitespace, and, unless the stretch is
/// empty, its first and last characters are not whitespace (the stretch is
/// empty only when the whole text is whitespace).
pub proof fn lemma_trim_exactly(s: Seq<char>)
    ensures
        exists|a: int, b: int|
            #![trigger s.subrange(a, b)]
            0 <= a <= b <= s.len() && trim(s) == s.subrange(a, b) && (forall|k: int|
                0 <= k < a ==> is_whitespace(#[trigger] s[k])) && (forall|k: int|
                b <= k < s.len() ==> is_whitespace(#[trigger] s[k])) && (a < b ==> !is_whitespace(
                s[a],
            ) && !is_whitespace(s[b - 1])) && (a == b ==> forall|k: int|
                0 <= k < s.len() ==> is_whitespace(#[trigger] s[k])),
{
    let (a, t) = lemma_trim_start_at(s);
    let b = lemma_trim_end_at(t);
    assert(t.subrange(0, b) =~= s.subrange(a, a + b));
    lemma_trim_ends(s);
    assert(s.subrange(a, a + b) == trim(s));
    assert forall|k: int| a + b <= k < s.len() implies is_whitespace(#[trigger] s[k]) by {
        assert(s[k] == t[k - a]);
    }
    if b == 0 {
        assert forall|k: int| 0 <= k < s.len() implies is_whitespace(#[trigger] s[k]) by {
            if k >= a {
                assert(s[k] == t[k - a]);
            }
        }
    }
}

proof fn lemma_trim_start_at(s: Seq<char>) -> (r: (int, Seq<char>))
    ensures
        0 <= r.0 <= s.len(),
        r.1 == trim_start(s),
        r.1 == s.subrange(r.0, s.len() as int),
        forall|k: int| 0 <= k < r.0 ==> is_whitespace(#[trigger] s[k]),
    decreases s.len(),
{
    if s.len() > 0 && is_whitespace(s[0]) {
        let (a, t) = lemma_trim_start_at(s.drop_first());
        assert(s.drop_first().subrange(a, s.len() - 1) =~= s.subrange(a + 1, s.len() as int));
        assert forall|k: int| 0 <= k < a + 1 implies is_whitespace(#[trigger] s[k]) by {
            if k > 0 {
                assert(s[k] == s.drop_first()[k - 1]);
            }
        }
        (a + 1, t)
    } else {
        assert(s.subrange(0, s.len() as int) =~= s);
        (0, s)
    }
}

proof fn lemma_trim_end_at(t: Seq<char>) -> (b: int)
    ensures
        0 <= b <= t.len(),
        trim_end(t) == t.subrange(0, b),
        forall|k: int| b <= k < t.len() ==> is_whitespace(#[trigger] t[k]),
    decreases t.len(),
{
    if t.len() > 0 && is_whitespace(t.last()) {
        let b = lemma_trim_end_at(t.drop_last());
        assert(t.drop_last().subrange(0, b) =~= t.subrange(0, b));
        assert forall|k: int| b <= k < t.len() implies is_whitespace(#[trigger] t[k]) by {
            if k < t.len() - 1 {
                assert(t[k] == t.drop_last()[k]);
            }
        }
        b
    } else {
        assert(t.subrange(0, t.len() as int) =~= t);
        t.len() as int
    }
}

proof fn lemma_digits_value_leading_zero(body: Seq<char>)
    ensures
        digits_value(seq!['0'] + body) == digits_value(body),
    decreases body.len(),
{
    assert('0' as u32 == 48);
    if body.len() == 0 {
        assert((seq!['0'] + body).drop_last() =~= Seq::<char>::empty());
        assert(digits_value(Seq::<char>::empty()) == 0);
    } else {
        lemma_digits_value_leading_zero(body.drop_last());
        assert((seq!['0'] + body).drop_last() =~= seq!['0'] + body.drop_last());
    }
}

/// Leading zeros and a `+` sign do not change what a run of digits parses
/// to; a `-` sign negates it; text that is not an optional sign followed by
/// one or more digits does not parse.
pub proof fn lemma_parse_i32_forms(body: Seq<char>)
    requires
        body.len() > 0,
        forall|i: int| 0 <= i < body.len() ==> 48 <= #[trigger] body[i] as u32 <= 57,
    ensures
        parse_i32_spec(seq!['0'] + body) == parse_i32_spec(body),
        parse_i32_spec(seq!['+'] + body) == parse_i32_spec(body),
        (parse_i32_spec(body) matches Some(v) ==> parse_i32_spec(seq!['-'] + body) == Some((-v) as i32)),
        forall|s: Seq<char>|
            #![trigger parse_i32_spec(s)]
            (exists|i: int| 1 <= i < s.len() && !(48 <= #[trigger] s[i] as u32 <= 57)) ==> parse_i32_spec(s) is None,
        parse_i32_spec(Seq::<char>::empty()) is None,
        parse_i32_spec(seq!['-']) is None,
        parse_i32_spec(seq!['+']) is None,
{
    lemma_digits_value_leading_zero(body);
    let z = seq!['0'] + body;
    assert(z[0] == '0');
    assert(all_digits(z)) by {
        assert forall|i: int| 0 <= i < z.len() implies is_digit(#[trigger] z[i]) by {
            if i > 0 {
                assert(z[i] == body[i - 1]);
            }
        }
    }
    assert(unsigned_part(z) == z);
    assert(body[0] != '-' && body[0] != '+');
    assert(unsigned_part(body) == body);
    assert(all_digits(body));
    assert((seq!['+'] + body).drop_first() =~= body);
    assert((seq!['-'] + body).drop_first() =~= body);
    assert forall|s: Seq<char>|
        (exists|i: int| 1 <= i < s.len() && !(48 <= #[trigger] s[i] as u32 <= 57)) implies #[trigger] parse_i32_spec(s) is None by {
        let i = choose|i: int| 1 <= i < s.len() && !(48 <= #[trigger] s[i] as u32 <= 57);
        let u = unsigned_part(s);
        if has_sign(s) {
            assert(u[i - 1] == s[i]);
        } else {
            assert(u[i] == s[i]);
        }
    }
    assert(seq!['-'].drop_first() =~= Seq::<char>::empty());
    assert(seq!['+'].drop_first() =~= Seq::<char>::empty());
}

} // verus!
