use vstd::prelude::*;

verus! {

/// `s` and `p` agree on the `p.len()` characters of `s` starting at `at`.
pub open spec fn occurs_at(s: Seq<char>, at: int, p: Seq<char>) -> bool {
    0 <= at && at + p.len() <= s.len() && s.subrange(at, at + p.len()) == p
}

/// Does `s` begin with `p`?
pub fn starts_with(s: &str, p: &str) -> (r: bool)
    ensures
        r == occurs_at(s@, 0, p@),
{
    text_occurs_at(s, 0, p)
}

/// `s` with every leading copy of `p` removed (`str::trim_start_matches`).
pub open spec fn strip_leading(s: Seq<char>, p: Seq<char>) -> Seq<char>
    decreases s.len(),
{
    if p.len() > 0 && occurs_at(s, 0, p) {
        strip_leading(s.subrange(p.len() as int, s.len() as int), p)
    } else {
        s
    }
}

/// A decimal digit character.
pub open spec fn is_digit(c: char) -> bool {
    '0' <= c && c <= '9'
}

/// Value of a decimal digit character.
pub open spec fn digit_value(c: char) -> int {
    c as int - '0' as int
}

/// The number that a string of decimal digits denotes.
pub open spec fn decimal_value(s: Seq<char>) -> int
    decreases s.len(),
{
    if s.len() == 0 {
        0
    } else {
        decimal_value(s.drop_last()) * 10 + digit_value(s.last())
    }
}

/// Every character is a decimal digit.
pub open spec fn all_digits(s: Seq<char>) -> bool {
    forall|i: int| 0 <= i < s.len() ==> is_digit(#[trigger] s[i])
}

/// What `str::parse` gives for an unsigned integer type whose largest value
/// is `max`: an optional `+`, then one or more decimal digits whose value
/// does not exceed `max`.
pub open spec fn parsed_unsigned(s: Seq<char>, max: int) -> Option<int> {
    let digits = if s.len() > 0 && s[0] == '+' {
        s.drop_first()
    } else {
        s
    };
    if digits.len() > 0 && all_digits(digits) && decimal_value(digits) <= max {
        Some(decimal_value(digits))
    } else {
        None
    }
}

/// Index of the last occurrence of `c` in `s`.
pub open spec fn last_index_of(s: Seq<char>, c: char) -> Option<int>
    decreases s.len(),
{
    if s.len() == 0 {
        None
    } else if s.last() == c {
        Some(s.len() - 1)
    } else {
        last_index_of(s.drop_last(), c)
    }
}

proof fn lemma_decimal_nonneg(s: Seq<char>)
    requires
        all_digits(s),
    ensures
        decimal_value(s) >= 0,
    decreases s.len(),
{
    if s.len() > 0 {
        lemma_decimal_nonneg(s.drop_last());
    }
}

proof fn lemma_last_index_bounds(s: Seq<char>, c: char)
    ensures
        last_index_of(s, c) matches Some(k) ==> 0 <= k < s.len() && s[k] == c,
        last_index_of(s, c) is None ==> forall|i: int| 0 <= i < s.len() ==> s[i] != c,
    decreases s.len(),
{
    if s.len() > 0 {
        lemma_last_index_bounds(s.drop_last(), c);
        if s.last() != c {
            assert forall|i: int| 0 <= i < s.len() - 1 implies s[i] == s.drop_last()[i] by {}
        }
    }
}

/// Character-wise equality of two strings.
pub fn text_eq(a: &str, b: &str) -> (r: bool)
    ensures
        r == (a@ == b@),
{
    let n = a.unicode_len();
    if n != b.unicode_len() {
        return false;
    }
    let mut i: usize = 0;
    while i < n
        invariant
            n == a@.len(),
            n == b@.len(),
            i <= n,
            forall|j: int| 0 <= j < i ==> a@[j] == b@[j],
        decreases n - i,
    {
        if a.get_char(i) != b.get_char(i) {
            return false;
        }
        i = i + 1;
    }
    assert(a@ =~= b@);
    true
}

/// Does `p` occur in `s` at character position `at`?
fn text_occurs_at(s: &str, at: usize, p: &str) -> (r: bool)
    requires
        at <= s@.len(),
    ensures
        r == occurs_at(s@, at as int, p@),
{
    let n = s.unicode_len();
    let m = p.unicode_len();
    if m > n - at {
        return false;
    }
    let mut j: usize = 0;
    while j < m
        invariant
            n == s@.len(),
            m == p@.len(),
            at + m <= n,
            j <= m,
            forall|k: int| 0 <= k < j ==> s@[at + k] == p@[k],
        decreases m - j,
    {
        if s.get_char(at + j) != p.get_char(j) {
            assert(s@.subrange(at as int, at + m)[j as int] != p@[j as int]);
            return false;
        }
        j = j + 1;
    }
    assert(s@.subrange(at as int, at + m) =~= p@);
    true
}

/// `s` with every leading copy of `p` removed (`str::trim_start_matches`).
pub fn trim_start_matches<'a>(s: &'a str, p: &str) -> (r: &'a str)
    ensures
        r@ == strip_leading(s@, p@),
{
    let n = s.unicode_len();
    let m = p.unicode_len();
    let mut pos: usize = 0;
    assert(s@.subrange(0, n as int) =~= s@);
    while m > 0 && pos <= n && text_occurs_at(s, pos, p)
        invariant
            n == s@.len(),
            m == p@.len(),
            pos <= n,
            strip_leading(s@, p@) == strip_leading(s@.subrange(pos as int, n as int), p@),
        decreases n - pos,
    {
        let ghost rest = s@.subrange(pos as int, n as int);
        assert(rest.subrange(0, m as int) =~= s@.subrange(pos as int, pos + m));
        assert(rest.subrange(m as int, rest.len() as int) =~= s@.subrange(pos + m, n as int));
        pos = pos + m;
    }
    if m > 0 {
        let ghost rest = s@.subrange(pos as int, n as int);
        assert(rest.subrange(0, m as int) =~= s@.subrange(pos as int, pos + m) || m > rest.len());
    }
    s.substring_char(pos, n)
}

/// Value of the unsigned decimal numeral `s` as `str::parse` reads it, or
/// `None` where the text is not such a numeral or its value exceeds `max`.
pub fn parse_unsigned(s: &str, max: u64) -> (r: Option<u64>)
    requires
        max < u64::MAX / 16,
    ensures
        r matches Some(v) ==> parsed_unsigned(s@, max as int) == Some(v as int),
        r is None ==> parsed_unsigned(s@, max as int) is None,
{
    let n = s.unicode_len();
    let start: usize = if n > 0 && s.get_char(0) == '+' { 1 } else { 0 };
    let ghost digits = if s@.len() > 0 && s@[0] == '+' {
        s@.drop_first()
    } else {
        s@
    };
    assert(digits =~= s@.subrange(start as int, n as int));
    if start == n {
        return None;
    }
    let mut acc: u64 = 0;
    let mut i: usize = start;
    while i < n
        invariant
            n == s@.len(),
            start <= i <= n,
            digits == s@.subrange(start as int, n as int),
            digits == (if s@.len() > 0 && s@[0] == '+' { s@.drop_first() } else { s@ }),
            max < u64::MAX / 16,
            all_digits(s@.subrange(start as int, i as int)),
            acc as int == if decimal_value(s@.subrange(start as int, i as int)) <= max {
                decimal_value(s@.subrange(start as int, i as int))
            } else {
                max + 1
            },
        decreases n - i,
    {
        let c = s.get_char(i);
        let ghost pre = s@.subrange(start as int, i as int);
        let ghost next = s@.subrange(start as int, i + 1);
        assert(next.drop_last() =~= pre);
        if !('0' <= c && c <= '9') {
            assert(digits[i - start] == c);
            assert(!is_digit(digits[i - start]));
            assert(!all_digits(digits));
            return None;
        }
        proof {
            lemma_decimal_nonneg(pre);
        }
        let d = (c as u32 - '0' as u32) as u64;
        let grown = acc * 10 + d;
        acc = if grown > max { max + 1 } else { grown };
        i = i + 1;
        assert(all_digits(next)) by {
            assert forall|k: int| 0 <= k < next.len() implies is_digit(#[trigger] next[k]) by {
                if k < pre.len() {
                    assert(next[k] == pre[k]);
                }
            }
        }
    }
    if acc > max {
        None
    } else {
        Some(acc)
    }
}

/// Position of the last `c` in `s`, counted in characters.
pub fn rfind_char(s: &str, c: char) -> (r: Option<usize>)
    ensures
        r matches Some(k) ==> last_index_of(s@, c) == Some(k as int),
        r is None ==> last_index_of(s@, c) is None,
{
    let n = s.unicode_len();
    let mut i: usize = n;
    assert(s@.subrange(0, n as int) =~= s@);
    while i > 0
        invariant
            n == s@.len(),
            i <= n,
            last_index_of(s@, c) == last_index_of(s@.subrange(0, i as int), c),
        decreases i,
    {
        let ghost pre = s@.subrange(0, i as int);
        assert(pre.drop_last() =~= s@.subrange(0, i - 1));
        if s.get_char(i - 1) == c {
            return Some(i - 1);
        }
        i = i - 1;
    }
    None
}

/// The character of a decimal digit value.
pub open spec fn digit_char(d: nat) -> char {
    (('0' as int) + d) as char
}

/// Decimal numeral of `n`, without leading zeros (`Display` of an unsigned
/// integer).
pub open spec fn decimal_chars(n: nat) -> Seq<char>
    decreases n,
{
    if n < 10 {
        seq![digit_char(n)]
    } else {
        decimal_chars(n / 10).push(digit_char(n % 10))
    }
}

/// Decimal numeral of a signed integer, with a leading `-` when negative.
pub open spec fn signed_decimal_chars(n: int) -> Seq<char> {
    if n < 0 {
        seq!['-'] + decimal_chars((-n) as nat)
    } else {
        decimal_chars(n as nat)
    }
}

/// A decimal numeral reads back as its number: it is a non-empty run of
/// digits whose value is `n`.
pub proof fn lemma_decimal_chars_value(n: nat)
    ensures
        decimal_chars(n).len() >= 1,
        all_digits(decimal_chars(n)),
        decimal_value(decimal_chars(n)) == n,
    decreases n,
{
    let s = decimal_chars(n);
    if n < 10 {
        assert(s.drop_last() =~= Seq::<char>::empty());
        assert(digit_value(digit_char(n)) == n);
        assert(decimal_value(s.drop_last()) == 0);
        assert(decimal_value(s) == decimal_value(s.drop_last()) * 10 + digit_value(s.last()));
    } else {
        lemma_decimal_chars_value(n / 10);
        let r = decimal_chars(n / 10);
        assert(s.drop_last() =~= r);
        assert(digit_value(digit_char(n % 10)) == n % 10);
        assert(decimal_value(s) == decimal_value(r) * 10 + digit_value(s.last()));
        assert forall|i: int| 0 <= i < s.len() implies is_digit(#[trigger] s[i]) by {
            if i < r.len() {
                assert(s[i] == r[i]);
            }
        }
    }
}

/// A number's decimal text, as `decimal_text` writes it, parses back as that
/// number under any limit it does not exceed, and has no leading zero.
pub proof fn law_decimal_roundtrip(n: nat, max: int)
    ensures
        n <= max ==> parsed_unsigned(decimal_chars(n), max) == Some(n as int),
        n > max ==> parsed_unsigned(decimal_chars(n), max) is None,
        n >= 10 ==> decimal_chars(n)[0] != '0',
    decreases n,
{
    lemma_decimal_chars_value(n);
    let d = decimal_chars(n);
    assert(is_digit(d[0]));
    if n >= 10 {
        law_decimal_roundtrip(n / 10, max);
        let r = decimal_chars(n / 10);
        assert(d[0] == r[0]);
        if n / 10 < 10 {
            assert(r[0] == digit_char(n / 10));
        }
    }
}

/// A text that parses as an unsigned number is an optional `+` followed by
/// decimal digits only, and its value does not exceed the limit.
pub proof fn law_parsed_unsigned_shape(s: Seq<char>, max: int)
    ensures
        parsed_unsigned(s, max) matches Some(v) ==> 0 <= v <= max && s.len() > 0
            && forall|i: int| 0 <= i < s.len() ==> is_digit(#[trigger] s[i]) || (i == 0 && s[i] == '+'),
{
    if parsed_unsigned(s, max) is Some {
        let digits = if s.len() > 0 && s[0] == '+' { s.drop_first() } else { s };
        lemma_decimal_nonneg(digits);
        assert forall|i: int| 0 <= i < s.len() implies is_digit(#[trigger] s[i]) || (i == 0 && s[i] == '+') by {
            if s[0] == '+' {
                if i > 0 {
                    assert(s[i] == digits[i - 1]);
                }
            } else {
                assert(s[i] == digits[i]);
            }
        }
    }
}

fn digit_str(d: u64) -> (r: &'static str)
    requires
        d < 10,
    ensures
        r@ == seq![digit_char(d as nat)],
{
    proof {
        reveal_strlit("0");
        reveal_strlit("1");
        reveal_strlit("2");
        reveal_strlit("3");
        reveal_strlit("4");
        reveal_strlit("5");
        reveal_strlit("6");
        reveal_strlit("7");
        reveal_strlit("8");
        reveal_strlit("9");
    }
    let r = if d == 0 {
        "0"
    } else if d == 1 {
        "1"
    } else if d == 2 {
        "2"
    } else if d == 3 {
        "3"
    } else if d == 4 {
        "4"
    } else if d == 5 {
        "5"
    } else if d == 6 {
        "6"
    } else if d == 7 {
        "7"
    } else if d == 8 {
        "8"
    } else {
        "9"
    };
    assert(r@ =~= seq![digit_char(d as nat)]);
    r
}

/// Appends the decimal numeral of `n` to `out`.
pub fn push_decimal(out: &mut String, n: u64)
    ensures
        final(out)@ == old(out)@ + decimal_chars(n as nat),
    decreases n,
{
    if n >= 10 {
        push_decimal(out, n / 10);
    }
    out.append(digit_str(n % 10));
    assert(decimal_chars(n as nat) == if n < 10 {
        seq![digit_char(n as nat)]
    } else {
        decimal_chars((n / 10) as nat).push(digit_char((n % 10) as nat))
    });
}

/// Decimal numeral of an unsigned integer.
pub fn decimal_text(n: u64) -> (r: String)
    ensures
        r@ == decimal_chars(n as nat),
{
    let mut out = String::new();
    push_decimal(&mut out, n);
    assert(out@ =~= decimal_chars(n as nat));
    out
}

/// Decimal numeral of a signed integer.
pub fn signed_decimal_text(n: i64) -> (r: String)
    ensures
        r@ == signed_decimal_chars(n as int),
{
    proof {
        reveal_strlit("-");
    }
    if n < 0 {
        let mut out = String::from_str("-");
        let magnitude: u64 = if n == i64::MIN {
            9223372036854775808u64
        } else {
            (-n) as u64
        };
        push_decimal(&mut out, magnitude);
        assert(out@ =~= signed_decimal_chars(n as int));
        out
    } else {
        decimal_text(n as u64)
    }
}

/// A hexadecimal digit character (either case).
pub open spec fn is_hex_digit(c: char) -> bool {
    ('0' <= c && c <= '9') || ('a' <= c && c <= 'f') || ('A' <= c && c <= 'F')
}

/// Value of a hexadecimal digit character.
pub open spec fn hex_digit_value(c: char) -> int {
    if '0' <= c && c <= '9' {
        c as int - '0' as int
    } else if 'a' <= c && c <= 'f' {
        c as int - 'a' as int + 10
    } else {
        c as int - 'A' as int + 10
    }
}

/// Every character is a hexadecimal digit.
pub open spec fn all_hex(s: Seq<char>) -> bool {
    forall|i: int| 0 <= i < s.len() ==> is_hex_digit(#[trigger] s[i])
}

/// The number that a string of hexadecimal digits denotes.
pub open spec fn hex_value(s: Seq<char>) -> int
    decreases s.len(),
{
    if s.len() == 0 {
        0
    } else {
        hex_value(s.drop_last()) * 16 + hex_digit_value(s.last())
    }
}

/// What `from_str_radix(s, 16)` gives for an unsigned integer type whose
/// largest value is `max`: an optional `+`, then one or more hexadecimal
/// digits whose value does not exceed `max`.
pub open spec fn parsed_hex(s: Seq<char>, max: int) -> Option<int> {
    let digits = if s.len() > 0 && s[0] == '+' {
        s.drop_first()
    } else {
        s
    };
    if digits.len() > 0 && all_hex(digits) && hex_value(digits) <= max {
        Some(hex_value(digits))
    } else {
        None
    }
}

proof fn lemma_hex_nonneg(s: Seq<char>)
    requires
        forall|i: int| 0 <= i < s.len() ==> is_hex_digit(#[trigger] s[i]),
    ensures
        hex_value(s) >= 0,
    decreases s.len(),
{
    if s.len() > 0 {
        lemma_hex_nonneg(s.drop_last());
    }
}

/// A hexadecimal field as the console reads it: every leading `0x` is
/// dropped and the rest read as `from_str_radix(.., 16)` does, up to `max`.
pub fn parse_hex_field(s: &str, max: u64) -> (r: Option<u64>)
    requires
        max < u64::MAX / 16,
    ensures
        r matches Some(v) ==> parsed_hex(strip_leading(s@, "0x"@), max as int) == Some(v as int),
        r is None ==> parsed_hex(strip_leading(s@, "0x"@), max as int) is None,
{
    let t = trim_start_matches(s, "0x");
    let n = t.unicode_len();
    let start: usize = if n > 0 && t.get_char(0) == '+' { 1 } else { 0 };
    let ghost digits = if t@.len() > 0 && t@[0] == '+' {
        t@.drop_first()
    } else {
        t@
    };
    assert(digits =~= t@.subrange(start as int, n as int));
    if start == n {
        return None;
    }
    let mut acc: u64 = 0;
    let mut i: usize = start;
    while i < n
        invariant
            n == t@.len(),
            start <= i <= n,
            digits == t@.subrange(start as int, n as int),
            digits == (if t@.len() > 0 && t@[0] == '+' { t@.drop_first() } else { t@ }),
            t@ == strip_leading(s@, "0x"@),
            max < u64::MAX / 16,
            forall|k: int| 0 <= k < i - start ==> is_hex_digit(#[trigger] digits[k]),
            acc as int == if hex_value(t@.subrange(start as int, i as int)) <= max {
                hex_value(t@.subrange(start as int, i as int))
            } else {
                max + 1
            },
        decreases n - i,
    {
        let c = t.get_char(i);
        let ghost pre = t@.subrange(start as int, i as int);
        let ghost next = t@.subrange(start as int, i + 1);
        assert(next.drop_last() =~= pre);
        assert(digits[i - start] == c);
        let d: u64 = if '0' <= c && c <= '9' {
            (c as u32 - '0' as u32) as u64
        } else if 'a' <= c && c <= 'f' {
            (c as u32 - 'a' as u32 + 10) as u64
        } else if 'A' <= c && c <= 'F' {
            (c as u32 - 'A' as u32 + 10) as u64
        } else {
            proof {
                assert(!is_hex_digit(digits[i - start]));
            }
            return None;
        };
        proof {
            assert forall|k: int| 0 <= k < pre.len() implies is_hex_digit(#[trigger] pre[k]) by {
                assert(pre[k] == digits[k]);
            }
            lemma_hex_nonneg(pre);
        }
        let grown = acc * 16 + d;
        acc = if grown > max { max + 1 } else { grown };
        i = i + 1;
    }
    assert(t@.subrange(start as int, n as int) == digits);
    if acc > max {
        None
    } else {
        Some(acc)
    }
}

/// What `str::to_uppercase` gives for a string: each character replaced by
/// its Unicode uppercase mapping.
pub uninterp spec fn uppercase_of(s: Seq<char>) -> Seq<char>;

/// Calls `str::to_uppercase`. The contract only names the result as the
/// uppercase mapping of the argument; the Unicode mapping itself is not
/// stated.
#[verifier::external_body]
pub(crate) fn to_uppercase(s: &str) -> (r: String)
    ensures
        r@ == uppercase_of(s@),
{
    s.to_uppercase()
}

} // verus!
