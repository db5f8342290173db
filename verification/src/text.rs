//! Character-level text helpers shared by the parsers and formatters: ASCII
//! case folding, whitespace trimming, splitting, decimal and hexadecimal
//! digits, each with the mathematical definition that callers reason with.
use vstd::prelude::*;

verus! {

pub open spec fn is_ascii_upper(c: char) -> bool {
    'A' <= c && c <= 'Z'
}

pub open spec fn is_ascii_lower(c: char) -> bool {
    'a' <= c && c <= 'z'
}

pub open spec fn is_ascii_digit(c: char) -> bool {
    '0' <= c && c <= '9'
}

/// `char::to_ascii_lowercase`.
pub open spec fn lower_char(c: char) -> char {
    if is_ascii_upper(c) {
        ((c as u32) + 32) as char
    } else {
        c
    }
}

/// `char::to_ascii_uppercase`.
pub open spec fn upper_char(c: char) -> char {
    if is_ascii_lower(c) {
        ((c as u32) - 32) as char
    } else {
        c
    }
}

/// `str::to_ascii_lowercase`.
pub open spec fn lower(s: Seq<char>) -> Seq<char> {
    s.map_values(|c: char| lower_char(c))
}

/// `char::is_whitespace`: the Unicode `White_Space` property.
pub open spec fn is_whitespace(c: char) -> bool {
    ||| ('\t' <= c && c <= '\r')
    ||| c == ' '
    ||| c == '\u{85}'
    ||| c == '\u{a0}'
    ||| c == '\u{1680}'
    ||| ('\u{2000}' <= c && c <= '\u{200a}')
    ||| c == '\u{2028}'
    ||| c == '\u{2029}'
    ||| c == '\u{202f}'
    ||| c == '\u{205f}'
    ||| c == '\u{3000}'
}

pub open spec fn trim_end(s: Seq<char>) -> Seq<char>
    decreases s.len(),
{
    if s.len() > 0 && is_whitespace(s.last()) {
        trim_end(s.drop_last())
    } else {
        s
    }
}

pub open spec fn trim_start(s: Seq<char>) -> Seq<char>
    decreases s.len(),
{
    if s.len() > 0 && is_whitespace(s.first()) {
        trim_start(s.drop_first())
    } else {
        s
    }
}

/// `str::trim`: whitespace removed from both ends.
pub open spec fn trim(s: Seq<char>) -> Seq<char> {
    trim_start(trim_end(s))
}

/// `str::split` on one character: the pieces between separators, in order;
/// there is always at least one piece.
pub open spec fn split(s: Seq<char>, sep: char) -> Seq<Seq<char>>
    decreases s.len(),
{
    if s.len() == 0 {
        seq![Seq::<char>::empty()]
    } else {
        let r = split(s.drop_last(), sep);
        if s.last() == sep {
            r.push(Seq::<char>::empty())
        } else {
            r.update(r.len() - 1, r.last().push(s.last()))
        }
    }
}

/// Joins pieces with a separator between consecutive ones.
pub open spec fn join(parts: Seq<Seq<char>>, sep: Seq<char>) -> Seq<char>
    decreases parts.len(),
{
    if parts.len() == 0 {
        Seq::<char>::empty()
    } else if parts.len() == 1 {
        parts[0]
    } else {
        join(parts.drop_last(), sep) + sep + parts.last()
    }
}

pub open spec fn digit_char(d: int) -> char {
    ((d + 48) as u32) as char
}

/// Decimal digits of a natural number, without leading zeros.
pub open spec fn decimal(n: nat) -> Seq<char>
    decreases n,
{
    if n < 10 {
        seq![digit_char(n as int)]
    } else {
        decimal(n / 10).push(digit_char((n % 10) as int))
    }
}

/// Decimal text of an integer, with a leading minus sign when negative.
pub open spec fn signed_decimal(n: int) -> Seq<char> {
    if n < 0 {
        seq!['-'] + decimal((-n) as nat)
    } else {
        decimal(n as nat)
    }
}

pub open spec fn all_digits(s: Seq<char>) -> bool {
    forall|i: int| 0 <= i < s.len() ==> is_ascii_digit(#[trigger] s[i])
}

/// The value of a sequence of decimal digits.
pub open spec fn digits_value(s: Seq<char>) -> nat
    decreases s.len(),
{
    if s.len() == 0 {
        0
    } else {
        digits_value(s.drop_last()) * 10 + ((s.last() as u32) - 48) as nat
    }
}

pub open spec fn hex_digit_char(d: int) -> char {
    if d < 10 {
        digit_char(d)
    } else {
        ((d + 87) as u32) as char
    }
}

/// Lowercase hexadecimal digits of a natural number, without leading zeros.
pub open spec fn hex_digits(n: nat) -> Seq<char>
    decreases n,
{
    if n < 16 {
        seq![hex_digit_char(n as int)]
    } else {
        hex_digits(n / 16).push(hex_digit_char((n % 16) as int))
    }
}

/// Lowercase hexadecimal digits padded with zeros to at least two (`{:02x}`).
pub open spec fn hex_min2(n: nat) -> Seq<char> {
    if n < 16 {
        seq!['0', hex_digit_char(n as int)]
    } else {
        hex_digits(n)
    }
}

pub open spec fn hex_value(c: char) -> Option<int> {
    if is_ascii_digit(c) {
        Some((c as u32) - 48)
    } else if 'a' <= c && c <= 'f' {
        Some((c as u32) - 87)
    } else {
        None
    }
}

// ---------------------------------------------------------------------------
/// `String::push`.
#[verifier::external_body]
fn push_char(s: &mut String, c: char)
    ensures
        final(s)@ == old(s)@.push(c),
{
    s.push(c)
}

/// The characters of a string slice, in order.
pub fn chars_of(s: &str) -> (v: Vec<char>)
    ensures
        v@ == s@,
{
    let mut v: Vec<char> = Vec::new();
    for c in it: s.chars()
        invariant
            v@ == it.seq().take(it.index() as int),
    {
        v.push(c);
    }
    v
}

/// A string made of the given characters.
pub fn string_of(chars: &[char]) -> (s: String)
    ensures
        s@ == chars@,
{
    let mut s = String::new();
    let mut i: usize = 0;
    while i < chars.len()
        invariant
            0 <= i <= chars@.len(),
            s@ == chars@.take(i as int),
        decreases chars@.len() - i,
    {
        push_char(&mut s, chars[i]);
        proof {
            assert(chars@.take(i as int + 1) =~= chars@.take(i as int).push(chars@[i as int]));
        }
        i = i + 1;
    }
    proof {
        assert(chars@.take(chars@.len() as int) =~= chars@);
    }
    s
}

/// An owned copy of a string slice.
pub fn owned(s: &str) -> (r: String)
    ensures
        r@ == s@,
{
    string_of(chars_of(s).as_slice())
}

/// Appends the characters of `s` to `v`.
pub fn push_str(v: &mut Vec<char>, s: &str)
    ensures
        final(v)@ == old(v)@ + s@,
{
    let chars = chars_of(s);
    let ghost start = v@;
    let mut i: usize = 0;
    while i < chars.len()
        invariant
            0 <= i <= chars@.len(),
            chars@ == s@,
            v@ == start + chars@.take(i as int),
        decreases chars@.len() - i,
    {
        v.push(chars[i]);
        proof {
            assert(chars@.take(i as int + 1) =~= chars@.take(i as int).push(chars@[i as int]));
            assert(start + chars@.take(i as int + 1) =~= (start + chars@.take(i as int)).push(
                chars@[i as int],
            ));
        }
        i = i + 1;
    }
    proof {
        assert(chars@.take(chars@.len() as int) =~= chars@);
    }
}

/// Appends `w` to `v`.
pub fn push_chars(v: &mut Vec<char>, w: &[char])
    ensures
        final(v)@ == old(v)@ + w@,
{
    let ghost start = v@;
    let mut i: usize = 0;
    while i < w.len()
        invariant
            0 <= i <= w@.len(),
            v@ == start + w@.take(i as int),
        decreases w@.len() - i,
    {
        v.push(w[i]);
        proof {
            assert(start + w@.take(i as int + 1) =~= (start + w@.take(i as int)).push(w@[i as int]));
        }
        i = i + 1;
    }
    proof {
        assert(w@.take(w@.len() as int) =~= w@);
    }
}

pub fn lower_char_exec(c: char) -> (r: char)
    ensures
        r == lower_char(c),
{
    if 'A' <= c && c <= 'Z' {
        ((c as u32 + 32) as u8) as char
    } else {
        c
    }
}

pub fn upper_char_exec(c: char) -> (r: char)
    ensures
        r == upper_char(c),
{
    if 'a' <= c && c <= 'z' {
        ((c as u32 - 32) as u8) as char
    } else {
        c
    }
}

pub fn is_whitespace_exec(c: char) -> (r: bool)
    ensures
        r == is_whitespace(c),
{
    ('\t' <= c && c <= '\r') || c == ' ' || c == '\u{85}' || c == '\u{a0}' || c == '\u{1680}' || (
    '\u{2000}' <= c && c <= '\u{200a}') || c == '\u{2028}' || c == '\u{2029}' || c == '\u{202f}'
        || c == '\u{205f}' || c == '\u{3000}'
}

/// `str::to_ascii_lowercase` on characters.
pub fn lower_chars(v: &[char]) -> (r: Vec<char>)
    ensures
        r@ == lower(v@),
{
    let mut r: Vec<char> = Vec::new();
    let mut i: usize = 0;
    while i < v.len()
        invariant
            0 <= i <= v@.len(),
            r@ == lower(v@.take(i as int)),
        decreases v@.len() - i,
    {
        r.push(lower_char_exec(v[i]));
        proof {
            assert(lower(v@.take(i as int + 1)) =~= lower(v@.take(i as int)).push(
                lower_char(v@[i as int]),
            ));
        }
        i = i + 1;
    }
    proof {
        assert(v@.take(v@.len() as int) =~= v@);
    }
    r
}

proof fn lemma_trim_end_prefix(s: Seq<char>, n: int)
    requires
        0 <= n <= s.len(),
        forall|i: int| n <= i < s.len() ==> is_whitespace(#[trigger] s[i]),
    ensures
        trim_end(s) == trim_end(s.take(n)),
    decreases s.len() - n,
{
    if n < s.len() {
        assert(s.drop_last() == s.take(s.len() - 1));
        assert(is_whitespace(s[s.len() - 1]));
        lemma_trim_end_prefix(s.drop_last(), n);
        assert(s.drop_last().take(n) =~= s.take(n));
    } else {
        assert(s.take(n) =~= s);
    }
}

proof fn lemma_trim_start_suffix(s: Seq<char>, n: int)
    requires
        0 <= n <= s.len(),
        forall|i: int| 0 <= i < n ==> is_whitespace(#[trigger] s[i]),
    ensures
        trim_start(s) == trim_start(s.skip(n)),
    decreases n,
{
    if n > 0 {
        assert(is_whitespace(s[0]));
        assert(s.drop_first() =~= s.skip(1));
        lemma_trim_start_suffix(s.drop_first(), n - 1);
        assert(s.drop_first().skip(n - 1) =~= s.skip(n));
    } else {
        assert(s.skip(0) =~= s);
    }
}

/// `str::trim` on characters.
pub fn trim_chars(v: &[char]) -> (r: Vec<char>)
    ensures
        r@ == trim(v@),
{
    let mut end = v.len();
    while end > 0 && is_whitespace_exec(v[end - 1])
        invariant
            0 <= end <= v@.len(),
            forall|i: int| end <= i < v@.len() ==> is_whitespace(#[trigger] v@[i]),
        decreases end,
    {
        end = end - 1;
    }
    proof {
        lemma_trim_end_prefix(v@, end as int);
        assert(trim_end(v@.take(end as int)) == v@.take(end as int)) by {
            let t = v@.take(end as int);
            if t.len() > 0 {
                assert(!is_whitespace(v@[end - 1]));
            }
        }
    }
    let mut start: usize = 0;
    while start < end && is_whitespace_exec(v[start])
        invariant
            0 <= start <= end <= v@.len(),
            forall|i: int| 0 <= i < start ==> is_whitespace(#[trigger] v@[i]),
        decreases end - start,
    {
        start = start + 1;
    }
    let ghost t = v@.take(end as int);
    proof {
        lemma_trim_start_suffix(t, start as int);
        assert(trim_start(t.skip(start as int)) == t.skip(start as int)) by {
            let u = t.skip(start as int);
            if u.len() > 0 {
                assert(u.first() == v@[start as int]);
            }
        }
    }
    let mut r: Vec<char> = Vec::new();
    let mut i = start;
    while i < end
        invariant
            start <= i <= end <= v@.len(),
            t == v@.take(end as int),
            r@ == t.subrange(start as int, i as int),
        decreases end - i,
    {
        r.push(v[i]);
        proof {
            assert(t.subrange(start as int, i + 1) =~= t.subrange(start as int, i as int).push(
                v@[i as int],
            ));
        }
        i = i + 1;
    }
    proof {
        assert(r@ =~= t.skip(start as int));
    }
    r
}

pub(crate) proof fn lemma_split_nonempty(s: Seq<char>, sep: char)
    ensures
        split(s, sep).len() >= 1,
    decreases s.len(),
{
    if s.len() > 0 {
        lemma_split_nonempty(s.drop_last(), sep);
    }
}

/// `str::split` on one character.
pub fn split_chars(v: &[char], sep: char) -> (r: Vec<Vec<char>>)
    ensures
        r@.len() == split(v@, sep).len(),
        forall|k: int| 0 <= k < r@.len() ==> (#[trigger] r@[k])@ == split(v@, sep)[k],
{
    let mut r: Vec<Vec<char>> = Vec::new();
    let mut piece: Vec<char> = Vec::new();
    let mut i: usize = 0;
    while i < v.len()
        invariant
            0 <= i <= v@.len(),
            r@.len() + 1 == split(v@.take(i as int), sep).len(),
            forall|k: int|
                0 <= k < r@.len() ==> (#[trigger] r@[k])@ == split(v@.take(i as int), sep)[k],
            piece@ == split(v@.take(i as int), sep).last(),
        decreases v@.len() - i,
    {
        proof {
            assert(v@.take(i as int + 1).drop_last() =~= v@.take(i as int));
            lemma_split_nonempty(v@.take(i as int), sep);
        }
        if v[i] == sep {
            let done = piece;
            r.push(done);
            piece = Vec::new();
        } else {
            piece.push(v[i]);
        }
        i = i + 1;
    }
    proof {
        assert(v@.take(v@.len() as int) =~= v@);
    }
    r.push(piece);
    r
}

pub open spec fn views(parts: Seq<Vec<char>>) -> Seq<Seq<char>> {
    parts.map_values(|p: Vec<char>| p@)
}

/// Joins the pieces with `sep` between consecutive ones.
pub fn join_chars(parts: &Vec<Vec<char>>, sep: &[char]) -> (r: Vec<char>)
    ensures
        r@ == join(views(parts@), sep@),
{
    let mut r: Vec<char> = Vec::new();
    let mut i: usize = 0;
    while i < parts.len()
        invariant
            0 <= i <= parts@.len(),
            r@ == join(views(parts@.take(i as int)), sep@),
        decreases parts@.len() - i,
    {
        proof {
            assert(views(parts@.take(i as int + 1)).drop_last() =~= views(parts@.take(i as int)));
            assert(views(parts@.take(i as int + 1)).last() == parts@[i as int]@);
        }
        if i > 0 {
            push_chars(&mut r, sep);
        }
        push_chars(&mut r, parts[i].as_slice());
        proof {
            if i == 0 {
                assert(views(parts@.take(1)) =~= seq![parts@[0]@]);
                assert(r@ =~= parts@[0]@);
            }
        }
        i = i + 1;
    }
    proof {
        assert(parts@.take(parts@.len() as int) =~= parts@);
    }
    r
}

/// Whether two character sequences are equal.
pub fn same_chars(a: &[char], b: &[char]) -> (r: bool)
    ensures
        r == (a@ == b@),
{
    if a.len() != b.len() {
        return false;
    }
    let mut i: usize = 0;
    while i < a.len()
        invariant
            0 <= i <= a@.len(),
            a@.len() == b@.len(),
            forall|k: int| 0 <= k < i ==> a@[k] == b@[k],
        decreases a@.len() - i,
    {
        if a[i] != b[i] {
            return false;
        }
        i = i + 1;
    }
    proof {
        assert(a@ =~= b@);
    }
    true
}

/// Whether the characters equal a string slice.
pub fn eq_str(a: &[char], b: &str) -> (r: bool)
    ensures
        r == (a@ == b@),
{
    let chars = chars_of(b);
    same_chars(a, chars.as_slice())
}

/// Decimal digits of `n`.
pub fn decimal_chars(n: u64) -> (r: Vec<char>)
    ensures
        r@ == decimal(n as nat),
    decreases n,
{
    if n < 10 {
        let mut r: Vec<char> = Vec::new();
        r.push(((n + 48) as u8) as char);
        r
    } else {
        let mut r = decimal_chars(n / 10);
        r.push(((n % 10 + 48) as u8) as char);
        r
    }
}

/// Decimal text of a signed integer.
pub fn signed_decimal_chars(n: i64) -> (r: Vec<char>)
    ensures
        r@ == signed_decimal(n as int),
{
    if n < 0 {
        let magnitude: u64 = if n == i64::MIN {
            9223372036854775808u64
        } else {
            (-n) as u64
        };
        let mut r: Vec<char> = Vec::new();
        r.push('-');
        let digits = decimal_chars(magnitude);
        push_chars(&mut r, digits.as_slice());
        r
    } else {
        decimal_chars(n as u64)
    }
}

fn hex_digit_exec(d: u32) -> (c: char)
    requires
        d < 16,
    ensures
        c == hex_digit_char(d as int),
{
    if d < 10 {
        ((d + 48) as u8) as char
    } else {
        ((d + 87) as u8) as char
    }
}

/// Lowercase hexadecimal digits of `n`.
pub fn hex_digits_chars(n: u32) -> (r: Vec<char>)
    ensures
        r@ == hex_digits(n as nat),
    decreases n,
{
    if n < 16 {
        let mut r: Vec<char> = Vec::new();
        r.push(hex_digit_exec(n));
        r
    } else {
        let mut r = hex_digits_chars(n / 16);
        r.push(hex_digit_exec(n % 16));
        r
    }
}

/// `format!("{:02x}", n)`.
pub fn hex_min2_chars(n: u32) -> (r: Vec<char>)
    ensures
        r@ == hex_min2(n as nat),
{
    if n < 16 {
        let mut r: Vec<char> = Vec::new();
        r.push('0');
        r.push(hex_digit_exec(n));
        r
    } else {
        hex_digits_chars(n)
    }
}

/// Whether every character is a decimal digit.
pub fn all_digits_exec(v: &[char]) -> (r: bool)
    ensures
        r == all_digits(v@),
{
    let mut i: usize = 0;
    while i < v.len()
        invariant
            0 <= i <= v@.len(),
            forall|k: int| 0 <= k < i ==> is_ascii_digit(#[trigger] v@[k]),
        decreases v@.len() - i,
    {
        if !('0' <= v[i] && v[i] <= '9') {
            return false;
        }
        i = i + 1;
    }
    true
}

/// The value of decimal digits, or `None` when it does not fit `limit`.
pub fn digits_value_bounded(v: &[char], limit: u64) -> (r: Option<u64>)
    requires
        all_digits(v@),
        limit <= u64::MAX / 10 - 9,
    ensures
        match r {
            Some(n) => n == digits_value(v@) && n <= limit,
            None => digits_value(v@) > limit,
        },
{
    let mut value: u64 = 0;
    let mut i: usize = 0;
    while i < v.len()
        invariant
            0 <= i <= v@.len(),
            all_digits(v@),
            limit <= u64::MAX / 10 - 9,
            value == digits_value(v@.take(i as int)),
            value <= limit,
        decreases v@.len() - i,
    {
        let d = (v[i] as u32 - 48) as u64;
        proof {
            assert(v@.take(i as int + 1).drop_last() =~= v@.take(i as int));
            assert(is_ascii_digit(v@[i as int]));
        }
        value = value * 10 + d;
        if value > limit {
            proof {
                lemma_digits_value_prefix_le(v@, i as int + 1);
            }
            return None;
        }
        i = i + 1;
    }
    proof {
        assert(v@.take(v@.len() as int) =~= v@);
    }
    Some(value)
}

/// A prefix of digits is worth no more than the whole.
proof fn lemma_digits_value_prefix_le(s: Seq<char>, n: int)
    requires
        0 <= n <= s.len(),
        all_digits(s),
    ensures
        digits_value(s.take(n)) <= digits_value(s),
    decreases s.len() - n,
{
    if n < s.len() {
        lemma_digits_value_prefix_le(s.drop_last(), n);
        assert(s.drop_last().take(n) =~= s.take(n));
        assert(is_ascii_digit(s[s.len() - 1]));
        assert(s.drop_last() =~= s.take(s.len() - 1));
    } else {
        assert(s.take(n) =~= s);
    }
}

/// `i32::from_str`: an optional `+` or `-`, then one or more ASCII digits,
/// with the value in range.
pub open spec fn parsed_i32(s: Seq<char>) -> Option<int> {
    let negative = s.len() > 0 && s[0] == '-';
    let digits = if s.len() > 0 && (s[0] == '-' || s[0] == '+') {
        s.skip(1)
    } else {
        s
    };
    if digits.len() == 0 || !all_digits(digits) {
        None
    } else {
        let value = if negative {
            -(digits_value(digits) as int)
        } else {
            digits_value(digits) as int
        };
        if -0x8000_0000 <= value <= 0x7fff_ffff {
            Some(value)
        } else {
            None
        }
    }
}

/// Parses a decimal `i32` (see [`parsed_i32`]).
pub fn parse_i32(s: &[char]) -> (r: Option<i32>)
    ensures
        match r {
            Some(v) => parsed_i32(s@) == Some(v as int),
            None => parsed_i32(s@) is None,
        },
{
    let negative = s.len() > 0 && s[0] == '-';
    let start: usize = if s.len() > 0 && (s[0] == '-' || s[0] == '+') {
        1
    } else {
        0
    };
    let digits = vstd::slice::slice_subrange(s, start, s.len());
    proof {
        assert(digits@ =~= if s@.len() > 0 && (s@[0] == '-' || s@[0] == '+') {
            s@.skip(1)
        } else {
            s@
        });
    }
    if digits.len() == 0 || !all_digits_exec(digits) {
        return None;
    }
    match digits_value_bounded(digits, 0x8000_0000) {
        None => None,
        Some(magnitude) => {
            if negative {
                Some((0 - (magnitude as i64)) as i32)
            } else if magnitude <= 0x7fff_ffff {
                Some(magnitude as i32)
            } else {
                None
            }
        },
    }
}

/// Lowercasing twice is lowercasing once.
pub(crate) proof fn lemma_lower_idempotent(s: Seq<char>)
    ensures
        lower(lower(s)) == lower(s),
{
    assert forall|i: int| 0 <= i < s.len() implies lower_char(#[trigger] lower_char(s[i]))
        == lower_char(s[i]) by {
        assert(!is_ascii_upper(lower_char(s[i])));
    }
    assert(lower(lower(s)) =~= lower(s));
}


/// Lowercasing keeps the length and lowercases each character.
pub(crate) proof fn lemma_lower_push(s: Seq<char>, c: char)
    ensures
        lower(s.push(c)) == lower(s).push(lower_char(c)),
        lower(s).len() == s.len(),
{
    assert(lower(s.push(c)) =~= lower(s).push(lower_char(c)));
}

proof fn lemma_lower_drop_last(s: Seq<char>)
    requires
        s.len() > 0,
    ensures
        lower(s).drop_last() == lower(s.drop_last()),
        lower(s).last() == lower_char(s.last()),
{
    assert(lower(s).drop_last() =~= lower(s.drop_last()));
}

proof fn lemma_lower_drop_first(s: Seq<char>)
    requires
        s.len() > 0,
    ensures
        lower(s).drop_first() == lower(s.drop_first()),
        lower(s).first() == lower_char(s.first()),
{
    assert(lower(s).drop_first() =~= lower(s.drop_first()));
}

/// Whitespace is never an uppercase ASCII letter, so case does not change it.
proof fn lemma_whitespace_lower(c: char)
    ensures
        is_whitespace(lower_char(c)) == is_whitespace(c),
{
}

proof fn lemma_trim_end_lower(s: Seq<char>)
    ensures
        trim_end(lower(s)) == lower(trim_end(s)),
    decreases s.len(),
{
    if s.len() > 0 {
        lemma_lower_drop_last(s);
        lemma_whitespace_lower(s.last());
        lemma_trim_end_lower(s.drop_last());
    }
}

proof fn lemma_trim_start_lower(s: Seq<char>)
    ensures
        trim_start(lower(s)) == lower(trim_start(s)),
    decreases s.len(),
{
    if s.len() > 0 {
        lemma_lower_drop_first(s);
        lemma_whitespace_lower(s.first());
        lemma_trim_start_lower(s.drop_first());
    }
}

/// Trimming and lowercasing commute.
pub(crate) proof fn lemma_trim_lower(s: Seq<char>)
    ensures
        trim(lower(s)) == lower(trim(s)),
        lower(s).len() == s.len(),
{
    lemma_trim_end_lower(s);
    lemma_trim_start_lower(trim_end(s));
}

/// Splitting lowercased text gives the lowercased pieces when the separator
/// is not an uppercase letter.
pub(crate) proof fn lemma_split_lower(s: Seq<char>, sep: char)
    requires
        !is_ascii_upper(sep),
        !is_ascii_lower(sep),
    ensures
        split(lower(s), sep) == split(s, sep).map_values(|t: Seq<char>| lower(t)),
    decreases s.len(),
{
    lemma_split_nonempty(s, sep);
    if s.len() > 0 {
        let c = s.last();
        lemma_lower_drop_last(s);
        lemma_split_lower(s.drop_last(), sep);
        lemma_split_nonempty(s.drop_last(), sep);
        let r = split(s.drop_last(), sep);
        let m = r.map_values(|t: Seq<char>| lower(t));
        assert(split(lower(s), sep) == if lower_char(c) == sep {
            m.push(Seq::<char>::empty())
        } else {
            m.update(m.len() - 1, m.last().push(lower_char(c)))
        });
        assert((lower_char(c) == sep) == (c == sep));
        if c == sep {
            assert(lower(Seq::<char>::empty()) =~= Seq::<char>::empty());
            assert(r.push(Seq::<char>::empty()).map_values(|t: Seq<char>| lower(t)) =~= m.push(
                Seq::<char>::empty(),
            ));
        } else {
            lemma_lower_push(r.last(), c);
            assert(m.last() == lower(r.last()));
            assert(r.update(r.len() - 1, r.last().push(c)).map_values(|t: Seq<char>| lower(t))
                =~= m.update(m.len() - 1, m.last().push(lower_char(c))));
        }
    } else {
        assert(lower(s) =~= s);
        assert(lower(Seq::<char>::empty()) =~= Seq::<char>::empty());
        assert(split(s, sep) == seq![Seq::<char>::empty()]);
        assert(split(lower(s), sep) =~= split(s, sep).map_values(|t: Seq<char>| lower(t)));
    }
}

} // verus!
