//! Text predicates shared by the modules of the library.
use vstd::prelude::*;

verus! {

/// Whether `c` has the Unicode `White_Space` property.
pub open spec fn white_space(c: char) -> bool {
    ||| '\u{9}' <= c <= '\u{d}'
    ||| c == ' '
    ||| c == '\u{85}'
    ||| c == '\u{a0}'
    ||| c == '\u{1680}'
    ||| '\u{2000}' <= c <= '\u{200a}'
    ||| c == '\u{2028}'
    ||| c == '\u{2029}'
    ||| c == '\u{202f}'
    ||| c == '\u{205f}'
    ||| c == '\u{3000}'
}

/// Whether `c` has the Unicode `White_Space` property.
pub fn is_white_space(c: char) -> (r: bool)
    ensures
        r == white_space(c),
{
    ('\u{9}' <= c && c <= '\u{d}') || c == ' ' || c == '\u{85}' || c == '\u{a0}' || c == '\u{1680}'
        || ('\u{2000}' <= c && c <= '\u{200a}') || c == '\u{2028}' || c == '\u{2029}' || c
        == '\u{202f}' || c == '\u{205f}' || c == '\u{3000}'
}

/// Whether every character of `s` is white space; true of the empty text.
pub open spec fn blank(s: Seq<char>) -> bool {
    forall|i: int| 0 <= i < s.len() ==> white_space(#[trigger] s[i])
}

/// The characters of `s`, in order.
pub fn chars_of(s: &str) -> (r: Vec<char>)
    ensures
        r@ == s@,
{
    let mut out: Vec<char> = Vec::new();
    for c in it: s.chars()
        invariant
            it.seq() == s@,
            out@ == it.seq().take(it.index() as int),
    {
        out.push(c);
    }
    out
}

/// Whether trimming `s` leaves nothing.
pub fn is_blank(s: &str) -> (r: bool)
    ensures
        r == blank(s@),
{
    for c in it: s.chars()
        invariant
            it.seq() == s@,
            forall|i: int| 0 <= i < it.index() ==> white_space(#[trigger] s@[i]),
    {
        if !is_white_space(c) {
            assert(!white_space(s@[it.index() as int]));
            return false;
        }
    }
    true
}

/// Whether `a` and `b` hold the same characters.
pub fn same(a: &str, b: &str) -> (r: bool)
    ensures
        r == (a@ == b@),
{
    let left: String = a.to_owned();
    let right: String = b.to_owned();
    left == right
}

/// What is left of `s` behind `prefix`, where it begins with it.
pub open spec fn stripped(s: Seq<char>, prefix: Seq<char>) -> Option<Seq<char>> {
    if prefix.is_prefix_of(s) {
        Some(s.skip(prefix.len() as int))
    } else {
        None
    }
}

/// What is left of `s` behind `prefix`, where it begins with it.
pub fn strip_prefix<'a>(s: &'a str, prefix: &str) -> (r: Option<&'a str>)
    ensures
        match r {
            Some(rest) => stripped(s@, prefix@) == Some(rest@),
            None => stripped(s@, prefix@) is None,
        },
{
    let total: usize = s.unicode_len();
    let n: usize = prefix.unicode_len();
    if n > total {
        return None;
    }
    let head = s.substring_char(0, n);
    if same(head, prefix) {
        let rest = s.substring_char(n, total);
        assert(rest@ =~= s@.skip(n as int));
        Some(rest)
    } else {
        None
    }
}

/// The lower case of an ASCII capital; any other character as it is.
pub open spec fn ascii_lower_char(c: char) -> char {
    if 'A' <= c <= 'Z' {
        (c as u8 + 32) as char
    } else {
        c
    }
}

/// A text with its ASCII capitals in lower case.
pub open spec fn ascii_lower(s: Seq<char>) -> Seq<char> {
    s.map_values(|c: char| ascii_lower_char(c))
}

/// The text of an optional string.
pub open spec fn opt_text(s: Option<String>) -> Option<Seq<char>> {
    match s {
        Some(t) => Some(t@),
        None => None,
    }
}

/// A copy of an optional string.
pub fn copy_opt(s: &Option<String>) -> (r: Option<String>)
    ensures
        r == *s,
{
    match s {
        Some(t) => Some(t.clone()),
        None => None,
    }
}

/// The texts of a list of strings.
pub open spec fn texts(v: Seq<String>) -> Seq<Seq<char>> {
    v.map_values(|s: String| s@)
}

/// A copy of a list of strings.
pub fn copy_list(v: &Vec<String>) -> (r: Vec<String>)
    ensures
        r@ == v@,
{
    let mut out: Vec<String> = Vec::new();
    let mut i: usize = 0;
    while i < v.len()
        invariant
            i <= v.len(),
            out@ == v@.take(i as int),
        decreases v.len() - i,
    {
        out.push(v[i].clone());
        i += 1;
    }
    out
}

/// Whether two lists hold the same texts.
pub fn same_lists(a: &Vec<String>, b: &Vec<String>) -> (r: bool)
    ensures
        r == (texts(a@) == texts(b@)),
{
    let ghost x = texts(a@);
    let ghost y = texts(b@);
    if a.len() != b.len() {
        assert(x.len() != y.len());
        return false;
    }
    let mut i: usize = 0;
    while i < a.len()
        invariant
            i <= a.len(),
            a@.len() == b@.len(),
            x == texts(a@),
            y == texts(b@),
            forall|j: int| 0 <= j < i ==> x[j] == y[j],
        decreases a.len() - i,
    {
        assert(x[i as int] == a@[i as int]@);
        assert(y[i as int] == b@[i as int]@);
        if !same(a[i].as_str(), b[i].as_str()) {
            return false;
        }
        i += 1;
    }
    assert(x =~= y);
    true
}

/// Whether `c` is an ASCII hexadecimal digit, of either case.
pub open spec fn hex_digit(c: char) -> bool {
    '0' <= c <= '9' || 'a' <= c <= 'f' || 'A' <= c <= 'F'
}

/// The value of an ASCII hexadecimal digit.
pub open spec fn hex_value(c: char) -> u8 {
    if '0' <= c <= '9' {
        (c as u8 - '0' as u8) as u8
    } else if 'a' <= c <= 'f' {
        (c as u8 - 'a' as u8 + 10) as u8
    } else {
        (c as u8 - 'A' as u8 + 10) as u8
    }
}

/// The lower-case hexadecimal digit of a value below 16.
pub open spec fn hex_char(v: u8) -> char {
    if v < 10 {
        ('0' as u8 + v) as char
    } else {
        ('a' as u8 + (v - 10)) as char
    }
}

/// Whether `s` is made of 64 hexadecimal digits, the written form of 32 bytes.
pub open spec fn hex_event_id(s: Seq<char>) -> bool {
    s.len() == 64 && forall|i: int| 0 <= i < s.len() ==> hex_digit(#[trigger] s[i])
}

/// The bytes that pairs of hexadecimal digits stand for.
pub open spec fn hex_decode(s: Seq<char>) -> Seq<u8> {
    Seq::new(
        (s.len() / 2) as nat,
        |i: int| (hex_value(s[2 * i]) * 16 + hex_value(s[2 * i + 1])) as u8,
    )
}

/// The lower-case hexadecimal text of `bytes`, two digits for each.
pub open spec fn hex_encode(bytes: Seq<u8>) -> Seq<char> {
    Seq::new(
        2 * bytes.len(),
        |i: int|
            if i % 2 == 0 {
                hex_char((bytes[i / 2] / 16) as u8)
            } else {
                hex_char((bytes[i / 2] % 16) as u8)
            },
    )
}

/// Whether `c` is an ASCII hexadecimal digit, of either case.
pub fn is_hex_digit(c: char) -> (r: bool)
    ensures
        r == hex_digit(c),
{
    ('0' <= c && c <= '9') || ('a' <= c && c <= 'f') || ('A' <= c && c <= 'F')
}

/// Whether `value` is the written form of an event id: 64 hexadecimal digits.
pub fn is_hex_event_id(value: &str) -> (r: bool)
    ensures
        r == hex_event_id(value@),
{
    let chars: Vec<char> = chars_of(value);
    if chars.len() != 64 {
        return false;
    }
    let mut i: usize = 0;
    while i < chars.len()
        invariant
            i <= chars.len(),
            chars@ == value@,
            forall|j: int| 0 <= j < i ==> hex_digit(#[trigger] chars@[j]),
        decreases chars.len() - i,
    {
        if !is_hex_digit(chars[i]) {
            assert(!hex_digit(value@[i as int]));
            return false;
        }
        i += 1;
    }
    true
}

proof fn hex_char_round_trip(v: u8)
    requires
        v < 16,
    ensures
        hex_digit(hex_char(v)),
        hex_value(hex_char(v)) == v,
{
}

/// Writing 32 bytes in hexadecimal and reading the digits back gives the bytes.
pub proof fn law_hex_round_trip(bytes: Seq<u8>)
    requires
        bytes.len() == 32,
    ensures
        hex_event_id(hex_encode(bytes)),
        hex_decode(hex_encode(bytes)) == bytes,
{
    let s = hex_encode(bytes);
    assert forall|i: int| 0 <= i < s.len() implies hex_digit(#[trigger] s[i]) by {
        hex_char_round_trip((bytes[i / 2] / 16) as u8);
        hex_char_round_trip((bytes[i / 2] % 16) as u8);
    }
    assert forall|i: int| 0 <= i < 32 implies hex_decode(s)[i] == #[trigger] bytes[i] by {
        hex_char_round_trip((bytes[i] / 16) as u8);
        hex_char_round_trip((bytes[i] % 16) as u8);
        assert(s[2 * i] == hex_char((bytes[i] / 16) as u8));
        assert(s[2 * i + 1] == hex_char((bytes[i] % 16) as u8));
    }
    assert(hex_decode(s) =~= bytes);
}

/// A character is white space exactly where Unicode gives it that property.
pub proof fn law_white_space_is_that_of_unicode(c: char)
    ensures
        white_space(c) <==> {
            let n = c as u32;
            ||| 9 <= n <= 13
            ||| n == 0x20
            ||| n == 0x85
            ||| n == 0xa0
            ||| n == 0x1680
            ||| 0x2000 <= n <= 0x200a
            ||| n == 0x2028
            ||| n == 0x2029
            ||| n == 0x202f
            ||| n == 0x205f
            ||| n == 0x3000
        },
{
}

/// A text is blank exactly where it has no character but white space: joining texts gives a
/// blank one exactly where all are blank, and a text with any other character is not blank.
pub proof fn law_blank_texts_hold_white_space_only(a: Seq<char>, b: Seq<char>, i: int)
    ensures
        blank(a + b) <==> blank(a) && blank(b),
        blank(Seq::empty()),
        0 <= i < a.len() && !white_space(a[i]) ==> !blank(a),
        a.len() == 1 ==> blank(a) == white_space(a[0]),
{
    let c = a + b;
    if blank(c) {
        assert forall|k: int| 0 <= k < a.len() implies white_space(#[trigger] a[k]) by {
            assert(c[k] == a[k]);
        }
        assert forall|k: int| 0 <= k < b.len() implies white_space(#[trigger] b[k]) by {
            assert(c[a.len() + k] == b[k]);
        }
    }
}

/// What is left behind a prefix is what was joined to it, and nothing is left where the text
/// does not begin with the prefix.
pub proof fn law_stripping_undoes_joining(prefix: Seq<char>, rest: Seq<char>, s: Seq<char>)
    ensures
        stripped(prefix + rest, prefix) == Some(rest),
        stripped(s, prefix) matches Some(left) ==> s == prefix + left,
{
    assert((prefix + rest).subrange(0, prefix.len() as int) =~= prefix);
    assert((prefix + rest).skip(prefix.len() as int) =~= rest);
    if let Some(left) = stripped(s, prefix) {
        assert(s =~= prefix + left);
    }
}

/// Lower case changes the ASCII capitals and no other character.
pub proof fn law_lower_case_changes_capitals_only(s: Seq<char>, i: int)
    requires
        0 <= i < s.len(),
    ensures
        ascii_lower(s).len() == s.len(),
        65 <= s[i] as u32 <= 90 ==> ascii_lower(s)[i] as u32 == s[i] as u32 + 32,
        !(65 <= s[i] as u32 <= 90) ==> ascii_lower(s)[i] == s[i],
{
}

/// An event id is written in 64 digits, each a decimal digit or one of the letters `a` to `f` in
/// either case; reading it does not look at the case.
pub proof fn law_event_ids_are_hexadecimal(s: Seq<char>)
    ensures
        hex_event_id(s) <==> s.len() == 64 && forall|i: int|
            0 <= i < s.len() ==> '0' <= #[trigger] s[i] <= '9' || 'a' <= s[i] <= 'f' || 'A' <= s[i]
                <= 'F',
        hex_event_id(s) ==> hex_decode(ascii_lower(s)) == hex_decode(s),
        hex_event_id(s) ==> hex_encode(hex_decode(s)) == ascii_lower(s),
{
    if hex_event_id(s) {
        let lower = ascii_lower(s);
        assert forall|i: int| 0 <= i < 64 implies hex_value(#[trigger] lower[i]) == hex_value(s[i])
            && hex_value(s[i]) < 16 && hex_char(hex_value(s[i])) == lower[i] by {
            assert(hex_digit(s[i]));
        }
        assert(hex_decode(lower) =~= hex_decode(s));
        let bytes = hex_decode(s);
        let back = hex_encode(bytes);
        assert forall|i: int| 0 <= i < 64 implies back[i] == #[trigger] lower[i] by {
            let h = 2 * (i / 2);
            assert(hex_value(lower[h]) == hex_value(s[h]));
            assert(hex_value(lower[h + 1]) == hex_value(s[h + 1]));
            let hi = hex_value(s[h]);
            let lo = hex_value(s[h + 1]);
            assert(bytes[i / 2] == hi * 16 + lo);
            assert((hi * 16 + lo) / 16 == hi && (hi * 16 + lo) % 16 == lo);
        }
        assert(back =~= lower);
    }
}

/// Bytes are written in two digits each, the higher one first, and read back in the same order.
pub proof fn law_higher_digits_come_first(bytes: Seq<u8>, s: Seq<char>, i: int)
    ensures
        hex_encode(bytes).len() == 2 * bytes.len(),
        0 <= i < bytes.len() ==> {
            &&& hex_encode(bytes)[2 * i] == "0123456789abcdef"@[bytes[i] as int / 16]
            &&& hex_encode(bytes)[2 * i + 1] == "0123456789abcdef"@[bytes[i] as int % 16]
        },
        hex_decode(s).len() == s.len() / 2,
        0 <= 2 * i + 1 < s.len() && '0' <= s[2 * i] <= '9' && '0' <= s[2 * i + 1] <= '9'
            ==> hex_decode(s)[i] == (s[2 * i] as int - 48) * 16 + (s[2 * i + 1] as int - 48),
{
    reveal_strlit("0123456789abcdef");
    if 0 <= i < bytes.len() {
        assert((2 * i + 1) / 2 == i);
        digits_are_listed((bytes[i] / 16) as u8);
        digits_are_listed((bytes[i] % 16) as u8);
    }
}

proof fn digits_are_listed(v: u8)
    requires
        v < 16,
    ensures
        hex_char(v) == "0123456789abcdef"@[v as int],
{
    reveal_strlit("0123456789abcdef");
}

} // verus!
