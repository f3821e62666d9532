//! Character classes and small string helpers shared by the parsers and
//! validators of this crate.

use vstd::prelude::*;

verus! {

/// An ASCII decimal digit, `'0'..='9'`.
pub open spec fn is_ascii_digit(c: char) -> bool {
    '0' <= c && c <= '9'
}

/// Executable form of [`is_ascii_digit`].
pub fn char_is_ascii_digit(c: char) -> (res: bool)
    ensures
        res == is_ascii_digit(c),
{
    '0' <= c && c <= '9'
}

/// An ASCII hexadecimal digit, in either case.
pub open spec fn is_ascii_hexdigit(c: char) -> bool {
    ('0' <= c && c <= '9') || ('a' <= c && c <= 'f') || ('A' <= c && c <= 'F')
}

/// Executable form of [`is_ascii_hexdigit`].
pub fn char_is_ascii_hexdigit(c: char) -> (res: bool)
    ensures
        res == is_ascii_hexdigit(c),
{
    ('0' <= c && c <= '9') || ('a' <= c && c <= 'f') || ('A' <= c && c <= 'F')
}

/// The value of a decimal digit character.
pub open spec fn digit_value(c: char) -> nat {
    (c as int - '0' as int) as nat
}

/// Every character of `s` is an ASCII decimal digit.
pub open spec fn all_digits(s: Seq<char>) -> bool {
    forall|i: int| 0 <= i < s.len() ==> #[trigger] is_ascii_digit(s[i])
}

/// The number written by a string of decimal digits, most significant first.
pub open spec fn decimal_value(s: Seq<char>) -> nat
    decreases s.len(),
{
    if s.len() == 0 {
        0
    } else {
        decimal_value(s.drop_last()) * 10 + digit_value(s.last())
    }
}

/// Collects the characters of `s`.
pub fn chars_of(s: &str) -> (res: Vec<char>)
    ensures
        res@ == s@,
{
    let mut out: Vec<char> = Vec::new();
    for c in it: s.chars()
        invariant
            out@ == it.seq().take(it.index() as int),
    {
        out.push(c);
    }
    out
}


/// The digit character for a value below ten.
pub open spec fn digit_char(d: nat) -> char {
    (d + 48) as char
}

/// The shortest decimal notation of `n`, as `Display` writes an unsigned
/// integer.
pub open spec fn decimal_digits(n: nat) -> Seq<char>
    decreases n,
{
    if n < 10 {
        seq![digit_char(n)]
    } else {
        decimal_digits(n / 10) + seq![digit_char(n % 10)]
    }
}

/// A one-character string holding the digit for `d`.
fn digit_str(d: usize) -> (res: &'static str)
    requires
        d < 10,
    ensures
        res@ == seq![digit_char(d as nat)],
{
    proof {
        reveal_strlit("0");
        reveal_strlit("1");
        reveal_strlit("2");
        reveal_strlit("3");
        reveal_strlit("4");
        reveal_strlit("5");
        reveal_strlit("6");
        reveal_strlit("7");
        reveal_strlit("8");
        reveal_strlit("9");
    }
    let r = match d {
        0 => "0",
        1 => "1",
        2 => "2",
        3 => "3",
        4 => "4",
        5 => "5",
        6 => "6",
        7 => "7",
        8 => "8",
        _ => "9",
    };
    assert(r@ =~= seq![digit_char(d as nat)]);
    r
}

/// Writes `n` in decimal.
pub fn decimal_string(n: usize) -> (res: String)
    ensures
        res@ == decimal_digits(n as nat),
    decreases n,
{
    if n < 10 {
        String::from_str(digit_str(n))
    } else {
        let mut s = decimal_string(n / 10);
        s.append(digit_str(n % 10));
        s
    }
}


/// A character with the Unicode `White_Space` property, as `char::is_whitespace`
/// decides it.
pub open spec fn is_whitespace(c: char) -> bool {
    ||| ('\t' <= c && c <= '\r')
    ||| c == ' '
    ||| c == '\u{85}'
    ||| c == '\u{a0}'
    ||| c == '\u{1680}'
    ||| ('\u{2000}' <= c && c <= '\u{200a}')
    ||| c == '\u{2028}'
    ||| c == '\u{2029}'
    ||| c == '\u{202f}'
    ||| c == '\u{205f}'
    ||| c == '\u{3000}'
}

/// Executable form of [`is_whitespace`].
pub fn char_is_whitespace(c: char) -> (res: bool)
    ensures
        res == is_whitespace(c),
{
    ('\t' <= c && c <= '\r') || c == ' ' || c == '\u{85}' || c == '\u{a0}' || c == '\u{1680}'
        || ('\u{2000}' <= c && c <= '\u{200a}') || c == '\u{2028}' || c == '\u{2029}'
        || c == '\u{202f}' || c == '\u{205f}' || c == '\u{3000}'
}

/// `s` without its leading whitespace.
pub open spec fn trim_start(s: Seq<char>) -> Seq<char>
    decreases s.len(),
{
    if s.len() > 0 && is_whitespace(s[0]) {
        trim_start(s.drop_first())
    } else {
        s
    }
}

/// `s` without its trailing whitespace.
pub open spec fn trim_end(s: Seq<char>) -> Seq<char>
    decreases s.len(),
{
    if s.len() > 0 && is_whitespace(s.last()) {
        trim_end(s.drop_last())
    } else {
        s
    }
}

/// `s` without leading and trailing whitespace, as `str::trim` returns it.
pub open spec fn trim(s: Seq<char>) -> Seq<char> {
    trim_end(trim_start(s))
}

/// The ASCII lower-case form of a character; other characters are kept.
pub open spec fn ascii_lower_char(c: char) -> char {
    if 'A' <= c && c <= 'Z' {
        (c as int + 32) as char
    } else {
        c
    }
}

/// `s` with every ASCII upper-case letter lowered, as `str::to_ascii_lowercase`
/// returns it.
pub open spec fn ascii_lower(s: Seq<char>) -> Seq<char> {
    s.map_values(|c: char| ascii_lower_char(c))
}

/// Executable form of [`ascii_lower_char`].
pub fn lower_ascii_char(c: char) -> (res: char)
    ensures
        res == ascii_lower_char(c),
{
    if 'A' <= c && c <= 'Z' {
        let b = c as u8;
        (b + 32) as char
    } else {
        c
    }
}

/// The bounds `(start, end)` of the part of `chars` that remains once leading
/// and trailing whitespace are removed.
pub fn trimmed_bounds(chars: &Vec<char>) -> (res: (usize, usize))
    ensures
        res.0 <= res.1 <= chars@.len(),
        chars@.subrange(res.0 as int, res.1 as int) == trim(chars@),
{
    let len = chars.len();
    let mut start: usize = 0;
    assert(chars@.subrange(0, len as int) =~= chars@);
    while start < len && char_is_whitespace(chars[start])
        invariant
            start <= len == chars@.len(),
            trim_start(chars@) == trim_start(chars@.subrange(start as int, len as int)),
        decreases len - start,
    {
        assert(chars@.subrange(start as int, len as int).drop_first() =~= chars@.subrange(
            start + 1,
            len as int,
        ));
        start = start + 1;
    }
    let mut end: usize = len;
    while end > start && char_is_whitespace(chars[end - 1])
        invariant
            start <= end <= len == chars@.len(),
            trim(chars@) == trim_end(chars@.subrange(start as int, end as int)),
        decreases end - start,
    {
        assert(chars@.subrange(start as int, end as int).drop_last() =~= chars@.subrange(
            start as int,
            end - 1,
        ));
        end = end - 1;
    }
    (start, end)
}

/// Whether `chars[start..end]`, lowered to ASCII lower case, spells `word`.
pub fn lowered_range_equals(chars: &Vec<char>, start: usize, end: usize, word: &str) -> (res:
    bool)
    requires
        start <= end <= chars@.len(),
    ensures
        res == (ascii_lower(chars@.subrange(start as int, end as int)) == word@),
{
    let w = chars_of(word);
    let ghost part = ascii_lower(chars@.subrange(start as int, end as int));
    if end - start != w.len() {
        assert(part.len() != word@.len());
        return false;
    }
    let mut k: usize = 0;
    while k < w.len()
        invariant
            start <= end <= chars@.len(),
            end - start == w@.len(),
            w@ == word@,
            part == ascii_lower(chars@.subrange(start as int, end as int)),
            k <= w@.len(),
            forall|j: int| 0 <= j < k ==> part[j] == w@[j],
        decreases w@.len() - k,
    {
        if lower_ascii_char(chars[start + k]) != w[k] {
            assert(part[k as int] != word@[k as int]);
            return false;
        }
        k = k + 1;
    }
    assert(part =~= word@);
    true
}


/// The text that `{:?}` writes for a string: the string in double quotes,
/// with special characters escaped.
pub uninterp spec fn debug_quoted(s: Seq<char>) -> Seq<char>;

/// Every character is printable ASCII other than the quotes and `\`, so that
/// `{:?}` escapes none of them.
pub open spec fn plain_printable(s: Seq<char>) -> bool {
    forall|i: int|
        0 <= i < s.len() ==> ' ' <= #[trigger] s[i] && s[i] <= '~' && s[i] != '"' && s[i]
            != '\'' && s[i] != '\\'
}

/// Writes `s` with `format!("{:?}", s)`.
///
/// Trusted: the text is the one [`debug_quoted`] names; a string of plain
/// printable characters comes out between double quotes, unchanged.
#[verifier::external_body]
pub(crate) fn debug_str(s: &str) -> (res: String)
    ensures
        res@ == debug_quoted(s@),
        plain_printable(s@) ==> res@ == seq!['"'] + s@ + seq!['"'],
{
    format!("{:?}", s)
}

/// `parts` written one after the other with `sep` between each two.
pub open spec fn joined(parts: Seq<Seq<char>>, sep: Seq<char>) -> Seq<char>
    decreases parts.len(),
{
    if parts.len() == 0 {
        Seq::empty()
    } else if parts.len() == 1 {
        parts[0]
    } else {
        joined(parts.drop_last(), sep) + sep + parts.last()
    }
}

/// The text that `{:?}` writes for a list of strings: the quoted strings,
/// separated by `", "`, in square brackets.
pub open spec fn debug_list(items: Seq<Seq<char>>) -> Seq<char> {
    seq!['['] + joined(items.map_values(|s: Seq<char>| debug_quoted(s)), seq![',', ' '])
        + seq![']']
}

/// The values of a sequence of string slices.
pub open spec fn str_views(items: Seq<&str>) -> Seq<Seq<char>> {
    items.map_values(|s: &str| s@)
}

/// Writes a list of strings as `{:?}` does.
pub fn debug_str_list(items: &[&str]) -> (res: String)
    ensures
        res@ == debug_list(str_views(items@)),
{
    let ghost quoted = str_views(items@).map_values(|s: Seq<char>| debug_quoted(s));
    let mut out = String::from_str("[");
    let mut body = String::new();
    let mut i: usize = 0;
    while i < items.len()
        invariant
            i <= items@.len(),
            quoted == str_views(items@).map_values(|s: Seq<char>| debug_quoted(s)),
            body@ == joined(quoted.take(i as int), seq![',', ' ']),
        decreases items@.len() - i,
    {
        let q = debug_str(items[i]);
        assert(quoted.take(i + 1).drop_last() =~= quoted.take(i as int));
        if i > 0 {
            body.append(", ");
        }
        body.append(q.as_str());
        proof {
            reveal_strlit(", ");
            if i == 0 {
                assert(body@ =~= joined(quoted.take(1), seq![',', ' ']));
            } else {
                assert(body@ =~= joined(quoted.take(i + 1), seq![',', ' ']));
            }
        }
        i = i + 1;
    }
    assert(quoted.take(items@.len() as int) =~= quoted);
    out.append(body.as_str());
    out.append("]");
    proof {
        reveal_strlit("[");
        reveal_strlit("]");
    }
    assert(out@ =~= debug_list(str_views(items@)));
    out
}

/// Whether two strings hold the same characters.
pub fn same_text(a: &str, b: &str) -> (res: bool)
    ensures
        res == (a@ == b@),
{
    let x = chars_of(a);
    let y = chars_of(b);
    if x.len() != y.len() {
        return false;
    }
    let mut i: usize = 0;
    while i < x.len()
        invariant
            x@ == a@,
            y@ == b@,
            x@.len() == y@.len(),
            i <= x@.len(),
            forall|j: int| 0 <= j < i ==> x@[j] == y@[j],
        decreases x@.len() - i,
    {
        if x[i] != y[i] {
            return false;
        }
        i = i + 1;
    }
    assert(x@ =~= y@);
    true
}

} // verus!
