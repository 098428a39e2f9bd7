//! Conversions between strings, character vectors and bytes.
//!
//! These wrap single standard-library functions whose behaviour the standard
//! documentation fixes exactly; everything built on them is verified.

use vstd::prelude::*;
use vstd::utf8::{valid_utf8, decode_utf8, encode_utf8};

verus! {

/// The characters of a string slice (`str::chars`, collected).
#[verifier::external_body]
pub fn chars_of(s: &str) -> (v: Vec<char>)
    ensures v@ == s@,
{
    s.chars().collect()
}

/// A string made of the given characters (`FromIterator<char>` for `String`).
#[verifier::external_body]
pub fn string_from_chars(v: &[char]) -> (s: String)
    ensures s@ == v@,
{
    v.iter().collect()
}

/// `std::str::from_utf8`: succeeds exactly on valid UTF-8 and then holds the
/// decoded characters.
#[verifier::external_body]
pub fn utf8_decode(bytes: &[u8]) -> (s: Option<String>)
    ensures
        s.is_some() == valid_utf8(bytes@),
        s.is_some() ==> s.unwrap()@ == decode_utf8(bytes@),
{
    match std::str::from_utf8(bytes) {
        Ok(s) => Some(s.to_string()),
        Err(_) => None,
    }
}

/// `char::encode_utf8`: the UTF-8 bytes of one character.
#[verifier::external_body]
pub fn char_utf8_bytes(c: char) -> (v: Vec<u8>)
    ensures v@ == encode_utf8(seq![c]),
{
    let mut buf = [0u8; 4];
    c.encode_utf8(&mut buf).as_bytes().to_vec()
}

/// `str::as_bytes`, copied into a vector: the UTF-8 encoding of the string.
#[verifier::external_body]
pub fn str_utf8_bytes(s: &str) -> (v: Vec<u8>)
    ensures v@ == encode_utf8(s@),
{
    s.as_bytes().to_vec()
}

/// Decimal digits of a number, most significant first.
pub open spec fn decimal_digits(n: nat) -> Seq<char>
    decreases n,
{
    if n < 10 {
        seq![(n + '0' as nat) as char]
    } else {
        decimal_digits(n / 10).push(((n % 10) + '0' as nat) as char)
    }
}

/// ASCII bytes of the decimal digits of a number.
pub open spec fn decimal_bytes(n: nat) -> Seq<u8> {
    decimal_digits(n).map_values(|c: char| c as u8)
}

/// Decimal representation of a number, as characters.
pub fn u64_to_decimal(n: u64) -> (v: Vec<char>)
    ensures v@ == decimal_digits(n as nat),
    decreases n,
{
    if n < 10 {
        let c = ((n as u32) + ('0' as u32)) as u8 as char;
        let mut v = Vec::new();
        v.push(c);
        assert(v@ =~= decimal_digits(n as nat));
        v
    } else {
        let mut v = u64_to_decimal(n / 10);
        let d = (((n % 10) as u32) + ('0' as u32)) as u8 as char;
        v.push(d);
        v
    }
}

/// Decimal representation of a number, as ASCII bytes.
pub fn u64_to_decimal_bytes(n: u64) -> (v: Vec<u8>)
    ensures v@ == decimal_bytes(n as nat),
{
    let digits = u64_to_decimal(n);
    let mut out: Vec<u8> = Vec::new();
    let mut i: usize = 0;
    while i < digits.len()
        invariant
            0 <= i <= digits.len(),
            digits@ == decimal_digits(n as nat),
            out@ =~= digits@.take(i as int).map_values(|c: char| c as u8),
        decreases digits.len() - i,
    {
        out.push(digits[i] as u8);
        i = i + 1;
        assert(out@ =~= digits@.take(i as int).map_values(|c: char| c as u8));
    }
    assert(digits@.take(digits.len() as int) =~= digits@);
    out
}

/// Value of a decimal digit character.
pub open spec fn digit_value(c: char) -> int {
    c as int - '0' as int
}

pub open spec fn is_digit(c: char) -> bool {
    '0' <= c && c <= '9'
}

/// Value of a sequence of decimal digits (all assumed digits).
pub open spec fn digits_value(s: Seq<char>) -> int
    decreases s.len(),
{
    if s.len() == 0 {
        0
    } else {
        digits_value(s.drop_last()) * 10 + digit_value(s.last())
    }
}

/// The digit part of an unsigned number: the text after an optional `+`.
pub open spec fn unsigned_digits(s: Seq<char>) -> Seq<char> {
    if s.len() > 0 && s[0] == '+' { s.drop_first() } else { s }
}

pub open spec fn all_digits(d: Seq<char>) -> bool {
    forall|i: int| 0 <= i < d.len() ==> is_digit(#[trigger] d[i])
}

/// Rust's `str::parse` for an unsigned integer type with maximum `max`:
/// an optional `+`, then one or more decimal digits, value at most `max`.
pub open spec fn parse_unsigned(s: Seq<char>, max: int) -> Option<int> {
    let d = unsigned_digits(s);
    if d.len() > 0 && all_digits(d) && digits_value(d) <= max {
        Some(digits_value(d))
    } else {
        None
    }
}

proof fn lemma_digits_value_mono(s: Seq<char>, i: int)
    requires
        0 <= i <= s.len(),
        forall|j: int| 0 <= j < s.len() ==> is_digit(#[trigger] s[j]),
    ensures
        digits_value(s.take(i)) <= digits_value(s),
        digits_value(s.take(i)) >= 0,
    decreases s.len() - i,
{
    if i == s.len() {
        assert(s.take(i) =~= s);
        lemma_digits_nonneg(s);
    } else {
        lemma_digits_value_mono(s, i + 1);
        assert(s.take(i + 1).drop_last() =~= s.take(i));
        lemma_digits_nonneg(s.take(i));
    }
}

proof fn lemma_digits_nonneg(s: Seq<char>)
    requires
        forall|j: int| 0 <= j < s.len() ==> is_digit(#[trigger] s[j]),
    ensures
        digits_value(s) >= 0,
    decreases s.len(),
{
    if s.len() > 0 {
        lemma_digits_nonneg(s.drop_last());
    }
}

/// Parse an unsigned decimal number no larger than `max` (Rust's `str::parse`
/// for unsigned types).
pub fn parse_unsigned_chars(s: &[char], max: u64) -> (r: Option<u64>)
    ensures
        r.is_some() == parse_unsigned(s@, max as int).is_some(),
        r.is_some() ==> r.unwrap() as int == parse_unsigned(s@, max as int).unwrap(),
{
    let start: usize = if s.len() > 0 && s[0] == '+' { 1 } else { 0 };
    let ghost d = s@.skip(start as int);
    assert(d =~= unsigned_digits(s@));
    if start >= s.len() {
        assert(d.len() == 0);
        return None;
    }
    let mut i: usize = start;
    let mut acc: u64 = 0;
    while i < s.len()
        invariant
            start <= i <= s.len(),
            d == s@.skip(start as int),
            d == unsigned_digits(s@),
            forall|j: int| 0 <= j < i - start ==> is_digit(#[trigger] d[j]),
            acc as int == digits_value(d.take(i - start)),
            acc <= max,
        decreases s.len() - i,
    {
        let c = s[i];
        if !('0' <= c && c <= '9') {
            assert(d[i - start] == c);
            assert(!is_digit(d[i - start]));
            assert(!(forall|j: int| 0 <= j < d.len() ==> is_digit(#[trigger] d[j])));
            assert(parse_unsigned(s@, max as int).is_none());
            return None;
        }
        let dv: u64 = (c as u32 - '0' as u32) as u64;
        assert(d.take(i - start + 1).drop_last() =~= d.take(i - start));
        assert(d.take(i - start + 1).last() == c);
        if dv > max || acc > (max - dv) / 10 {
            proof {
                assert(acc * 10 + dv > max) by (nonlinear_arith)
                    requires dv > max || acc > (max - dv) / 10, dv <= 9, acc >= 0;
                // any full digit string extending this prefix exceeds max
                if forall|j: int| 0 <= j < d.len() ==> is_digit(#[trigger] d[j]) {
                    lemma_digits_value_mono(d, i - start + 1);
                    assert(digits_value(d) > max);
                }
                assert(parse_unsigned(s@, max as int).is_none());
            }
            return None;
        }
        proof {
            assert(acc * 10 + dv <= max) by (nonlinear_arith)
                requires acc <= (max - dv) / 10, dv <= max;
        }
        acc = acc * 10 + dv;
        i = i + 1;
    }
    assert(d.take(i - start) =~= d);
    Some(acc)
}


/// The display width that `unicode_width::UnicodeWidthChar::width` gives a
/// character (`None` for control characters).
pub uninterp spec fn char_display_width(c: char) -> Option<usize>;

/// `unicode_width::UnicodeWidthChar::width`. Its source makes the printable
/// ASCII characters one column wide, the C0 and C1 control characters (and
/// DEL) widthless, and no character wider than 3 columns; the rest comes from
/// its Unicode tables and is left to the name `char_display_width`.
#[verifier::external_body]
pub fn char_width(c: char) -> (w: Option<usize>)
    ensures
        w == char_display_width(c),
        (c as u32) < 0x20 ==> w.is_none(),
        0x7f <= (c as u32) < 0xa0 ==> w.is_none(),
        0x20 <= (c as u32) < 0x7f ==> w == Some(1usize),
        (c as u32) >= 0xa0 ==> w.is_some(),
        w.is_some() ==> w.unwrap() <= 3,
{
    unicode_width::UnicodeWidthChar::width(c)
}

/// The characters of a list of strings, one after the other.
pub open spec fn concat_chars(parts: Seq<Seq<char>>) -> Seq<char>
    decreases parts.len(),
{
    if parts.len() == 0 { seq![] } else { concat_chars(parts.drop_last()) + parts.last() }
}

/// `unicode_segmentation::UnicodeSegmentation::graphemes` (extended clusters),
/// collected. The clusters are non-empty and, one after the other, give back
/// the string; where the boundaries fall is left unsaid.
#[verifier::external_body]
pub fn graphemes_of(s: &str) -> (g: Vec<String>)
    ensures
        concat_chars(g@.map_values(|p: String| p@)) == s@,
        forall|i: int| 0 <= i < g@.len() ==> #[trigger] g@[i]@.len() > 0,
{
    unicode_segmentation::UnicodeSegmentation::graphemes(s, true).map(|p| p.to_string()).collect()
}

/// The lowercase form `str::to_lowercase` gives a string.
pub uninterp spec fn lowercase(s: Seq<char>) -> Seq<char>;

/// `str::to_lowercase`: the Unicode lowercase mapping of every character;
/// the mapping itself is left to the name `lowercase`.
#[verifier::external_body]
pub fn to_lowercase(s: &str) -> (r: String)
    ensures r@ == lowercase(s@),
{
    s.to_lowercase()
}

/// `char::is_whitespace`: the Unicode White_Space characters.
pub open spec fn is_white_space(c: char) -> bool {
    ||| 0x09 <= (c as u32) <= 0x0d
    ||| c as u32 == 0x20
    ||| c as u32 == 0x85
    ||| c as u32 == 0xa0
    ||| c as u32 == 0x1680
    ||| 0x2000 <= (c as u32) <= 0x200a
    ||| c as u32 == 0x2028
    ||| c as u32 == 0x2029
    ||| c as u32 == 0x202f
    ||| c as u32 == 0x205f
    ||| c as u32 == 0x3000
}

pub fn is_white_space_exec(c: char) -> (b: bool)
    ensures b == is_white_space(c),
{
    let u = c as u32;
    (0x09 <= u && u <= 0x0d) || u == 0x20 || u == 0x85 || u == 0xa0 || u == 0x1680
        || (0x2000 <= u && u <= 0x200a) || u == 0x2028 || u == 0x2029 || u == 0x202f || u == 0x205f || u == 0x3000
}

} // verus!

verus! {

/// Whether two character slices hold the same characters.
pub fn chars_eq(a: &[char], b: &[char]) -> (r: bool)
    ensures r == (a@ == b@),
{
    if a.len() != b.len() {
        return false;
    }
    let mut i: usize = 0;
    while i < a.len()
        invariant
            a@.len() == b@.len(),
            i <= a@.len(),
            forall|j: int| 0 <= j < i ==> a@[j] == b@[j],
        decreases a@.len() - i,
    {
        if a[i] != b[i] {
            return false;
        }
        i += 1;
    }
    assert(a@ =~= b@);
    true
}

/// Whether a character slice spells the given word.
pub fn word_is(s: &[char], w: &str) -> (r: bool)
    ensures r == (s@ == w@),
{
    let wc = chars_of(w);
    chars_eq(s, wc.as_slice())
}

/// `str::trim_start`: drop leading white space.
pub open spec fn trim_start(s: Seq<char>) -> Seq<char>
    decreases s.len(),
{
    if s.len() > 0 && is_white_space(s[0]) { trim_start(s.drop_first()) } else { s }
}

/// `str::trim_end`: drop trailing white space.
pub open spec fn trim_end(s: Seq<char>) -> Seq<char>
    decreases s.len(),
{
    if s.len() > 0 && is_white_space(s.last()) { trim_end(s.drop_last()) } else { s }
}

/// `str::trim`: drop leading and trailing white space.
pub open spec fn trim(s: Seq<char>) -> Seq<char> {
    trim_end(trim_start(s))
}

proof fn lemma_trim_start_skip(s: Seq<char>, i: int)
    requires
        0 <= i <= s.len(),
        forall|j: int| 0 <= j < i ==> is_white_space(#[trigger] s[j]),
    ensures
        trim_start(s) == trim_start(s.subrange(i, s.len() as int)),
    decreases i,
{
    if i == 0 {
        assert(s.subrange(0, s.len() as int) =~= s);
    } else {
        let t = s.drop_first();
        assert forall|j: int| 0 <= j < i - 1 implies is_white_space(#[trigger] t[j]) by {
            assert(t[j] == s[j + 1]);
        }
        lemma_trim_start_skip(t, i - 1);
        assert(t.subrange(i - 1, t.len() as int) =~= s.subrange(i, s.len() as int));
    }
}

proof fn lemma_trim_end_skip(s: Seq<char>, e: int)
    requires
        0 <= e <= s.len(),
        forall|j: int| e <= j < s.len() ==> is_white_space(#[trigger] s[j]),
    ensures
        trim_end(s) == trim_end(s.subrange(0, e)),
    decreases s.len() - e,
{
    if e == s.len() {
        assert(s.subrange(0, e) =~= s);
    } else {
        let t = s.drop_last();
        lemma_trim_end_skip(t, e);
        assert(t.subrange(0, e) =~= s.subrange(0, e));
    }
}

/// The characters of `s` with white space trimmed from both ends.
pub fn trim_chars(s: &[char]) -> (r: Vec<char>)
    ensures r@ == trim(s@),
{
    let n = s.len();
    let mut start: usize = 0;
    while start < n && is_white_space_exec(s[start])
        invariant
            n == s@.len(),
            start <= n,
            forall|j: int| 0 <= j < start ==> is_white_space(#[trigger] s@[j]),
        decreases n - start,
    {
        start += 1;
    }
    let ghost mid = s@.subrange(start as int, n as int);
    proof {
        lemma_trim_start_skip(s@, start as int);
        assert(trim_start(mid) == mid);
    }
    let mut end: usize = n;
    while end > start && is_white_space_exec(s[end - 1])
        invariant
            n == s@.len(),
            start <= end <= n,
            mid == s@.subrange(start as int, n as int),
            forall|j: int| end <= j < n ==> is_white_space(#[trigger] s@[j]),
        decreases end - start,
    {
        end -= 1;
    }
    proof {
        assert forall|j: int| end - start <= j < mid.len() implies is_white_space(#[trigger] mid[j]) by {
            assert(mid[j] == s@[j + start]);
        }
        lemma_trim_end_skip(mid, end - start);
        assert(mid.subrange(0, end - start) =~= s@.subrange(start as int, end as int));
    }
    let mut r: Vec<char> = Vec::new();
    let mut k: usize = start;
    while k < end
        invariant
            n == s@.len(),
            start <= k <= end <= n,
            r@ =~= s@.subrange(start as int, k as int),
        decreases end - k,
    {
        r.push(s[k]);
        k += 1;
    }
    r
}

/// `str::split` on one separator character: the pieces between separators,
/// an empty piece where two separators meet or at either end.
pub open spec fn split_on(s: Seq<char>, sep: char) -> Seq<Seq<char>>
    decreases s.len(),
{
    if s.len() == 0 {
        seq![Seq::<char>::empty()]
    } else {
        let rest = split_on(s.drop_last(), sep);
        if s.last() == sep {
            rest.push(Seq::<char>::empty())
        } else {
            rest.update(rest.len() - 1, rest.last().push(s.last()))
        }
    }
}

pub proof fn lemma_split_on_nonempty(s: Seq<char>, sep: char)
    ensures
        split_on(s, sep).len() >= 1,
    decreases s.len(),
{
    if s.len() > 0 {
        lemma_split_on_nonempty(s.drop_last(), sep);
    }
}

/// The pieces of `s` between occurrences of `sep`, as `str::split` gives them.
pub fn split_chars(s: &[char], sep: char) -> (parts: Vec<Vec<char>>)
    ensures
        parts@.len() == split_on(s@, sep).len(),
        forall|i: int| 0 <= i < parts@.len() ==> #[trigger] parts@[i]@ == split_on(s@, sep)[i],
{
    let mut parts: Vec<Vec<char>> = Vec::new();
    let mut cur: Vec<char> = Vec::new();
    let mut i: usize = 0;
    proof {
        assert(s@.subrange(0, 0) =~= Seq::<char>::empty());
    }
    while i < s.len()
        invariant
            i <= s@.len(),
            split_on(s@.subrange(0, i as int), sep).len() == parts@.len() + 1,
            forall|j: int| 0 <= j < parts@.len() ==> #[trigger] parts@[j]@ == split_on(s@.subrange(0, i as int), sep)[j],
            cur@ == split_on(s@.subrange(0, i as int), sep).last(),
        decreases s@.len() - i,
    {
        let ghost pre = s@.subrange(0, i as int);
        let ghost post = s@.subrange(0, i as int + 1);
        proof {
            assert(post.drop_last() =~= pre);
            assert(post.last() == s@[i as int]);
        }
        if s[i] == sep {
            let done = cur;
            parts.push(done);
            cur = Vec::new();
        } else {
            cur.push(s[i]);
        }
        i += 1;
    }
    proof {
        assert(s@.subrange(0, s@.len() as int) =~= s@);
    }
    parts.push(cur);
    parts
}

} // verus!

verus! {

/// Whether `char::is_alphanumeric` holds of a character.
pub uninterp spec fn alphanumeric(c: char) -> bool;

/// `char::is_alphanumeric`: the Unicode Alphabetic or Numeric property. Its
/// documentation makes the ASCII letters and digits alphanumeric and the
/// other ASCII characters not; beyond ASCII the answer comes from the Unicode
/// tables and is left to the name `alphanumeric`.
#[verifier::external_body]
pub fn is_alphanumeric(c: char) -> (b: bool)
    ensures
        b == alphanumeric(c),
        (c as u32) < 0x80 ==> (b <==> ('a' <= c <= 'z' || 'A' <= c <= 'Z' || '0' <= c <= '9')),
{
    c.is_alphanumeric()
}

} // verus!

verus! {

/// The index of the first occurrence of `c` in `s`, if any.
pub open spec fn index_of_first(s: Seq<char>, c: char) -> Option<int>
    decreases s.len(),
{
    if s.len() == 0 {
        None
    } else {
        match index_of_first(s.drop_last(), c) {
            Some(i) => Some(i),
            None => if s.last() == c { Some(s.len() - 1) } else { None },
        }
    }
}

/// The index of the last occurrence of `c` in `s`, if any.
pub open spec fn index_of_last(s: Seq<char>, c: char) -> Option<int>
    decreases s.len(),
{
    if s.len() == 0 {
        None
    } else if s.last() == c {
        Some(s.len() - 1)
    } else {
        index_of_last(s.drop_last(), c)
    }
}

proof fn lemma_index_of_first(s: Seq<char>, c: char, i: int)
    requires
        0 <= i <= s.len(),
        forall|j: int| 0 <= j < i ==> s[j] != c,
    ensures
        i < s.len() && s[i] == c ==> index_of_first(s, c) == Some(i),
        i == s.len() ==> index_of_first(s, c).is_none(),
    decreases s.len(),
{
    if s.len() > 0 {
        let t = s.drop_last();
        assert forall|j: int| 0 <= j < i && j < t.len() implies t[j] != c by {
            assert(t[j] == s[j]);
        }
        if i < s.len() - 1 {
            lemma_index_of_first(t, c, i);
            assert(t[i] == s[i]);
        } else {
            lemma_index_of_first(t, c, t.len() as int);
        }
    }
}

proof fn lemma_index_of_last(s: Seq<char>, c: char, i: int)
    requires
        -1 <= i < s.len(),
        forall|j: int| i < j < s.len() ==> s[j] != c,
    ensures
        i >= 0 && s[i] == c ==> index_of_last(s, c) == Some(i),
        i == -1 ==> index_of_last(s, c).is_none(),
    decreases s.len(),
{
    if s.len() > 0 && i < s.len() - 1 {
        let t = s.drop_last();
        assert forall|j: int| i < j < t.len() implies t[j] != c by {
            assert(t[j] == s[j]);
        }
        lemma_index_of_last(t, c, i);
        if i >= 0 {
            assert(t[i] == s[i]);
        }
    }
}

/// `str::find` for a character, as a character index.
pub fn find_char(s: &[char], c: char) -> (r: Option<usize>)
    ensures
        match r {
            Some(i) => index_of_first(s@, c) == Some(i as int) && i < s@.len() && s@[i as int] == c,
            None => index_of_first(s@, c).is_none(),
        },
{
    let mut i: usize = 0;
    while i < s.len()
        invariant
            i <= s@.len(),
            forall|j: int| 0 <= j < i ==> s@[j] != c,
        decreases s@.len() - i,
    {
        if s[i] == c {
            proof {
                lemma_index_of_first(s@, c, i as int);
            }
            return Some(i);
        }
        i += 1;
    }
    proof {
        lemma_index_of_first(s@, c, s@.len() as int);
    }
    None
}

/// `str::rfind` for a character, as a character index.
pub fn rfind_char(s: &[char], c: char) -> (r: Option<usize>)
    ensures
        match r {
            Some(i) => index_of_last(s@, c) == Some(i as int) && i < s@.len() && s@[i as int] == c,
            None => index_of_last(s@, c).is_none(),
        },
{
    let mut i: usize = s.len();
    while i > 0
        invariant
            i <= s@.len(),
            forall|j: int| i <= j < s@.len() ==> s@[j] != c,
        decreases i,
    {
        if s[i - 1] == c {
            proof {
                lemma_index_of_last(s@, c, i - 1);
            }
            return Some(i - 1);
        }
        i -= 1;
    }
    proof {
        lemma_index_of_last(s@, c, -1);
    }
    None
}

/// The characters `s[from..to]`.
pub fn chars_between(s: &[char], from: usize, to: usize) -> (r: Vec<char>)
    requires
        from <= to <= s@.len(),
    ensures
        r@ == s@.subrange(from as int, to as int),
{
    vstd::slice::slice_to_vec(vstd::slice::slice_subrange(s, from, to))
}

/// The characters of two slices, one after the other, as a string.
pub fn concat_string(a: &[char], b: &[char]) -> (s: String)
    ensures
        s@ == a@ + b@,
{
    let mut v = vstd::slice::slice_to_vec(a);
    let mut i: usize = 0;
    while i < b.len()
        invariant
            i <= b@.len(),
            v@ == a@ + b@.subrange(0, i as int),
        decreases b@.len() - i,
    {
        v.push(b[i]);
        i += 1;
        proof {
            assert(v@ =~= a@ + b@.subrange(0, i as int));
        }
    }
    proof {
        assert(b@.subrange(0, b@.len() as int) =~= b@);
    }
    string_from_chars(v.as_slice())
}

/// A path name joined onto a base path, as `Path::join` does it: an
/// absolute name (starting with `/`) replaces the base; otherwise a `/` goes
/// between them unless the base is empty or already ends in one.
pub open spec fn path_join(base: Seq<char>, name: Seq<char>) -> Seq<char> {
    if name.len() > 0 && name[0] == '/' {
        name
    } else if base.len() == 0 || base.last() == '/' {
        base + name
    } else {
        base + seq!['/'] + name
    }
}

/// `base` joined with the path `name` (see `path_join`).
pub fn join_path(base: &str, name: &str) -> (s: String)
    ensures
        s@ == path_join(base@, name@),
{
    let b = chars_of(base);
    let n = chars_of(name);
    if n.len() > 0 && n[0] == '/' {
        string_from_chars(n.as_slice())
    } else if b.len() == 0 || b[b.len() - 1] == '/' {
        concat_string(b.as_slice(), n.as_slice())
    } else {
        let mut v = b;
        v.push('/');
        proof { assert(v@ == base@ + seq!['/']); }
        concat_string(v.as_slice(), n.as_slice())
    }
}

} // verus!

verus! {

/// `str::split_whitespace`: the runs of characters between white space.
pub open spec fn words(s: Seq<char>) -> Seq<Seq<char>>
    decreases s.len(),
{
    if s.len() == 0 {
        Seq::<Seq<char>>::empty()
    } else {
        let rest = words(s.drop_last());
        if is_white_space(s.last()) {
            rest
        } else if s.len() >= 2 && !is_white_space(s[s.len() - 2]) {
            rest.update(rest.len() - 1, rest.last().push(s.last()))
        } else {
            rest.push(seq![s.last()])
        }
    }
}

/// The words of `s` (see `words`).
pub fn split_words(s: &[char]) -> (parts: Vec<Vec<char>>)
    ensures
        parts@.len() == words(s@).len(),
        forall|i: int| 0 <= i < parts@.len() ==> #[trigger] parts@[i]@ == words(s@)[i],
{
    let mut parts: Vec<Vec<char>> = Vec::new();
    let mut cur: Vec<char> = Vec::new();
    let mut i: usize = 0;
    while i < s.len()
        invariant
            i <= s@.len(),
            cur@.len() > 0 <==> (i > 0 && !is_white_space(s@[i - 1])),
            cur@.len() == 0 ==> words(s@.subrange(0, i as int)).len() == parts@.len(),
            cur@.len() > 0 ==> words(s@.subrange(0, i as int)).len() == parts@.len() + 1
                && words(s@.subrange(0, i as int)).last() == cur@,
            forall|j: int| 0 <= j < parts@.len() ==> #[trigger] parts@[j]@ == words(s@.subrange(0, i as int))[j],
        decreases s@.len() - i,
    {
        let ghost pre = s@.subrange(0, i as int);
        let ghost post = s@.subrange(0, i as int + 1);
        proof {
            assert(post.drop_last() =~= pre);
            assert(post.last() == s@[i as int]);
            if i > 0 {
                assert(post[post.len() - 2] == s@[i - 1]);
            }
        }
        if is_white_space_exec(s[i]) {
            if cur.len() > 0 {
                let done = cur;
                parts.push(done);
                cur = Vec::new();
            }
        } else {
            cur.push(s[i]);
        }
        i += 1;
    }
    proof {
        assert(s@.subrange(0, s@.len() as int) =~= s@);
    }
    if cur.len() > 0 {
        parts.push(cur);
    }
    parts
}

} // verus!

verus! {

/// Bytes a character takes in UTF-8.
pub open spec fn utf8_width(c: char) -> nat {
    if (c as u32) < 0x80 { 1 } else if (c as u32) < 0x800 { 2 } else if (c as u32) < 0x10000 { 3 } else { 4 }
}

/// Bytes the characters take in UTF-8.
pub open spec fn utf8_len(s: Seq<char>) -> nat
    decreases s.len(),
{
    if s.len() == 0 { 0 } else { utf8_len(s.drop_last()) + utf8_width(s.last()) }
}

/// How many leading characters make exactly `n` bytes, if some do.
pub open spec fn chars_in_bytes(s: Seq<char>, n: nat) -> Option<nat> {
    if exists|k: nat| k <= s.len() && utf8_len(s.take(k as int)) == n {
        Some(choose|k: nat| k <= s.len() && utf8_len(s.take(k as int)) == n)
    } else {
        None
    }
}

proof fn lemma_utf8_len_monotone(s: Seq<char>, a: nat, b: nat)
    requires
        a < b <= s.len(),
    ensures
        utf8_len(s.take(a as int)) < utf8_len(s.take(b as int)),
    decreases b - a,
{
    assert(s.take(b as int).drop_last() =~= s.take(b - 1));
    if a < b - 1 {
        lemma_utf8_len_monotone(s, a, (b - 1) as nat);
    }
}

/// The first `n` bytes of the string, as characters; none when the `n`th
/// byte does not end a character or the string is shorter.
pub fn prefix_of_bytes(s: &[char], n: usize) -> (r: Option<Vec<char>>)
    ensures
        r is None <==> chars_in_bytes(s@, n as nat) is None,
        r matches Some(v) ==> v@ == s@.take(chars_in_bytes(s@, n as nat)->0 as int),
{
    let mut i: usize = 0;
    let mut bytes: usize = 0;
    while i < s.len() && bytes < n
        invariant
            i <= s@.len(),
            bytes == utf8_len(s@.take(i as int)),
            bytes <= n || i == 0,
            forall|k: nat| k < i ==> #[trigger] utf8_len(s@.take(k as int)) < n,
        decreases s@.len() - i,
    {
        let c = s[i];
        let w: usize = if (c as u32) < 0x80 { 1 } else if (c as u32) < 0x800 { 2 } else if (c as u32) < 0x10000 { 3 } else { 4 };
        proof {
            assert(s@.take(i + 1).drop_last() =~= s@.take(i as int));
            assert(forall|k: nat| k < i + 1 ==> #[trigger] utf8_len(s@.take(k as int)) < n) by {
                assert forall|k: nat| k < i + 1 implies #[trigger] utf8_len(s@.take(k as int)) < n by {
                    if k < i {
                    } else {
                        assert(k == i);
                    }
                }
            }
        }
        proof {
            assert(s@.take(i + 1).last() == c);
            assert(utf8_len(s@.take(i + 1)) == bytes + w);
        }
        if w > n - bytes {
            proof {
                assert forall|k: nat| k <= s@.len() implies #[trigger] utf8_len(s@.take(k as int)) != n by {
                    if k <= i {
                    } else if k > i + 1 {
                        lemma_utf8_len_monotone(s@, (i + 1) as nat, k);
                    }
                }
            }
            return None;
        }
        bytes = bytes + w;
        i = i + 1;
    }
    if bytes == n {
        let v = vstd::slice::slice_to_vec(vstd::slice::slice_subrange(s, 0, i));
        proof {
            assert(utf8_len(s@.take(i as int)) == n);
            let k = chars_in_bytes(s@, n as nat)->0;
            assert(utf8_len(s@.take(k as int)) == n);
            if k < i { lemma_utf8_len_monotone(s@, k, i as nat); }
            if k > i { lemma_utf8_len_monotone(s@, i as nat, k); }
            assert(v@ =~= s@.take(i as int));
        }
        Some(v)
    } else {
        proof {
            assert forall|k: nat| k <= s@.len() implies #[trigger] utf8_len(s@.take(k as int)) != n by {
                if k < i {
                } else if k > i {
                    lemma_utf8_len_monotone(s@, i as nat, k);
                }
            }
        }
        None
    }
}

} // verus!
