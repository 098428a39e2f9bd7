//! URL detection in terminal content.

use vstd::prelude::*;
use vstd::utf8::encode_utf8;
use crate::text::{chars_of, string_from_chars};

verus! {

/// A detected URL in the terminal.
#[derive(Debug, Clone)]
pub struct DetectedUrl {
    /// Start column.
    pub start_col: u16,
    /// End column (exclusive).
    pub end_col: u16,
    pub row: u16,
    /// The URL text.
    pub url: String,
}

/// The matches of a regular expression in a text (`regex`'s leftmost-first,
/// non-overlapping matches): byte start, byte end and the matched text, in
/// order.
pub uninterp spec fn regex_matches(pattern: Seq<char>, text: Seq<char>) -> Seq<(int, int, Seq<char>)>;

/// The matches of the URL pattern in a text.
pub open spec fn url_pattern_matches(text: Seq<char>) -> Seq<(int, int, Seq<char>)> {
    regex_matches(url_pattern(), text)
}

/// The URL pattern: a scheme (`http://`, `https://`, `ftp://`, `file://`,
/// `mailto:`, `ssh://`, `git://`, any case) and what follows up to white
/// space or a character that cannot be in a URL.
pub open spec fn url_pattern() -> Seq<char> {
    seq!['(', '?', 'i', ')', '(', 'h', 't', 't', 'p', 's', '?', ':', '/', '/', '|', 'f', 't', 'p', ':', '/', '/', '|',
        'f', 'i', 'l', 'e', ':', '/', '/', '|', 'm', 'a', 'i', 'l', 't', 'o', ':', '|', 's', 's', 'h', ':', '/', '/', '|',
        'g', 'i', 't', ':', '/', '/', ')', '[', '^', '\\', 's', '<', '>', '\\', '[', '\\', ']', '{', '}', '|', '\\', '\\',
        '^', '`', '\'', '\\', 'x', '0', '0', '-', '\\', 'x', '1', 'f', '\\', 'x', '7', 'f', ']', '+']
}

/// `regex::Regex::new` of the pattern, then `find_iter` over the text: each
/// match's byte range and text, in order. The regex crate hands out each
/// match as the slice of the text between its start and end, so the text is
/// as many bytes long as the range; which matches there are is left to the
/// name `regex_matches`. `Regex::new` fails only on a pattern that is not a
/// valid expression, so the pattern is limited to the URL pattern, which is.
#[verifier::external_body]
fn find_matches(pattern: &str, text: &str) -> (m: Vec<(usize, usize, String)>)
    requires
        pattern@ == url_pattern(),
    ensures
        m@.len() == regex_matches(pattern@, text@).len(),
        forall|i: int| 0 <= i < m@.len() ==> {
            let (s, e, t) = #[trigger] m@[i];
            &&& regex_matches(pattern@, text@)[i] == (s as int, e as int, t@)
            &&& s <= e
            &&& encode_utf8(t@).len() == e - s
        },
{
    let re = regex::Regex::new(pattern).unwrap();
    re.find_iter(text).map(|mat| (mat.start(), mat.end(), mat.as_str().to_string())).collect()
}

/// The URL pattern as text (see `url_pattern`).
fn url_pattern_text() -> (s: &'static str)
    ensures
        s@ == url_pattern(),
{
    let s = "(?i)(https?://|ftp://|file://|mailto:|ssh://|git://)[^\\s<>\\[\\]{}|\\\\^`'\\x00-\\x1f\\x7f]+";
    proof {
        reveal_strlit("(?i)(https?://|ftp://|file://|mailto:|ssh://|git://)[^\\s<>\\[\\]{}|\\\\^`'\\x00-\\x1f\\x7f]+");
        assert(s@ =~= url_pattern());
    }
    s
}

/// Punctuation that ends a match but likely not the URL.
pub open spec fn is_trailing_punct(c: char) -> bool {
    c == '.' || c == ',' || c == ':' || c == ';' || c == '!' || c == '?' || c == ')' || c == ']' || c == '\'' || c == '"'
}

/// `s` without its trailing punctuation.
pub open spec fn trim_punct(s: Seq<char>) -> Seq<char>
    decreases s.len(),
{
    if s.len() > 0 && is_trailing_punct(s.last()) { trim_punct(s.drop_last()) } else { s }
}

/// The URL of one match.
pub open spec fn url_of_match(m: (int, int, Seq<char>), row: u16) -> (u16, u16, u16, Seq<char>) {
    let (s, e, t) = m;
    let u = trim_punct(t);
    (s as u16, (s + (e - s) - (t.len() - u.len())) as u16, row, u)
}

/// The URLs detected in a line: one per match, trailing punctuation
/// trimmed; columns are byte offsets.
pub open spec fn urls_in_line(text: Seq<char>, row: u16) -> Seq<(u16, u16, u16, Seq<char>)> {
    url_pattern_matches(text).map_values(|m: (int, int, Seq<char>)| url_of_match(m, row))
}

/// A detected URL as values.
pub open spec fn url_view(u: DetectedUrl) -> (u16, u16, u16, Seq<char>) {
    (u.start_col, u.end_col, u.row, u.url@)
}

pub open spec fn urls_view(v: Seq<DetectedUrl>) -> Seq<(u16, u16, u16, Seq<char>)> {
    v.map_values(|u: DetectedUrl| url_view(u))
}

proof fn lemma_trim_punct_suffix(s: Seq<char>)
    ensures
        trim_punct(s).len() <= s.len(),
        trim_punct(s) == s.take(trim_punct(s).len() as int),
        forall|i: int| trim_punct(s).len() <= i < s.len() ==> #[trigger] is_trailing_punct(s[i]),
    decreases s.len(),
{
    if s.len() > 0 && is_trailing_punct(s.last()) {
        lemma_trim_punct_suffix(s.drop_last());
        assert(s.drop_last().take(trim_punct(s).len() as int) =~= s.take(trim_punct(s).len() as int));
        assert forall|i: int| trim_punct(s).len() <= i < s.len() implies #[trigger] is_trailing_punct(s[i]) by {
            if i < s.len() - 1 {
                assert(s.drop_last()[i] == s[i]);
            }
        }
    } else {
        assert(s.take(s.len() as int) =~= s);
    }
}

fn trim_punct_exec(s: &Vec<char>) -> (r: Vec<char>)
    ensures r@ == trim_punct(s@),
{
    let mut n = s.len();
    assert(s@.take(n as int) =~= s@);
    while n > 0 && (s[n - 1] == '.' || s[n - 1] == ',' || s[n - 1] == ':' || s[n - 1] == ';' || s[n - 1] == '!'
        || s[n - 1] == '?' || s[n - 1] == ')' || s[n - 1] == ']' || s[n - 1] == '\'' || s[n - 1] == '"')
        invariant
            0 <= n <= s.len(),
            trim_punct(s@) == trim_punct(s@.take(n as int)),
        decreases n,
    {
        assert(s@.take(n as int).drop_last() =~= s@.take(n - 1));
        n = n - 1;
    }
    let mut out: Vec<char> = Vec::new();
    let mut i: usize = 0;
    while i < n
        invariant
            0 <= i <= n,
            n <= s.len(),
            out@ =~= s@.take(i as int),
        decreases n - i,
    {
        out.push(s[i]);
        i = i + 1;
    }
    out
}

/// Detect the URLs in a line of text.
pub fn detect_urls_in_line(text: &str, row: u16) -> (urls: Vec<DetectedUrl>)
    ensures urls_view(urls@) == urls_in_line(text@, row),
{
    let pattern = url_pattern_text();
    let matches = find_matches(pattern, text);
    let mut urls: Vec<DetectedUrl> = Vec::new();
    let mut i: usize = 0;
    while i < matches.len()
        invariant
            0 <= i <= matches.len(),
            matches@.len() == url_pattern_matches(text@).len(),
            forall|j: int| 0 <= j < matches@.len() ==> {
                let (s, e, t) = #[trigger] matches@[j];
                &&& url_pattern_matches(text@)[j] == (s as int, e as int, t@)
                &&& s <= e
                &&& encode_utf8(t@).len() == e - s
            },
            urls_view(urls@) =~= urls_in_line(text@, row).take(i as int),
        decreases matches.len() - i,
    {
        let start = matches[i].0;
        let end = matches[i].1;
        let m = &matches[i].2;
        let chars = chars_of(m.as_str());
        let trimmed = trim_punct_exec(&chars);
        proof {
            lemma_trim_punct_suffix(chars@);
            lemma_encode_len_bound(chars@);
        }
        let removed: usize = chars.len() - trimmed.len();
        let trimmed_len: usize = (end - start) - removed;
        let u = DetectedUrl {
            start_col: start as u16,
            end_col: (start + trimmed_len) as u16,
            row,
            url: string_from_chars(trimmed.as_slice()),
        };
        proof {
            let mm = url_pattern_matches(text@)[i as int];
            assert(mm == (start as int, end as int, m@));
            assert(chars@ == m@);
            assert(trimmed@ == trim_punct(m@));
            assert(u.url@ == trim_punct(m@));
            assert(trimmed_len as int == (end - start) - (m@.len() - trim_punct(m@).len()));
            assert(url_view(u) == url_of_match(mm, row));
            assert(urls_in_line(text@, row)[i as int] == url_of_match(mm, row));
        }
        let ghost prev = urls@;
        urls.push(u);
        assert(urls_view(urls@) =~= urls_view(prev).push(url_view(u)));
        assert(urls_view(urls@) =~= urls_in_line(text@, row).take(i + 1));
        i = i + 1;
    }
    urls
}

/// A text has at least as many UTF-8 bytes as characters.
proof fn lemma_encode_len_bound(s: Seq<char>)
    ensures encode_utf8(s).len() >= s.len(),
    decreases s.len(),
{
    if s.len() > 0 {
        lemma_encode_len_bound(s.drop_first());
        assert(vstd::utf8::encode_scalar(s[0] as u32).len() >= 1);
    }
}

/// The first URL covering (`col`, `row`), if any.
pub fn url_at_position(urls: &[DetectedUrl], col: u16, row: u16) -> (r: Option<&DetectedUrl>)
    ensures
        match r {
            Some(u) => exists|i: int| 0 <= i < urls@.len() && urls@[i] == *u
                && u.row == row && u.start_col <= col < u.end_col
                && forall|j: int| 0 <= j < i ==> !(#[trigger] urls@[j].row == row && urls@[j].start_col <= col < urls@[j].end_col),
            None => forall|j: int| 0 <= j < urls@.len() ==> !(#[trigger] urls@[j].row == row && urls@[j].start_col <= col < urls@[j].end_col),
        },
{
    let mut i: usize = 0;
    while i < urls.len()
        invariant
            0 <= i <= urls.len(),
            forall|j: int| 0 <= j < i ==> !(#[trigger] urls@[j].row == row && urls@[j].start_col <= col < urls@[j].end_col),
        decreases urls.len() - i,
    {
        let u = &urls[i];
        if u.row == row && col >= u.start_col && col < u.end_col {
            return Some(u);
        }
        i = i + 1;
    }
    None
}

/// The URLs of the first `k` lines, line by line.
pub open spec fn urls_in_lines(lines: Seq<Seq<char>>, k: int) -> Seq<(u16, u16, u16, Seq<char>)>
    decreases k,
{
    if k <= 0 { seq![] } else { urls_in_lines(lines, k - 1) + urls_in_line(lines[k - 1], (k - 1) as u16) }
}

/// Detect the URLs in `rows` lines, each obtained from `get_line`.
pub fn detect_urls_in_grid<F: Fn(u16) -> String>(rows: u16, cols: u16, get_line: F) -> (urls: Vec<DetectedUrl>)
    requires
        forall|r: u16| r < rows ==> get_line.requires((r,)),
    ensures
        exists|lines: Seq<String>| {
            &&& lines.len() == rows
            &&& (forall|r: int| 0 <= r < rows ==> #[trigger] get_line.ensures((r as u16,), lines[r]))
            &&& urls_view(urls@) == urls_in_lines(lines.map_values(|l: String| l@), rows as int)
        },
{
    let mut urls: Vec<DetectedUrl> = Vec::new();
    let ghost mut lines: Seq<String> = seq![];
    let mut row: u16 = 0;
    while row < rows
        invariant
            0 <= row <= rows,
            forall|r: u16| r < rows ==> get_line.requires((r,)),
            lines.len() == row,
            forall|r: int| 0 <= r < row ==> #[trigger] get_line.ensures((r as u16,), lines[r]),
            urls_view(urls@) == urls_in_lines(lines.map_values(|l: String| l@), row as int),
        decreases rows - row,
    {
        let line = get_line(row);
        let mut found = detect_urls_in_line(line.as_str(), row);
        let ghost prev = urls@;
        let ghost old_lines = lines;
        proof {
            lines = lines.push(line);
            assert(lines.map_values(|l: String| l@).take(row as int) =~= old_lines.map_values(|l: String| l@));
            lemma_urls_in_lines_prefix(lines.map_values(|l: String| l@), old_lines.map_values(|l: String| l@), row as int);
        }
        urls.append(&mut found);
        assert(urls_view(urls@) =~= urls_view(prev) + urls_in_line(line@, row));
        row = row + 1;
    }
    urls
}

proof fn lemma_urls_in_lines_prefix(a: Seq<Seq<char>>, b: Seq<Seq<char>>, k: int)
    requires
        0 <= k <= a.len(),
        k <= b.len(),
        forall|i: int| 0 <= i < k ==> a[i] == b[i],
    ensures
        urls_in_lines(a, k) == urls_in_lines(b, k),
    decreases k,
{
    if k > 0 {
        lemma_urls_in_lines_prefix(a, b, k - 1);
    }
}

} // verus!
