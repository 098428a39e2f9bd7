//! OSC (Operating System Command) sequence handling: terminal title,
//! working directory, hyperlinks, clipboard and colors.

use vstd::prelude::*;
use vstd::utf8::{valid_utf8, decode_utf8};
use super::handler::Handler;
use super::parser::{split_semicolons, split_at_semicolons};
use crate::term::cell::{Color, rgb};
use crate::text::{utf8_decode, chars_of, string_from_chars, parse_unsigned, parse_unsigned_chars};

verus! {

/// OSC handler for extended terminal control; every method does nothing
/// unless an implementation says otherwise.
pub trait OscHandler: Handler {
    /// Set color palette entry (OSC 4).
    fn set_color(&mut self, index: u8, color: Color) {
    }

    /// Query color palette entry (OSC 4).
    fn query_color(&mut self, index: u8) -> Option<Color> {
        None
    }

    /// Start hyperlink (OSC 8).
    fn start_hyperlink(&mut self, id: Option<&str>, url: &str) {
    }

    /// End hyperlink (OSC 8).
    fn end_hyperlink(&mut self) {
    }

    /// Set foreground color (OSC 10).
    fn set_foreground_color(&mut self, color: Color) {
    }

    /// Set background color (OSC 11).
    fn set_background_color(&mut self, color: Color) {
    }

    /// Set cursor color (OSC 12).
    fn set_cursor_color(&mut self, color: Color) {
    }

    /// Clipboard operation (OSC 52).
    fn clipboard_operation(&mut self, selection: char, data: Option<&str>) {
    }

    /// Reset color (OSC 104).
    fn reset_color(&mut self, index: Option<u8>) {
    }

    /// Reset foreground color (OSC 110).
    fn reset_foreground_color(&mut self) {
    }

    /// Reset background color (OSC 111).
    fn reset_background_color(&mut self) {
    }

    /// Reset cursor color (OSC 112).
    fn reset_cursor_color(&mut self) {
    }
}

/// The handler call an OSC sequence makes.
#[derive(Debug, Clone)]
pub enum OscCall {
    SetTitle(String),
    SetWorkingDirectory(String),
    /// Hyperlink id and URL (no URL ends the link).
    SetHyperlink(Option<String>, Option<String>),
    /// Selection and data (none = query).
    Clipboard(char, Option<String>),
}

/// Mathematical form of an OSC call.
pub enum OscCallModel {
    SetTitle(Seq<char>),
    SetWorkingDirectory(Seq<char>),
    SetHyperlink(Option<Seq<char>>, Option<Seq<char>>),
    Clipboard(char, Option<Seq<char>>),
}

/// The text of an optional string slice.
pub open spec fn str_opt(s: Option<&str>) -> Option<Seq<char>> {
    match s {
        Some(s) => Some(s@),
        None => None,
    }
}

pub open spec fn opt_chars(s: Option<String>) -> Option<Seq<char>> {
    match s {
        Some(s) => Some(s@),
        None => None,
    }
}

impl View for OscCall {
    type V = OscCallModel;

    open spec fn view(&self) -> OscCallModel {
        match self {
            OscCall::SetTitle(s) => OscCallModel::SetTitle(s@),
            OscCall::SetWorkingDirectory(s) => OscCallModel::SetWorkingDirectory(s@),
            OscCall::SetHyperlink(id, url) => OscCallModel::SetHyperlink(opt_chars(*id), opt_chars(*url)),
            OscCall::Clipboard(c, d) => OscCallModel::Clipboard(*c, opt_chars(*d)),
        }
    }
}

pub open spec fn call_view(c: Option<OscCall>) -> Option<OscCallModel> {
    match c {
        Some(c) => Some(c@),
        None => None,
    }
}

/// The text of bytes that are valid UTF-8.
pub open spec fn text_of(b: Seq<u8>) -> Option<Seq<char>> {
    if valid_utf8(b) { Some(decode_utf8(b)) } else { None }
}

/// The OSC code: the first parameter as a `u16` (65535 when it is no such
/// number); none when the parameter is not text.
pub open spec fn osc_code(p0: Seq<u8>) -> Option<int> {
    match text_of(p0) {
        Some(t) => Some(match parse_unsigned(t, 65535) { Some(v) => v, None => 65535 }),
        None => None,
    }
}

/// `s` begins with `prefix`.
pub open spec fn has_prefix(s: Seq<char>, prefix: Seq<char>) -> bool {
    prefix.len() <= s.len() && s.take(prefix.len() as int) == prefix
}

/// Index of the first `c` in `s`, if any.
pub open spec fn first_index(s: Seq<char>, c: char) -> Option<int>
    decreases s.len(),
{
    if s.len() == 0 {
        None
    } else {
        match first_index(s.drop_last(), c) {
            Some(i) => Some(i),
            None => if s.last() == c { Some(s.len() - 1) } else { None },
        }
    }
}

/// `file://`
pub open spec fn file_scheme() -> Seq<char> {
    seq!['f', 'i', 'l', 'e', ':', '/', '/']
}

/// The working directory an OSC 7 text names: the path after the host of a
/// `file://` URL (nothing when there is no path), or the text itself.
pub open spec fn directory_of(s: Seq<char>) -> Option<Seq<char>> {
    if has_prefix(s, file_scheme()) {
        let rest = s.skip(7);
        match first_index(rest, '/') {
            Some(i) => Some(rest.skip(i)),
            None => None,
        }
    } else {
        Some(s)
    }
}

/// The clipboard call of OSC 52 for the parameters after the code.
pub open spec fn clipboard_call(params: Seq<Seq<u8>>) -> Option<OscCallModel> {
    if params.len() == 0 {
        None
    } else {
        let sel = match text_of(params[0]) {
            Some(t) => if t.len() > 0 { t[0] } else { 'c' },
            None => 'c',
        };
        let data = if params.len() > 1 { text_of(params[1]) } else { None };
        match data {
            Some(d) => if d == seq!['?'] {
                Some(OscCallModel::Clipboard(sel, None))
            } else if d.len() > 0 {
                Some(OscCallModel::Clipboard(sel, Some(d)))
            } else {
                Some(OscCallModel::Clipboard(sel, Some(Seq::<char>::empty())))
            },
            None => Some(OscCallModel::Clipboard(sel, Some(Seq::<char>::empty()))),
        }
    }
}

/// OSC 52 (the code, then the selection and the data): no fields after the
/// code make no call; otherwise the one call is a clipboard call on the first
/// character of the selection field (`c` when it is empty or not UTF-8) that
/// queries for data `?`, sets non-empty UTF-8 data, and clears for data that
/// is missing, empty or not UTF-8.
pub proof fn law_clipboard_call(params: Seq<Seq<u8>>)
    requires
        params.len() > 0,
        osc_code(params[0]) == Some(52int),
    ensures ({
        let q = params.drop_first();
        let sel = match text_of(q[0]) {
            Some(t) => if t.len() > 0 { t[0] } else { 'c' },
            None => 'c',
        };
        &&& q.len() == 0 ==> osc_call_spec(params).is_none()
        &&& (q.len() > 1 && text_of(q[1]) == Some(seq!['?'])) ==> osc_call_spec(params) == Some(OscCallModel::Clipboard(sel, None))
        &&& (q.len() > 1 && text_of(q[1]).is_some() && text_of(q[1]).unwrap().len() > 0
            && text_of(q[1]).unwrap() != seq!['?']) ==>
            osc_call_spec(params) == Some(OscCallModel::Clipboard(sel, text_of(q[1])))
        &&& (q.len() > 0 && (q.len() == 1 || text_of(q[1]) is None || text_of(q[1]) == Some(Seq::<char>::empty()))) ==>
            osc_call_spec(params) == Some(OscCallModel::Clipboard(sel, Some(Seq::<char>::empty())))
    }),
{
}

/// The link id an OSC 8 parameter field names: the text after `id=`, when
/// the field is UTF-8 text that starts with it.
pub open spec fn link_id(field: Seq<u8>) -> Option<Seq<char>> {
    match text_of(field) {
        Some(t) => if t.len() >= 3 && t[0] == 'i' && t[1] == 'd' && t[2] == '=' { Some(t.skip(3)) } else { None },
        None => None,
    }
}

fn link_id_exec(field: &[u8]) -> (r: Option<String>)
    ensures
        opt_chars(r) == link_id(field@),
{
    match text_of_exec(field) {
        Some(t) => {
            if t.len() >= 3 && t[0] == 'i' && t[1] == 'd' && t[2] == '=' {
                let mut rest: Vec<char> = Vec::new();
                let mut i: usize = 3;
                while i < t.len()
                    invariant
                        3 <= i <= t@.len(),
                        rest@ == t@.subrange(3, i as int),
                    decreases t@.len() - i,
                {
                    rest.push(t[i]);
                    i = i + 1;
                }
                assert(rest@ =~= t@.skip(3));
                Some(string_from_chars(rest.as_slice()))
            } else {
                None
            }
        }
        None => None,
    }
}

/// The handler call an OSC sequence (split at `;`) makes: titles (0, 1, 2),
/// working directory (7), hyperlink (8: link id from an `id=` second
/// parameter, URL from the third) and
/// clipboard (52); the color and shell-integration codes call nothing.
pub open spec fn osc_call_spec(params: Seq<Seq<u8>>) -> Option<OscCallModel> {
    if params.len() == 0 {
        None
    } else {
        match osc_code(params[0]) {
            None => None,
            Some(code) => if code == 0 || code == 1 || code == 2 {
                if params.len() > 1 {
                    match text_of(params[1]) {
                        Some(t) => Some(OscCallModel::SetTitle(t)),
                        None => None,
                    }
                } else {
                    None
                }
            } else if code == 7 {
                if params.len() > 1 {
                    match text_of(params[1]) {
                        Some(t) => match directory_of(t) {
                            Some(d) => Some(OscCallModel::SetWorkingDirectory(d)),
                            None => None,
                        },
                        None => None,
                    }
                } else {
                    None
                }
            } else if code == 8 {
                Some(OscCallModel::SetHyperlink(if params.len() > 1 { link_id(params[1]) } else { None },
                    if params.len() > 2 { text_of(params[2]) } else { None }))
            } else if code == 52 {
                clipboard_call(params.drop_first())
            } else {
                None
            },
        }
    }
}

/// The parameters as byte sequences.
pub open spec fn params_view(params: Seq<Vec<u8>>) -> Seq<Seq<u8>> {
    params.map_values(|p: Vec<u8>| p@)
}

fn text_of_exec(b: &[u8]) -> (r: Option<Vec<char>>)
    ensures
        r.is_some() == text_of(b@).is_some(),
        r.is_some() ==> r.unwrap()@ == text_of(b@).unwrap(),
{
    match utf8_decode(b) {
        Some(s) => Some(chars_of(s.as_str())),
        None => None,
    }
}

fn first_index_exec(s: &[char], c: char) -> (r: Option<usize>)
    ensures
        r.is_some() == first_index(s@, c).is_some(),
        r.is_some() ==> r.unwrap() as int == first_index(s@, c).unwrap(),
        r.is_some() ==> r.unwrap() < s.len(),
{
    let mut i: usize = 0;
    while i < s.len()
        invariant
            0 <= i <= s.len(),
            first_index(s@.take(i as int), c).is_none(),
        decreases s.len() - i,
    {
        assert(s@.take(i + 1).drop_last() =~= s@.take(i as int));
        if s[i] == c {
            assert(first_index(s@.take(i + 1), c) == Some(i as int));
            proof { lemma_first_index_prefix(s@, c, i + 1); }
            return Some(i);
        }
        i = i + 1;
    }
    assert(s@.take(s.len() as int) =~= s@);
    None
}

/// A first occurrence found in a prefix is the first occurrence.
proof fn lemma_first_index_prefix(s: Seq<char>, c: char, n: int)
    requires
        0 <= n <= s.len(),
        first_index(s.take(n), c).is_some(),
    ensures
        first_index(s, c) == first_index(s.take(n), c),
    decreases s.len() - n,
{
    if n < s.len() {
        assert(s.take(n + 1).drop_last() =~= s.take(n));
        lemma_first_index_prefix(s, c, n + 1);
    } else {
        assert(s.take(n) =~= s);
    }
}

fn directory_exec(s: &[char]) -> (r: Option<Vec<char>>)
    ensures
        r.is_some() == directory_of(s@).is_some(),
        r.is_some() ==> r.unwrap()@ == directory_of(s@).unwrap(),
{
    let scheme: [char; 7] = ['f', 'i', 'l', 'e', ':', '/', '/'];
    let mut prefix = s.len() >= 7;
    let mut k: usize = 0;
    while prefix && k < 7
        invariant
            0 <= k <= 7,
            prefix ==> s@.len() >= 7,
            prefix ==> forall|j: int| 0 <= j < k ==> s@[j] == file_scheme()[j],
            !prefix ==> !has_prefix(s@, file_scheme()),
            scheme@ == file_scheme(),
        decreases 7 - k + (if prefix { 1int } else { 0 }),
    {
        if s[k] != scheme[k] {
            assert(s@.take(7)[k as int] != file_scheme()[k as int]);
            prefix = false;
        } else {
            k = k + 1;
        }
    }
    if prefix {
        assert(s@.take(7) =~= file_scheme());
        let mut rest: Vec<char> = Vec::new();
        let mut i: usize = 7;
        while i < s.len()
            invariant
                7 <= i <= s.len(),
                rest@ =~= s@.subrange(7, i as int),
            decreases s.len() - i,
        {
            rest.push(s[i]);
            i = i + 1;
        }
        assert(rest@ =~= s@.skip(7));
        match first_index_exec(rest.as_slice(), '/') {
            Some(idx) => {
                let mut out: Vec<char> = Vec::new();
                let mut j: usize = idx;
                while j < rest.len()
                    invariant
                        idx <= j <= rest.len(),
                        out@ =~= rest@.subrange(idx as int, j as int),
                    decreases rest.len() - j,
                {
                    out.push(rest[j]);
                    j = j + 1;
                }
                assert(out@ =~= rest@.skip(idx as int));
                Some(out)
            }
            None => None,
        }
    } else {
        let mut out: Vec<char> = Vec::new();
        let mut j: usize = 0;
        while j < s.len()
            invariant
                0 <= j <= s.len(),
                out@ =~= s@.take(j as int),
            decreases s.len() - j,
        {
            out.push(s[j]);
            j = j + 1;
        }
        assert(out@ =~= s@);
        Some(out)
    }
}

/// The clipboard call for the parameters after the first (the code).
fn clipboard_call_exec(params: &[Vec<u8>]) -> (r: Option<OscCall>)
    requires
        params@.len() > 0,
    ensures
        call_view(r) == clipboard_call(params_view(params@).drop_first()),
{
    let ghost pv = params_view(params@).drop_first();
    if params.len() < 2 {
        assert(pv.len() == 0);
        return None;
    }
    assert(pv[0] == params@[1]@);
    let sel: char = match text_of_exec(params[1].as_slice()) {
        Some(t) => if t.len() > 0 { t[0] } else { 'c' },
        None => 'c',
    };
    let data: Option<Vec<char>> = if params.len() > 2 {
        assert(pv[1] == params@[2]@);
        text_of_exec(params[2].as_slice())
    } else {
        None
    };
    match data {
        Some(d) => {
            if d.len() == 1 && d[0] == '?' {
                assert(d@ =~= seq!['?']);
                Some(OscCall::Clipboard(sel, None))
            } else if d.len() > 0 {
                assert(d@ != seq!['?']);
                Some(OscCall::Clipboard(sel, Some(string_from_chars(d.as_slice()))))
            } else {
                assert(d@ != seq!['?']);
                assert(d@ =~= Seq::<char>::empty());
                Some(OscCall::Clipboard(sel, Some(String::new())))
            }
        }
        None => Some(OscCall::Clipboard(sel, Some(String::new()))),
    }
}

/// The handler call an OSC sequence makes, if any.
pub fn osc_call(params: &[Vec<u8>]) -> (r: Option<OscCall>)
    ensures
        call_view(r) == osc_call_spec(params_view(params@)),
{
    let ghost pv = params_view(params@);
    if params.len() == 0 {
        return None;
    }
    let code: u64 = match text_of_exec(params[0].as_slice()) {
        Some(t) => match parse_unsigned_chars(t.as_slice(), 65535) {
            Some(v) => v,
            None => 65535,
        },
        None => return None,
    };
    if code == 0 || code == 1 || code == 2 {
        if params.len() > 1 {
            match text_of_exec(params[1].as_slice()) {
                Some(t) => Some(OscCall::SetTitle(string_from_chars(t.as_slice()))),
                None => None,
            }
        } else {
            None
        }
    } else if code == 7 {
        if params.len() > 1 {
            match text_of_exec(params[1].as_slice()) {
                Some(t) => match directory_exec(t.as_slice()) {
                    Some(d) => Some(OscCall::SetWorkingDirectory(string_from_chars(d.as_slice()))),
                    None => None,
                },
                None => None,
            }
        } else {
            None
        }
    } else if code == 8 {
        let id: Option<String> = if params.len() > 1 { link_id_exec(params[1].as_slice()) } else { None };
        let url: Option<String> = if params.len() > 2 {
            match text_of_exec(params[2].as_slice()) {
                Some(t) => Some(string_from_chars(t.as_slice())),
                None => None,
            }
        } else {
            None
        };
        Some(OscCall::SetHyperlink(id, url))
    } else if code == 52 {
        clipboard_call_exec(params)
    } else {
        None
    }
}

/// Dispatch an OSC sequence to the handler: make the call `osc_call` gives.
pub fn dispatch<H: Handler>(handler: &mut H, params: &[Vec<u8>])
    requires
        old(handler).inv(),
    ensures
        final(handler).inv(),
        match osc_call_spec(params_view(params@)) {
            Some(call) => old(handler).osc_effect(call, *final(handler)),
            None => *final(handler) == *old(handler),
        },
{
    match osc_call(params) {
        Some(OscCall::SetTitle(t)) => handler.set_title(t.as_str()),
        Some(OscCall::SetWorkingDirectory(d)) => handler.set_working_directory(d.as_str()),
        Some(OscCall::SetHyperlink(id, url)) => {
            let id_ref: Option<&str> = match &id {
                Some(s) => Some(s.as_str()),
                None => None,
            };
            let url_ref: Option<&str> = match &url {
                Some(s) => Some(s.as_str()),
                None => None,
            };
            handler.set_hyperlink(id_ref, url_ref);
        }
        Some(OscCall::Clipboard(sel, data)) => {
            let data_ref: Option<&str> = match &data {
                Some(s) => Some(s.as_str()),
                None => None,
            };
            handler.clipboard(sel, data_ref);
        }
        None => {}
    }
}

/// Split OSC data at `;` into parameters.
pub fn parse_params(data: &[u8]) -> (params: Vec<Vec<u8>>)
    ensures
        params_view(params@) == split_semicolons(data@),
{
    split_at_semicolons(data)
}

/// How many times `b` occurs in `data`.
pub open spec fn count_byte(data: Seq<u8>, b: u8) -> nat
    decreases data.len(),
{
    if data.len() == 0 { 0 } else { count_byte(data.drop_last(), b) + if data.last() == b { 1nat } else { 0nat } }
}

/// The pieces joined again with `sep` between them.
pub open spec fn join_with(parts: Seq<Seq<u8>>, sep: u8) -> Seq<u8>
    decreases parts.len(),
{
    if parts.len() == 0 {
        Seq::<u8>::empty()
    } else if parts.len() == 1 {
        parts[0]
    } else {
        join_with(parts.drop_last(), sep) + seq![sep] + parts.last()
    }
}

/// Splitting OSC data at `;` (`parse_params`) gives one more piece than the
/// data has semicolons, no piece holds a semicolon, and the pieces joined
/// with `;` give the data back.
pub proof fn law_parse_params_split(data: Seq<u8>)
    ensures
        split_semicolons(data).len() == 1 + count_byte(data, 0x3b),
        forall|i: int, j: int| 0 <= i < split_semicolons(data).len() && 0 <= j < split_semicolons(data)[i].len()
            ==> #[trigger] split_semicolons(data)[i][j] != 0x3b,
        join_with(split_semicolons(data), 0x3b) == data,
    decreases data.len(),
{
    if data.len() > 0 {
        let d = data.drop_last();
        law_parse_params_split(d);
        let rest = split_semicolons(d);
        let parts = split_semicolons(data);
        if data.last() == 0x3b {
            assert(parts == rest.push(Seq::<u8>::empty()));
            assert(parts.drop_last() =~= rest);
            assert forall|i: int, j: int| 0 <= i < parts.len() && 0 <= j < parts[i].len() implies #[trigger] parts[i][j] != 0x3b by {
                assert(parts[i] == rest[i]);
            }
            assert(join_with(parts, 0x3b) =~= d + seq![0x3bu8] + Seq::<u8>::empty());
            assert(data =~= d + seq![0x3bu8]);
        } else {
            let last = rest.len() - 1;
            assert(parts == rest.update(last, rest.last().push(data.last())));
            assert forall|i: int, j: int| 0 <= i < parts.len() && 0 <= j < parts[i].len() implies #[trigger] parts[i][j] != 0x3b by {
                if i < last {
                    assert(parts[i] == rest[i]);
                } else {
                    if j < rest[i].len() {
                        assert(parts[i][j] == rest[i][j]);
                    }
                }
            }
            if rest.len() == 1 {
                assert(join_with(parts, 0x3b) == parts[0]);
                assert(join_with(rest, 0x3b) == rest[0]);
            } else {
                assert(parts.drop_last() =~= rest.drop_last());
            }
            assert(join_with(parts, 0x3b) =~= join_with(rest, 0x3b).push(data.last()));
            assert(data =~= d.push(data.last()));
        }
    }
}

/// Value of a hexadecimal digit byte.
pub open spec fn hex_byte(b: u8) -> Option<int> {
    if 0x30 <= b <= 0x39 { Some(b - 0x30) }
    else if 0x61 <= b <= 0x66 { Some(b - 0x61 + 10) }
    else if 0x41 <= b <= 0x46 { Some(b - 0x41 + 10) }
    else { None }
}

pub open spec fn all_hex(d: Seq<u8>) -> bool {
    forall|i: int| 0 <= i < d.len() ==> #[trigger] hex_byte(d[i]).is_some()
}

/// Value of hexadecimal digits (all assumed digits).
pub open spec fn hex_value(d: Seq<u8>) -> int
    decreases d.len(),
{
    if d.len() == 0 { 0 } else { hex_value(d.drop_last()) * 16 + hex_byte(d.last()).unwrap() }
}

/// The digits of an unsigned number: the bytes after an optional `+`.
pub open spec fn unsigned_hex_digits(s: Seq<u8>) -> Seq<u8> {
    if s.len() > 0 && s[0] == 0x2b { s.drop_first() } else { s }
}

/// `from_str_radix(s, 16)` for an unsigned type with maximum `max`: an
/// optional `+`, then one or more hexadecimal digits, value at most `max`.
pub open spec fn parse_hex(s: Seq<u8>, max: int) -> Option<int> {
    let d = unsigned_hex_digits(s);
    if d.len() > 0 && all_hex(d) && hex_value(d) <= max { Some(hex_value(d)) } else { None }
}

proof fn lemma_hex_value_mono(s: Seq<u8>, i: int)
    requires
        0 <= i <= s.len(),
        all_hex(s),
    ensures
        hex_value(s.take(i)) <= hex_value(s),
        hex_value(s.take(i)) >= 0,
    decreases s.len() - i,
{
    if i == s.len() {
        assert(s.take(i) =~= s);
        lemma_hex_nonneg(s);
    } else {
        lemma_hex_value_mono(s, i + 1);
        assert(s.take(i + 1).drop_last() =~= s.take(i));
        assert(all_hex(s.take(i)));
        lemma_hex_nonneg(s.take(i));
        assert(hex_byte(s[i]).is_some());
    }
}

proof fn lemma_hex_nonneg(s: Seq<u8>)
    requires
        all_hex(s),
    ensures
        hex_value(s) >= 0,
    decreases s.len(),
{
    if s.len() > 0 {
        assert(all_hex(s.drop_last()));
        assert(hex_byte(s[s.len() - 1]).is_some());
        lemma_hex_nonneg(s.drop_last());
    }
}

fn hex_byte_exec(b: u8) -> (v: Option<u32>)
    ensures
        v.is_some() == hex_byte(b).is_some(),
        v.is_some() ==> v.unwrap() as int == hex_byte(b).unwrap(),
{
    if 0x30 <= b && b <= 0x39 { Some((b - 0x30) as u32) }
    else if 0x61 <= b && b <= 0x66 { Some((b - 0x61 + 10) as u32) }
    else if 0x41 <= b && b <= 0x46 { Some((b - 0x41 + 10) as u32) }
    else { None }
}

/// Parse an unsigned hexadecimal number no larger than `max`.
fn parse_hex_bytes(s: &[u8], max: u32) -> (r: Option<u32>)
    ensures
        r.is_some() == parse_hex(s@, max as int).is_some(),
        r.is_some() ==> r.unwrap() as int == parse_hex(s@, max as int).unwrap(),
{
    let start: usize = if s.len() > 0 && s[0] == 0x2b { 1 } else { 0 };
    let ghost d = s@.skip(start as int);
    assert(d =~= unsigned_hex_digits(s@));
    if start >= s.len() {
        assert(d.len() == 0);
        return None;
    }
    let mut i: usize = start;
    let mut acc: u32 = 0;
    while i < s.len()
        invariant
            start <= i <= s.len(),
            d == s@.skip(start as int),
            d == unsigned_hex_digits(s@),
            forall|j: int| 0 <= j < i - start ==> #[trigger] hex_byte(d[j]).is_some(),
            acc as int == hex_value(d.take(i - start)),
            acc <= max,
        decreases s.len() - i,
    {
        let b = s[i];
        assert(d[i - start] == b);
        let dv = match hex_byte_exec(b) {
            Some(v) => v,
            None => {
                assert(!all_hex(d));
                return None;
            }
        };
        assert(d.take(i - start + 1).drop_last() =~= d.take(i - start));
        assert(d.take(i - start + 1).last() == b);
        if dv > max || acc > (max - dv) / 16 {
            proof {
                assert(acc * 16 + dv > max) by (nonlinear_arith)
                    requires dv > max || acc > (max - dv) / 16, dv <= 15, acc >= 0;
                if all_hex(d) {
                    lemma_hex_value_mono(d, i - start + 1);
                }
            }
            return None;
        }
        proof {
            assert(acc * 16 + dv <= max) by (nonlinear_arith)
                requires acc <= (max - dv) / 16, dv <= max;
        }
        acc = acc * 16 + dv;
        i = i + 1;
    }
    assert(d.take(i - start) =~= d);
    Some(acc)
}

/// The pieces of `data` between `sep` bytes (empty pieces included).
pub open spec fn split_on(data: Seq<u8>, sep: u8) -> Seq<Seq<u8>>
    decreases data.len(),
{
    if data.len() == 0 {
        seq![Seq::<u8>::empty()]
    } else {
        let rest = split_on(data.drop_last(), sep);
        if data.last() == sep {
            rest.push(Seq::<u8>::empty())
        } else {
            rest.update(rest.len() - 1, rest.last().push(data.last()))
        }
    }
}

proof fn lemma_split_on_nonempty(data: Seq<u8>, sep: u8)
    ensures split_on(data, sep).len() >= 1,
    decreases data.len(),
{
    if data.len() > 0 {
        lemma_split_on_nonempty(data.drop_last(), sep);
    }
}

/// Split bytes at `sep` into owned pieces.
fn split_bytes(data: &[u8], sep: u8) -> (parts: Vec<Vec<u8>>)
    ensures params_view(parts@) == split_on(data@, sep),
{
    let mut parts: Vec<Vec<u8>> = Vec::new();
    parts.push(Vec::new());
    let mut i: usize = 0;
    assert(data@.take(0) =~= Seq::<u8>::empty());
    assert(params_view(parts@) =~= split_on(data@.take(0), sep));
    while i < data.len()
        invariant
            0 <= i <= data.len(),
            parts@.len() >= 1,
            params_view(parts@) == split_on(data@.take(i as int), sep),
        decreases data.len() - i,
    {
        let b = data[i];
        let ghost prev = params_view(parts@);
        assert(data@.take(i + 1).drop_last() =~= data@.take(i as int));
        if b == sep {
            parts.push(Vec::new());
            assert(params_view(parts@) =~= prev.push(Seq::<u8>::empty()));
        } else {
            let last = parts.len() - 1;
            let mut piece = parts.pop().unwrap();
            piece.push(b);
            parts.push(piece);
            assert(params_view(parts@) =~= prev.update(prev.len() - 1, prev.last().push(b)));
        }
        i = i + 1;
    }
    assert(data@.take(data.len() as int) =~= data@);
    parts
}

/// `rgb:`
pub open spec fn rgb_prefix() -> Seq<u8> {
    seq![0x72u8, 0x67, 0x62, 0x3a]
}

/// An X11 color specification: `rgb:R/G/B` with 1 to 4 hex digits per part
/// (parts of up to 2 digits taken as 8-bit values, longer ones as 16-bit
/// values cut to their high byte) or `#RRGGBB`; nothing else, and nothing
/// for bytes that are not text.
pub open spec fn color_spec_value(s: Seq<u8>) -> Option<Color> {
    if !valid_utf8(s) {
        None
    } else if rgb_prefix().len() <= s.len() && s.take(4) == rgb_prefix() {
        let parts = split_on(s.skip(4), 0x2f);
        if parts.len() == 3 {
            match (parse_hex(parts[0], 0xffff), parse_hex(parts[1], 0xffff), parse_hex(parts[2], 0xffff)) {
                (Some(r), Some(g), Some(b)) => if parts[0].len() <= 2 {
                    Some(rgb((r % 256) as u8, (g % 256) as u8, (b % 256) as u8))
                } else {
                    Some(rgb((r / 256) as u8, (g / 256) as u8, (b / 256) as u8))
                },
                _ => None,
            }
        } else {
            None
        }
    } else if s.len() > 0 && s[0] == 0x23 {
        let hex = s.drop_first();
        if hex.len() == 6 {
            match (parse_hex(hex.subrange(0, 2), 0xff), parse_hex(hex.subrange(2, 4), 0xff), parse_hex(hex.subrange(4, 6), 0xff)) {
                (Some(r), Some(g), Some(b)) => Some(rgb(r as u8, g as u8, b as u8)),
                _ => None,
            }
        } else {
            None
        }
    } else {
        None
    }
}

fn slice_vec(s: &[u8], from: usize, to: usize) -> (v: Vec<u8>)
    requires from <= to <= s.len(),
    ensures v@ == s@.subrange(from as int, to as int),
{
    let mut v: Vec<u8> = Vec::new();
    let mut i: usize = from;
    while i < to
        invariant
            from <= i <= to,
            to <= s.len(),
            v@ =~= s@.subrange(from as int, i as int),
        decreases to - i,
    {
        v.push(s[i]);
        i = i + 1;
    }
    v
}

/// Parse an X11 color specification (`rgb:RR/GG/BB`, `rgb:RRRR/GGGG/BBBB`
/// or `#RRGGBB`).
pub fn parse_color_spec(spec: &[u8]) -> (c: Option<Color>)
    ensures
        c == color_spec_value(spec@),
{
    if utf8_decode(spec).is_none() {
        return None;
    }
    let n = spec.len();
    if n >= 4 && spec[0] == 0x72 && spec[1] == 0x67 && spec[2] == 0x62 && spec[3] == 0x3a {
        assert(spec@.take(4) =~= rgb_prefix());
        let rest = slice_vec(spec, 4, n);
        assert(rest@ =~= spec@.skip(4));
        let parts = split_bytes(rest.as_slice(), 0x2f);
        if parts.len() == 3 {
            assert(parts@[0]@ == split_on(spec@.skip(4), 0x2f)[0]);
            assert(parts@[1]@ == split_on(spec@.skip(4), 0x2f)[1]);
            assert(parts@[2]@ == split_on(spec@.skip(4), 0x2f)[2]);
            let r = parse_hex_bytes(parts[0].as_slice(), 0xffff);
            let g = parse_hex_bytes(parts[1].as_slice(), 0xffff);
            let b = parse_hex_bytes(parts[2].as_slice(), 0xffff);
            match (r, g, b) {
                (Some(r), Some(g), Some(b)) => {
                    if parts[0].len() <= 2 {
                        Some(Color::rgb((r % 256) as u8, (g % 256) as u8, (b % 256) as u8))
                    } else {
                        Some(Color::rgb((r / 256) as u8, (g / 256) as u8, (b / 256) as u8))
                    }
                }
                _ => None,
            }
        } else {
            None
        }
    } else if n > 0 && spec[0] == 0x23 {
        proof {
            if n >= 4 {
                assert(spec@.take(4)[0] == 0x23);
                assert(spec@.take(4) != rgb_prefix());
            }
        }
        if n == 7 {
            let p1 = slice_vec(spec, 1, 3);
            let p2 = slice_vec(spec, 3, 5);
            let p3 = slice_vec(spec, 5, 7);
            assert(p1@ =~= spec@.drop_first().subrange(0, 2));
            assert(p2@ =~= spec@.drop_first().subrange(2, 4));
            assert(p3@ =~= spec@.drop_first().subrange(4, 6));
            let r = parse_hex_bytes(p1.as_slice(), 0xff);
            let g = parse_hex_bytes(p2.as_slice(), 0xff);
            let b = parse_hex_bytes(p3.as_slice(), 0xff);
            match (r, g, b) {
                (Some(r), Some(g), Some(b)) => Some(Color::rgb(r as u8, g as u8, b as u8)),
                _ => None,
            }
        } else {
            None
        }
    } else {
        proof {
            if n >= 4 && spec@.take(4) == rgb_prefix() {
                assert(spec@.take(4)[0] == spec@[0]);
                assert(spec@.take(4)[1] == spec@[1]);
                assert(spec@.take(4)[2] == spec@[2]);
                assert(spec@.take(4)[3] == spec@[3]);
            }
        }
        None
    }
}

} // verus!
