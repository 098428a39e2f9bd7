//! Kitty graphics protocol decoder: `ESC _ G <control>;<base64 data> ESC \`.
//!
//! Control data is `key=value` pairs separated by commas; the data is
//! base64, possibly zlib-compressed, holding PNG, RGB or RGBA pixels.

use vstd::prelude::*;
use vstd::utf8::{valid_utf8, decode_utf8, encode_utf8};
use std::collections::HashMap;
use std::io::Read;
use crate::text::{utf8_decode, chars_of, string_from_chars, str_utf8_bytes, parse_unsigned, parse_unsigned_chars,
    is_white_space, is_white_space_exec};

verus! {

broadcast use vstd::std_specs::hash::group_hash_axioms;

/// Largest image width accepted.
pub const MAX_IMAGE_WIDTH: u32 = 4096;
/// Largest image height accepted.
pub const MAX_IMAGE_HEIGHT: u32 = 4096;

/// Image format.
#[derive(Clone, Copy, Debug, PartialEq, Eq, Structural)]
pub enum KittyFormat {
    /// RGB (24-bit, 3 bytes per pixel), format code 24.
    Rgb,
    /// RGBA (32-bit, 4 bytes per pixel), format code 32.
    Rgba,
    /// PNG compressed data, format code 100.
    Png,
}

pub open spec fn format_of(v: u32) -> Option<KittyFormat> {
    if v == 24 { Some(KittyFormat::Rgb) } else if v == 32 { Some(KittyFormat::Rgba) } else if v == 100 { Some(KittyFormat::Png) } else { None }
}

impl KittyFormat {
    /// The format with this code (24, 32 or 100).
    pub fn from_value(v: u32) -> (f: Option<Self>)
        ensures f == format_of(v),
    {
        if v == 24 {
            Some(KittyFormat::Rgb)
        } else if v == 32 {
            Some(KittyFormat::Rgba)
        } else if v == 100 {
            Some(KittyFormat::Png)
        } else {
            None
        }
    }

    /// Bytes per pixel: 3, 4, or 0 for PNG (variable).
    pub fn bytes_per_pixel(&self) -> (n: usize)
        ensures n == (match *self { KittyFormat::Rgb => 3usize, KittyFormat::Rgba => 4usize, KittyFormat::Png => 0usize }),
    {
        match self {
            KittyFormat::Rgb => 3,
            KittyFormat::Rgba => 4,
            KittyFormat::Png => 0,
        }
    }
}

/// Transmission type.
#[derive(Clone, Copy, Debug, PartialEq, Eq, Structural)]
pub enum KittyTransmission {
    /// Direct data (base64 encoded).
    Direct,
    /// File path.
    File,
    /// Temporary file.
    TempFile,
    /// Shared memory.
    SharedMemory,
}

pub open spec fn transmission_of(c: char) -> Option<KittyTransmission> {
    if c == 'd' { Some(KittyTransmission::Direct) }
    else if c == 'f' { Some(KittyTransmission::File) }
    else if c == 't' { Some(KittyTransmission::TempFile) }
    else if c == 's' { Some(KittyTransmission::SharedMemory) }
    else { None }
}

impl KittyTransmission {
    pub fn from_char(c: char) -> (t: Option<Self>)
        ensures t == transmission_of(c),
    {
        if c == 'd' { Some(KittyTransmission::Direct) }
        else if c == 'f' { Some(KittyTransmission::File) }
        else if c == 't' { Some(KittyTransmission::TempFile) }
        else if c == 's' { Some(KittyTransmission::SharedMemory) }
        else { None }
    }
}

/// Action type.
#[derive(Clone, Copy, Debug, PartialEq, Eq, Structural)]
pub enum KittyAction {
    /// Transmit image data (default).
    Transmit,
    /// Transmit and display.
    TransmitDisplay,
    /// Query terminal support.
    Query,
    /// Place a previously transmitted image.
    Place,
    /// Delete images.
    Delete,
    /// Animation frame.
    Frame,
    /// Animation control.
    Animation,
}

pub open spec fn action_of(c: char) -> Option<KittyAction> {
    if c == 't' { Some(KittyAction::Transmit) }
    else if c == 'T' { Some(KittyAction::TransmitDisplay) }
    else if c == 'q' { Some(KittyAction::Query) }
    else if c == 'p' { Some(KittyAction::Place) }
    else if c == 'd' { Some(KittyAction::Delete) }
    else if c == 'f' { Some(KittyAction::Frame) }
    else if c == 'a' { Some(KittyAction::Animation) }
    else { None }
}

impl KittyAction {
    pub fn from_char(c: char) -> (a: Option<Self>)
        ensures a == action_of(c),
    {
        if c == 't' { Some(KittyAction::Transmit) }
        else if c == 'T' { Some(KittyAction::TransmitDisplay) }
        else if c == 'q' { Some(KittyAction::Query) }
        else if c == 'p' { Some(KittyAction::Place) }
        else if c == 'd' { Some(KittyAction::Delete) }
        else if c == 'f' { Some(KittyAction::Frame) }
        else if c == 'a' { Some(KittyAction::Animation) }
        else { None }
    }
}

/// Kitty graphics protocol errors.
#[derive(Clone, Copy, Debug, PartialEq, Eq, Structural)]
pub enum KittyError {
    InvalidControlData,
    InvalidPayload,
    InvalidAction,
    InvalidFormat,
    InvalidTransmission,
    MissingFormat,
    MissingDimensions,
    ImageTooLarge,
    InvalidPngData,
    InsufficientData,
    Base64Error,
    DecompressionError,
}

/// Control keys of a command (everything but the data).
#[derive(Clone, Copy, Debug, PartialEq, Eq, Structural)]
pub struct KittyControl {
    pub action: KittyAction,
    pub format: Option<KittyFormat>,
    pub transmission: KittyTransmission,
    pub image_id: Option<u32>,
    pub image_number: Option<u32>,
    pub placement_id: Option<u32>,
    pub width: Option<u32>,
    pub height: Option<u32>,
    pub x_offset: Option<u32>,
    pub y_offset: Option<u32>,
    pub columns: Option<u32>,
    pub rows: Option<u32>,
    pub more_data: bool,
    pub compression: Option<char>,
    pub quiet: u8,
    pub delete_target: Option<char>,
}

/// Kitty graphics command parsed from a payload.
#[derive(Clone, Debug)]
pub struct KittyCommand {
    /// Action (a=)
    pub action: KittyAction,
    /// Image format (f=)
    pub format: Option<KittyFormat>,
    /// Transmission type (t=)
    pub transmission: KittyTransmission,
    /// Image id for later reference (i=)
    pub image_id: Option<u32>,
    /// Image number (I=)
    pub image_number: Option<u32>,
    /// Placement id (p=)
    pub placement_id: Option<u32>,
    /// Width in pixels (s=)
    pub width: Option<u32>,
    /// Height in pixels (v=)
    pub height: Option<u32>,
    /// X offset in pixels (x=)
    pub x_offset: Option<u32>,
    /// Y offset in pixels (y=)
    pub y_offset: Option<u32>,
    /// Columns to occupy (c=)
    pub columns: Option<u32>,
    /// Rows to occupy (r=)
    pub rows: Option<u32>,
    /// More data coming (m=1)
    pub more_data: bool,
    /// Compression (o=z for zlib)
    pub compression: Option<char>,
    /// Quiet mode (q=)
    pub quiet: u8,
    /// Delete target (d=)
    pub delete_target: Option<char>,
    /// Data payload (base64 decoded)
    pub data: Vec<u8>,
}

/// The control keys of a command.
pub open spec fn control_of(c: KittyCommand) -> KittyControl {
    KittyControl {
        action: c.action,
        format: c.format,
        transmission: c.transmission,
        image_id: c.image_id,
        image_number: c.image_number,
        placement_id: c.placement_id,
        width: c.width,
        height: c.height,
        x_offset: c.x_offset,
        y_offset: c.y_offset,
        columns: c.columns,
        rows: c.rows,
        more_data: c.more_data,
        compression: c.compression,
        quiet: c.quiet,
        delete_target: c.delete_target,
    }
}

/// The control keys of a command with no keys given.
pub open spec fn default_control() -> KittyControl {
    KittyControl {
        action: KittyAction::Transmit,
        format: None,
        transmission: KittyTransmission::Direct,
        image_id: None,
        image_number: None,
        placement_id: None,
        width: None,
        height: None,
        x_offset: None,
        y_offset: None,
        columns: None,
        rows: None,
        more_data: false,
        compression: None,
        quiet: 0,
        delete_target: None,
    }
}

impl Default for KittyCommand {
    fn default() -> (c: Self)
        ensures
            control_of(c) == default_control(),
            c.data@.len() == 0,
    {
        KittyCommand {
            action: KittyAction::Transmit,
            format: None,
            transmission: KittyTransmission::Direct,
            image_id: None,
            image_number: None,
            placement_id: None,
            width: None,
            height: None,
            x_offset: None,
            y_offset: None,
            columns: None,
            rows: None,
            more_data: false,
            compression: None,
            quiet: 0,
            delete_target: None,
            data: Vec::new(),
        }
    }
}

/// A decoded Kitty image ready for rendering.
#[derive(Clone, Debug, PartialEq)]
pub struct KittyImage {
    /// RGBA pixel data (4 bytes per pixel).
    pub data: Vec<u8>,
    /// Image width in pixels.
    pub width: u32,
    /// Image height in pixels.
    pub height: u32,
    /// Image id for reference.
    pub id: Option<u32>,
}

impl KittyImage {
    /// No pixels: zero width or height, or no data.
    pub fn is_empty(&self) -> (b: bool)
        ensures b == (self.width == 0 || self.height == 0 || self.data@.len() == 0),
    {
        self.width == 0 || self.height == 0 || self.data.len() == 0
    }
}

// ---------------------------------------------------------------- base64

/// Value of a base64 alphabet byte.
pub open spec fn b64_value(b: u8) -> Option<int> {
    if 0x41 <= b <= 0x5a { Some(b - 0x41) }
    else if 0x61 <= b <= 0x7a { Some(b - 0x61 + 26) }
    else if 0x30 <= b <= 0x39 { Some(b - 0x30 + 52) }
    else if b == 0x2b { Some(62) }
    else if b == 0x2f { Some(63) }
    else { None }
}

/// `2^r` for the bit counts the decoder keeps (0, 2, 4).
pub open spec fn low_pow(r: int) -> int {
    if r == 0 { 1 } else if r == 2 { 4 } else { 16 }
}

/// Decoder state after some input: output, pending bits and their count.
pub open spec fn b64_fold(s: Seq<u8>) -> (Seq<u8>, int, int)
    decreases s.len(),
{
    if s.len() == 0 {
        (seq![], 0, 0)
    } else {
        let (out, buf, bits) = b64_fold(s.drop_last());
        match b64_value(s.last()) {
            None => (out, buf, bits),
            Some(v) => {
                let nb = buf * 64 + v;
                let nbits = bits + 6;
                if nbits >= 8 {
                    let r = nbits - 8;
                    (out.push((nb / low_pow(r)) as u8), nb % low_pow(r), r)
                } else {
                    (out, nb, nbits)
                }
            },
        }
    }
}

/// The bytes before the first `=`.
pub open spec fn before_padding(s: Seq<u8>) -> Seq<u8>
    decreases s.len(),
{
    if s.len() == 0 {
        s
    } else {
        let p = before_padding(s.drop_last());
        if p.len() < s.len() - 1 { p } else if s.last() == 0x3d { p } else { s }
    }
}

/// Lenient base64: bytes outside the alphabet are skipped, decoding stops
/// at the first `=`, and leftover bits are dropped.
pub open spec fn base64_value(s: Seq<u8>) -> Seq<u8> {
    b64_fold(before_padding(s)).0
}

proof fn lemma_b64_fold_inv(s: Seq<u8>)
    ensures
        ({
            let (out, buf, bits) = b64_fold(s);
            &&& (bits == 0 || bits == 2 || bits == 4 || bits == 6)
            &&& 0 <= buf < (if bits == 0 { 1int } else if bits == 2 { 4int } else if bits == 4 { 16int } else { 64int })
        }),
    decreases s.len(),
{
    if s.len() > 0 {
        lemma_b64_fold_inv(s.drop_last());
        let (out, buf, bits) = b64_fold(s.drop_last());
        match b64_value(s.last()) {
            None => {},
            Some(v) => {
                let nb = buf * 64 + v;
                if bits == 0 {
                    assert(0 <= nb < 64);
                } else if bits == 2 {
                    assert(0 <= nb < 256);
                } else if bits == 4 {
                    assert(0 <= nb < 1024);
                    assert(0 <= nb % 4 < 4);
                } else {
                    assert(0 <= nb < 4096);
                    assert(0 <= nb % 16 < 16);
                }
            },
        }
    }
}

proof fn lemma_before_padding_prefix(s: Seq<u8>, i: int)
    requires
        0 <= i <= s.len(),
        forall|j: int| 0 <= j < i ==> s[j] != 0x3d,
    ensures
        before_padding(s.take(i)) == s.take(i),
    decreases i,
{
    if i > 0 {
        lemma_before_padding_prefix(s, i - 1);
        assert(s.take(i).drop_last() =~= s.take(i - 1));
    }
}

proof fn lemma_before_padding_stop(s: Seq<u8>, i: int)
    requires
        0 <= i < s.len(),
        s[i] == 0x3d,
        forall|j: int| 0 <= j < i ==> s[j] != 0x3d,
    ensures
        before_padding(s) == s.take(i),
    decreases s.len(),
{
    if s.len() == i + 1 {
        lemma_before_padding_prefix(s, i);
        assert(s.drop_last() =~= s.take(i));
    } else {
        lemma_before_padding_stop(s.drop_last(), i);
        assert(s.drop_last().take(i) =~= s.take(i));
    }
}

/// Decode base64 text (lenient, see `base64_value`); it never fails.
pub fn base64_decode(input: &str) -> (r: Result<Vec<u8>, KittyError>)
    ensures
        r.is_ok(),
        r.unwrap()@ == base64_value(encode_utf8(input@)),
{
    let bytes = str_utf8_bytes(input);
    Ok(base64_decode_bytes(bytes.as_slice()))
}

/// Decode base64 bytes (lenient, see `base64_value`).
pub fn base64_decode_bytes(input: &[u8]) -> (out: Vec<u8>)
    ensures out@ == base64_value(input@),
{
    let mut output: Vec<u8> = Vec::new();
    let mut buf: u32 = 0;
    let mut bits: u32 = 0;
    let mut i: usize = 0;
    let mut done = false;
    while i < input.len() && !done
        invariant
            0 <= i <= input.len(),
            forall|j: int| 0 <= j < i ==> input@[j] != 0x3d,
            done ==> i < input.len() && input@[i as int] == 0x3d,
            (output@, buf as int, bits as int) == b64_fold(input@.take(i as int)),
        decreases input.len() - i + (if done { 0int } else { 1 }),
    {
        let b = input[i];
        if b == 0x3d {
            done = true;
        } else {
            proof {
                lemma_b64_fold_inv(input@.take(i as int));
                assert(input@.take(i + 1).drop_last() =~= input@.take(i as int));
                assert(input@.take(i + 1).last() == b);
            }
            let val: u32 = if 0x41 <= b && b <= 0x5a { (b - 0x41) as u32 }
                else if 0x61 <= b && b <= 0x7a { (b - 0x61 + 26) as u32 }
                else if 0x30 <= b && b <= 0x39 { (b - 0x30 + 52) as u32 }
                else if b == 0x2b { 62 }
                else if b == 0x2f { 63 }
                else { 64 };
            if val < 64 {
                buf = buf * 64 + val;
                bits = bits + 6;
                if bits >= 8 {
                    bits = bits - 8;
                    let p: u32 = if bits == 0 { 1 } else if bits == 2 { 4 } else { 16 };
                    output.push((buf / p) as u8);
                    buf = buf % p;
                }
            }
            i = i + 1;
        }
    }
    proof {
        if done {
            lemma_before_padding_stop(input@, i as int);
        } else {
            assert(input@.take(i as int) =~= input@);
            lemma_before_padding_prefix(input@, i as int);
        }
    }
    output
}

// ------------------------------------------------------------- control data

/// The pieces of `s` between `sep` characters (empty pieces included).
pub open spec fn split_chars(s: Seq<char>, sep: char) -> Seq<Seq<char>>
    decreases s.len(),
{
    if s.len() == 0 {
        seq![Seq::<char>::empty()]
    } else {
        let rest = split_chars(s.drop_last(), sep);
        if s.last() == sep {
            rest.push(Seq::<char>::empty())
        } else {
            rest.update(rest.len() - 1, rest.last().push(s.last()))
        }
    }
}

proof fn lemma_split_chars_nonempty(s: Seq<char>, sep: char)
    ensures split_chars(s, sep).len() >= 1,
    decreases s.len(),
{
    if s.len() > 0 {
        lemma_split_chars_nonempty(s.drop_last(), sep);
    }
}

/// Index of the first `c` in `s`, if any.
pub open spec fn find_char(s: Seq<char>, c: char) -> Option<int>
    decreases s.len(),
{
    if s.len() == 0 {
        None
    } else {
        match find_char(s.drop_last(), c) {
            Some(i) => Some(i),
            None => if s.last() == c { Some(s.len() - 1) } else { None },
        }
    }
}

/// Key and value of a `key=value` part (`splitn(2, '=')`): a part without
/// `=` is all key with an empty value.
pub open spec fn key_value(part: Seq<char>) -> (Seq<char>, Seq<char>) {
    match find_char(part, '=') {
        Some(i) => (part.take(i), part.skip(i + 1)),
        None => (part, seq![]),
    }
}

/// A `u32` value, if the text is one.
pub open spec fn u32_value(v: Seq<char>) -> Option<u32> {
    match parse_unsigned(v, u32::MAX as int) {
        Some(n) => Some(n as u32),
        None => None,
    }
}

/// The first character of a value, if any.
pub open spec fn first_char(v: Seq<char>) -> Option<char> {
    if v.len() > 0 { Some(v[0]) } else { None }
}

/// The effect of one `key=value` part on the control keys.
pub open spec fn control_step(c: KittyControl, key: Seq<char>, value: Seq<char>) -> Result<KittyControl, KittyError> {
    if key == seq!['a'] {
        match first_char(value) {
            Some(ch) => match action_of(ch) {
                Some(a) => Ok(KittyControl { action: a, ..c }),
                None => Err(KittyError::InvalidAction),
            },
            None => Ok(c),
        }
    } else if key == seq!['f'] {
        match u32_value(value) {
            Some(v) => Ok(KittyControl { format: format_of(v), ..c }),
            None => Err(KittyError::InvalidFormat),
        }
    } else if key == seq!['t'] {
        match first_char(value) {
            Some(ch) => match transmission_of(ch) {
                Some(t) => Ok(KittyControl { transmission: t, ..c }),
                None => Err(KittyError::InvalidTransmission),
            },
            None => Ok(c),
        }
    } else if key == seq!['i'] {
        Ok(KittyControl { image_id: u32_value(value), ..c })
    } else if key == seq!['I'] {
        Ok(KittyControl { image_number: u32_value(value), ..c })
    } else if key == seq!['p'] {
        Ok(KittyControl { placement_id: u32_value(value), ..c })
    } else if key == seq!['s'] {
        Ok(KittyControl { width: u32_value(value), ..c })
    } else if key == seq!['v'] {
        Ok(KittyControl { height: u32_value(value), ..c })
    } else if key == seq!['x'] {
        Ok(KittyControl { x_offset: u32_value(value), ..c })
    } else if key == seq!['y'] {
        Ok(KittyControl { y_offset: u32_value(value), ..c })
    } else if key == seq!['c'] {
        Ok(KittyControl { columns: u32_value(value), ..c })
    } else if key == seq!['r'] {
        Ok(KittyControl { rows: u32_value(value), ..c })
    } else if key == seq!['m'] {
        Ok(KittyControl { more_data: value == seq!['1'], ..c })
    } else if key == seq!['o'] {
        Ok(KittyControl { compression: first_char(value), ..c })
    } else if key == seq!['q'] {
        Ok(KittyControl { quiet: match parse_unsigned(value, 255) { Some(n) => n as u8, None => 0 }, ..c })
    } else if key == seq!['d'] {
        Ok(KittyControl { delete_target: first_char(value), ..c })
    } else {
        Ok(c)
    }
}

/// The control keys after the first `k` parts (empty parts skipped; the
/// first error stops).
pub open spec fn control_fold(parts: Seq<Seq<char>>, k: int) -> Result<KittyControl, KittyError>
    decreases k,
{
    if k <= 0 {
        Ok(default_control())
    } else {
        match control_fold(parts, k - 1) {
            Err(e) => Err(e),
            Ok(c) => if parts[k - 1].len() == 0 {
                Ok(c)
            } else {
                let (key, value) = key_value(parts[k - 1]);
                control_step(c, key, value)
            },
        }
    }
}

/// The control keys of control text.
pub open spec fn control_value(control: Seq<char>) -> Result<KittyControl, KittyError> {
    let parts = split_chars(control, ',');
    control_fold(parts, parts.len() as int)
}

fn split_chars_exec(s: &[char], sep: char) -> (parts: Vec<Vec<char>>)
    ensures
        parts@.map_values(|p: Vec<char>| p@) == split_chars(s@, sep),
{
    let mut parts: Vec<Vec<char>> = Vec::new();
    parts.push(Vec::new());
    let mut i: usize = 0;
    assert(s@.take(0) =~= Seq::<char>::empty());
    assert(parts@.map_values(|p: Vec<char>| p@) =~= split_chars(s@.take(0), sep));
    while i < s.len()
        invariant
            0 <= i <= s.len(),
            parts@.len() >= 1,
            parts@.map_values(|p: Vec<char>| p@) == split_chars(s@.take(i as int), sep),
        decreases s.len() - i,
    {
        let c = s[i];
        let ghost prev = parts@.map_values(|p: Vec<char>| p@);
        assert(s@.take(i + 1).drop_last() =~= s@.take(i as int));
        if c == sep {
            parts.push(Vec::new());
            assert(parts@.map_values(|p: Vec<char>| p@) =~= prev.push(Seq::<char>::empty()));
        } else {
            let mut piece = parts.pop().unwrap();
            piece.push(c);
            parts.push(piece);
            assert(parts@.map_values(|p: Vec<char>| p@) =~= prev.update(prev.len() - 1, prev.last().push(c)));
        }
        i = i + 1;
    }
    assert(s@.take(s.len() as int) =~= s@);
    parts
}

fn find_char_exec(s: &[char], c: char) -> (r: Option<usize>)
    ensures
        r.is_some() == find_char(s@, c).is_some(),
        r.is_some() ==> r.unwrap() as int == find_char(s@, c).unwrap() && r.unwrap() < s.len(),
{
    let mut i: usize = 0;
    while i < s.len()
        invariant
            0 <= i <= s.len(),
            find_char(s@.take(i as int), c).is_none(),
        decreases s.len() - i,
    {
        assert(s@.take(i + 1).drop_last() =~= s@.take(i as int));
        if s[i] == c {
            proof { lemma_find_char_prefix(s@, c, i + 1); }
            return Some(i);
        }
        i = i + 1;
    }
    assert(s@.take(s.len() as int) =~= s@);
    None
}

proof fn lemma_find_char_prefix(s: Seq<char>, c: char, n: int)
    requires
        0 <= n <= s.len(),
        find_char(s.take(n), c).is_some(),
    ensures
        find_char(s, c) == find_char(s.take(n), c),
    decreases s.len() - n,
{
    if n < s.len() {
        assert(s.take(n + 1).drop_last() =~= s.take(n));
        lemma_find_char_prefix(s, c, n + 1);
    } else {
        assert(s.take(n) =~= s);
    }
}

fn sub_chars(s: &[char], from: usize, to: usize) -> (v: Vec<char>)
    requires from <= to <= s.len(),
    ensures v@ == s@.subrange(from as int, to as int),
{
    let mut v: Vec<char> = Vec::new();
    let mut i: usize = from;
    while i < to
        invariant
            from <= i <= to,
            to <= s.len(),
            v@ =~= s@.subrange(from as int, i as int),
        decreases to - i,
    {
        v.push(s[i]);
        i = i + 1;
    }
    v
}

fn key_value_exec(part: &[char]) -> (r: (Vec<char>, Vec<char>))
    ensures
        r.0@ == key_value(part@).0,
        r.1@ == key_value(part@).1,
{
    match find_char_exec(part, '=') {
        Some(i) => {
            let k = sub_chars(part, 0, i);
            let v = sub_chars(part, i + 1, part.len());
            assert(k@ =~= part@.take(i as int));
            assert(v@ =~= part@.skip(i + 1));
            (k, v)
        }
        None => {
            let k = sub_chars(part, 0, part.len());
            assert(k@ =~= part@);
            (k, Vec::new())
        }
    }
}

fn u32_value_exec(v: &[char]) -> (r: Option<u32>)
    ensures r == u32_value(v@),
{
    match parse_unsigned_chars(v, 0xffff_ffff) {
        Some(n) => Some(n as u32),
        None => None,
    }
}

fn first_char_exec(v: &[char]) -> (r: Option<char>)
    ensures r == first_char(v@),
{
    if v.len() > 0 { Some(v[0]) } else { None }
}

fn is_key(k: &[char], c: char) -> (b: bool)
    ensures b == (k@ == seq![c]),
{
    let r = k.len() == 1 && k[0] == c;
    proof {
        if k.len() == 1 && k@[0] == c {
            assert(k@ =~= seq![c]);
        }
    }
    r
}

fn control_step_exec(cmd: &mut KittyCommand, key: &[char], value: &[char]) -> (r: Result<(), KittyError>)
    ensures
        match control_step(control_of(*old(cmd)), key@, value@) {
            Ok(c) => r.is_ok() && control_of(*final(cmd)) == c,
            Err(e) => r == Err::<(), KittyError>(e),
        },
        final(cmd).data == old(cmd).data,
{
    if is_key(key, 'a') {
        if let Some(c) = first_char_exec(value) {
            match KittyAction::from_char(c) {
                Some(a) => cmd.action = a,
                None => return Err(KittyError::InvalidAction),
            }
        }
    } else if is_key(key, 'f') {
        match u32_value_exec(value) {
            Some(v) => cmd.format = KittyFormat::from_value(v),
            None => return Err(KittyError::InvalidFormat),
        }
    } else if is_key(key, 't') {
        if let Some(c) = first_char_exec(value) {
            match KittyTransmission::from_char(c) {
                Some(t) => cmd.transmission = t,
                None => return Err(KittyError::InvalidTransmission),
            }
        }
    } else if is_key(key, 'i') {
        cmd.image_id = u32_value_exec(value);
    } else if is_key(key, 'I') {
        cmd.image_number = u32_value_exec(value);
    } else if is_key(key, 'p') {
        cmd.placement_id = u32_value_exec(value);
    } else if is_key(key, 's') {
        cmd.width = u32_value_exec(value);
    } else if is_key(key, 'v') {
        cmd.height = u32_value_exec(value);
    } else if is_key(key, 'x') {
        cmd.x_offset = u32_value_exec(value);
    } else if is_key(key, 'y') {
        cmd.y_offset = u32_value_exec(value);
    } else if is_key(key, 'c') {
        cmd.columns = u32_value_exec(value);
    } else if is_key(key, 'r') {
        cmd.rows = u32_value_exec(value);
    } else if is_key(key, 'm') {
        cmd.more_data = value.len() == 1 && value[0] == '1';
        proof {
            if value.len() == 1 && value@[0] == '1' {
                assert(value@ =~= seq!['1']);
            }
        }
    } else if is_key(key, 'o') {
        cmd.compression = first_char_exec(value);
    } else if is_key(key, 'q') {
        cmd.quiet = match parse_unsigned_chars(value, 255) {
            Some(n) => n as u8,
            None => 0,
        };
    } else if is_key(key, 'd') {
        cmd.delete_target = first_char_exec(value);
    }
    Ok(())
}

/// Kitty graphics decoder, collecting chunked transmissions by image id.
pub struct KittyDecoder {
    /// Data received so far for chunked transmissions.
    pub partial_data: HashMap<u32, Vec<u8>>,
    /// Control keys of the first chunk of chunked transmissions.
    pub partial_cmd: HashMap<u32, KittyCommand>,
}

impl KittyDecoder {
    pub fn new() -> (d: Self)
        ensures
            d.partial_data@ == Map::<u32, Vec<u8>>::empty(),
            d.partial_cmd@ == Map::<u32, KittyCommand>::empty(),
    {
        KittyDecoder { partial_data: HashMap::new(), partial_cmd: HashMap::new() }
    }

    /// Parse control data `key=value` pairs separated by commas.
    pub fn parse_control(&self, control: &str) -> (r: Result<KittyCommand, KittyError>)
        ensures
            match control_value(control@) {
                Ok(c) => r.is_ok() && control_of(r.unwrap()) == c && r.unwrap().data@.len() == 0,
                Err(e) => r.is_err() && r.unwrap_err() == e,
            },
    {
        let mut cmd = KittyCommand::default();
        let chars = chars_of(control);
        let parts = split_chars_exec(chars.as_slice(), ',');
        let ghost pv = parts@.map_values(|p: Vec<char>| p@);
        let mut k: usize = 0;
        while k < parts.len()
            invariant
                0 <= k <= parts.len(),
                pv == split_chars(control@, ','),
                pv == parts@.map_values(|p: Vec<char>| p@),
                control_fold(pv, k as int) == Ok::<KittyControl, KittyError>(control_of(cmd)),
                cmd.data@.len() == 0,
            decreases parts.len() - k,
        {
            let part = &parts[k];
            assert(part@ == pv[k as int]);
            if part.len() > 0 {
                let (key, value) = key_value_exec(part.as_slice());
                match control_step_exec(&mut cmd, key.as_slice(), value.as_slice()) {
                    Ok(()) => {}
                    Err(e) => {
                        proof { lemma_control_fold_err(pv, k as int + 1, e); }
                        return Err(e);
                    }
                }
            }
            k = k + 1;
        }
        Ok(cmd)
    }

    /// Decode raw RGB or RGBA data of `width` x `height` pixels into RGBA
    /// (PNG data goes to `decode_png`, never here).
    pub fn decode_raw(&self, data: &[u8], width: u32, height: u32, format: KittyFormat, id: Option<u32>)
        -> (r: Result<Option<KittyImage>, KittyError>)
        requires
            format != KittyFormat::Png,
        ensures
            outcome_is(r, raw_model(data@, width, height, format, id)),
    {
        if width > MAX_IMAGE_WIDTH || height > MAX_IMAGE_HEIGHT {
            return Err(KittyError::ImageTooLarge);
        }
        let bpp = format.bytes_per_pixel();
        proof {
            assert(width as int * height as int <= 4096 * 4096) by (nonlinear_arith)
                requires width <= 4096, height <= 4096;
        }
        let pixels: usize = (width * height) as usize;
        proof {
            assert(pixels as int * bpp as int <= 4096 * 4096 * 4) by (nonlinear_arith)
                requires pixels <= 4096 * 4096, bpp <= 4;
        }
        let expected_size: usize = pixels * bpp;
        if data.len() < expected_size {
            return Err(KittyError::InsufficientData);
        }
        let rgba: Vec<u8> = match format {
            KittyFormat::Rgba => {
                let mut v: Vec<u8> = Vec::new();
                let mut i: usize = 0;
                while i < expected_size
                    invariant
                        0 <= i <= expected_size,
                        expected_size <= data.len(),
                        v@ =~= data@.take(i as int),
                    decreases expected_size - i,
                {
                    v.push(data[i]);
                    i = i + 1;
                }
                v
            }
            KittyFormat::Rgb => {
                let mut v: Vec<u8> = Vec::new();
                let mut p: usize = 0;
                while p < pixels
                    invariant
                        0 <= p <= pixels,
                        pixels * 3 == expected_size,
                        expected_size <= data.len(),
                        v@ == rgb_expand(data@.take(3 * p as int)),
                    decreases pixels - p,
                {
                    let base = 3 * p;
                    v.push(data[base]);
                    v.push(data[base + 1]);
                    v.push(data[base + 2]);
                    v.push(255);
                    proof {
                        let t = data@.take(3 * (p + 1) as int);
                        assert(t.take(t.len() - 3) =~= data@.take(3 * p as int));
                    }
                    p = p + 1;
                }
                v
            }
            KittyFormat::Png => {
                Vec::new()
            }
        };
        Ok(Some(KittyImage { data: rgba, width, height, id }))
    }

    /// Drop the collected chunks of an image id.
    pub fn clear_partial(&mut self, id: u32)
        ensures
            final(self).partial_data@ == old(self).partial_data@.remove(id),
            final(self).partial_cmd@ == old(self).partial_cmd@.remove(id),
    {
        self.partial_data.remove(&id);
        self.partial_cmd.remove(&id);
    }
}

proof fn lemma_control_fold_err(parts: Seq<Seq<char>>, k: int, e: KittyError)
    requires
        0 <= k <= parts.len(),
        control_fold(parts, k) == Err::<KittyControl, KittyError>(e),
    ensures
        control_fold(parts, parts.len() as int) == Err::<KittyControl, KittyError>(e),
    decreases parts.len() - k,
{
    if k < parts.len() {
        lemma_control_fold_err(parts, k + 1, e);
    }
}

/// RGB bytes (whole pixels) with an opaque alpha byte after each pixel.
pub open spec fn rgb_expand(s: Seq<u8>) -> Seq<u8>
    decreases s.len(),
{
    if s.len() < 3 {
        seq![]
    } else {
        rgb_expand(s.take(s.len() - 3)) + seq![s[s.len() - 3], s[s.len() - 2], s[s.len() - 1], 255u8]
    }
}

/// Expanding RGB to RGBA keeps each pixel's three bytes in order and adds
/// an opaque alpha: pixel `p` of the result is bytes `3p`, `3p + 1`, `3p + 2`
/// of the input, then 255.
pub proof fn law_rgb_expand_pixels(s: Seq<u8>)
    requires
        s.len() % 3 == 0,
    ensures
        rgb_expand(s).len() == s.len() / 3 * 4,
        forall|p: int, k: int| 0 <= p < s.len() / 3 && 0 <= k < 3 ==> #[trigger] rgb_expand(s)[4 * p + k] == s[3 * p + k],
        forall|p: int| 0 <= p < s.len() / 3 ==> #[trigger] rgb_expand(s)[4 * p + 3] == 255,
    decreases s.len(),
{
    if s.len() >= 3 {
        let t = s.take(s.len() - 3);
        law_rgb_expand_pixels(t);
        let n = s.len() / 3;
        assert(t.len() / 3 == n - 1);
        let e = rgb_expand(s);
        assert(e == rgb_expand(t) + seq![s[s.len() - 3], s[s.len() - 2], s[s.len() - 1], 255u8]);
        assert forall|p: int, k: int| 0 <= p < n && 0 <= k < 3 implies #[trigger] e[4 * p + k] == s[3 * p + k] by {
            if p < n - 1 {
                assert(e[4 * p + k] == rgb_expand(t)[4 * p + k]);
                assert(t[3 * p + k] == s[3 * p + k]);
            }
        }
        assert forall|p: int| 0 <= p < n implies #[trigger] e[4 * p + 3] == 255 by {
            if p < n - 1 {
                assert(e[4 * p + 3] == rgb_expand(t)[4 * p + 3]);
            }
        }
    }
}

/// `m` is an image of the given size and id whose pixels take their color
/// bytes from `data` in order (3 or 4 bytes a pixel) and their alpha from it
/// (RGBA) or opaque (RGB).
pub open spec fn raw_pixels(m: Result<Option<(Seq<u8>, u32, u32, Option<u32>)>, KittyError>, data: Seq<u8>,
    width: u32, height: u32, format: KittyFormat, id: Option<u32>) -> bool
{
    let bpp: int = if format == KittyFormat::Rgb { 3 } else { 4 };
    let n = width * height;
    match m {
        Ok(Some((px, w, h, i))) => {
            &&& w == width && h == height && i == id && px.len() == n * 4
            &&& forall|p: int, k: int| 0 <= p < n && 0 <= k < 3 ==> #[trigger] px[4 * p + k] == data[bpp * p + k]
            &&& forall|p: int| 0 <= p < n ==> #[trigger] px[4 * p + 3]
                == (if format == KittyFormat::Rgba { data[4 * p + 3] } else { 255u8 })
        },
        _ => false,
    }
}

/// Raw RGB or RGBA data of `width` x `height` pixels (`decode_raw`): too
/// large a size is refused first, then too little data; otherwise the image
/// has that size and id, four bytes per pixel, each pixel's color bytes taken
/// from the data in order and its alpha from the data (RGBA) or opaque (RGB).
pub proof fn law_decode_raw(data: Seq<u8>, width: u32, height: u32, format: KittyFormat, id: Option<u32>)
    requires
        format == KittyFormat::Rgb || format == KittyFormat::Rgba,
    ensures ({
        let bpp: int = if format == KittyFormat::Rgb { 3 } else { 4 };
        let large = width > MAX_IMAGE_WIDTH || height > MAX_IMAGE_HEIGHT;
        let n = width * height;
        &&& large <==> raw_model(data, width, height, format, id) == Err::<Option<(Seq<u8>, u32, u32, Option<u32>)>, KittyError>(KittyError::ImageTooLarge)
        &&& (!large && data.len() < n * bpp) <==> raw_model(data, width, height, format, id)
            == Err::<Option<(Seq<u8>, u32, u32, Option<u32>)>, KittyError>(KittyError::InsufficientData)
        &&& (!large && data.len() >= n * bpp) ==> raw_pixels(raw_model(data, width, height, format, id), data, width, height, format, id)
    }),
{
    let n = width * height;
    if !(width > MAX_IMAGE_WIDTH || height > MAX_IMAGE_HEIGHT) && format == KittyFormat::Rgb && data.len() >= n * 3 {
        let t = data.take(n * 3);
        assert(t.len() % 3 == 0 && t.len() / 3 == n);
        law_rgb_expand_pixels(t);
        assert forall|p: int, k: int| 0 <= p < n && 0 <= k < 3 implies #[trigger] rgb_expand(t)[4 * p + k] == data[3 * p + k] by {
            assert(rgb_expand(t)[4 * p + k] == t[3 * p + k]);
        }
    }
}

/// A decode result as values: an error, no image, or pixels (RGBA),
/// width, height and id.
pub open spec fn outcome_is(r: Result<Option<KittyImage>, KittyError>,
    m: Result<Option<(Seq<u8>, u32, u32, Option<u32>)>, KittyError>) -> bool
{
    match m {
        Err(e) => r == Err::<Option<KittyImage>, KittyError>(e),
        Ok(None) => r.is_ok() && r.unwrap().is_none(),
        Ok(Some((d, w, h, id))) => {
            &&& r.is_ok()
            &&& r.unwrap().is_some()
            &&& r.unwrap().unwrap().data@ == d
            &&& r.unwrap().unwrap().width == w
            &&& r.unwrap().unwrap().height == h
            &&& r.unwrap().unwrap().id == id
        },
    }
}

/// What `decode_raw` gives: too large above 4096 pixels either way, short
/// data an error, else the RGBA pixels (RGB gets opaque alpha; PNG data,
/// which is not raw, yields no pixel bytes).
pub open spec fn raw_model(data: Seq<u8>, width: u32, height: u32, format: KittyFormat, id: Option<u32>)
    -> Result<Option<(Seq<u8>, u32, u32, Option<u32>)>, KittyError>
{
    let bpp: int = match format { KittyFormat::Rgb => 3, KittyFormat::Rgba => 4, KittyFormat::Png => 0 };
    let expected = width * height * bpp;
    if width > MAX_IMAGE_WIDTH || height > MAX_IMAGE_HEIGHT {
        Err(KittyError::ImageTooLarge)
    } else if data.len() < expected {
        Err(KittyError::InsufficientData)
    } else {
        Ok(Some((match format {
            KittyFormat::Rgba => data.take(expected),
            KittyFormat::Rgb => rgb_expand(data.take(expected)),
            KittyFormat::Png => seq![],
        }, width, height, id)))
    }
}

// ------------------------------------------------------- outside decoders

/// The bytes a zlib stream inflates to (`flate2`), none when the stream is
/// broken.
pub uninterp spec fn zlib_inflated(data: Seq<u8>) -> Option<Seq<u8>>;

/// `flate2::read::ZlibDecoder` read to the end: the inflated bytes, or none
/// when reading fails; which bytes a stream gives is left to the name
/// `zlib_inflated`.
#[verifier::external_body]
fn inflate_zlib(data: &[u8]) -> (r: Option<Vec<u8>>)
    ensures
        match r {
            Some(v) => zlib_inflated(data@) == Some(v@),
            None => zlib_inflated(data@).is_none(),
        },
{
    let mut decoder = flate2::read::ZlibDecoder::new(data);
    let mut out = Vec::new();
    match decoder.read_to_end(&mut out) {
        Ok(_) => Some(out),
        Err(_) => None,
    }
}

/// The RGBA pixels, width and height the `image` crate decodes PNG data
/// to, none when it cannot.
pub uninterp spec fn png_rgba(data: Seq<u8>) -> Option<(Seq<u8>, u32, u32)>;

/// `image::ImageReader` with the PNG format, decoded and converted with
/// `to_rgba8`: pixels, width and height; what they are for given bytes is
/// left to the name `png_rgba`.
#[verifier::external_body]
fn decode_png_rgba(data: &[u8]) -> (r: Option<(Vec<u8>, u32, u32)>)
    ensures
        match r {
            Some((d, w, h)) => png_rgba(data@) == Some((d@, w, h)),
            None => png_rgba(data@).is_none(),
        },
{
    let reader = image::ImageReader::with_format(std::io::Cursor::new(data), image::ImageFormat::Png);
    match reader.decode() {
        Ok(img) => {
            let rgba = img.to_rgba8();
            let (w, h) = (rgba.width(), rgba.height());
            Some((rgba.into_raw(), w, h))
        }
        Err(_) => None,
    }
}

/// The PNG file signature.
pub open spec fn png_signature() -> Seq<u8> {
    seq![0x89u8, 0x50, 0x4e, 0x47, 0x0d, 0x0a, 0x1a, 0x0a]
}

/// What `decode_png` gives: invalid without the PNG signature or when the
/// decoder fails, too large above 4096 pixels either way, else the pixels.
pub open spec fn png_model(data: Seq<u8>, id: Option<u32>) -> Result<Option<(Seq<u8>, u32, u32, Option<u32>)>, KittyError> {
    if data.len() < 8 || data.take(8) != png_signature() {
        Err(KittyError::InvalidPngData)
    } else {
        match png_rgba(data) {
            None => Err(KittyError::InvalidPngData),
            Some((d, w, h)) => if w > MAX_IMAGE_WIDTH || h > MAX_IMAGE_HEIGHT {
                Err(KittyError::ImageTooLarge)
            } else {
                Ok(Some((d, w, h, id)))
            },
        }
    }
}

/// What `decode_image` gives for a command's control keys and data.
pub open spec fn image_model(c: KittyControl, data: Seq<u8>) -> Result<Option<(Seq<u8>, u32, u32, Option<u32>)>, KittyError> {
    match c.format {
        None => Err(KittyError::MissingFormat),
        Some(format) => {
            let inflated = if c.compression == Some('z') { zlib_inflated(data) } else { Some(data) };
            match inflated {
                None => Err(KittyError::DecompressionError),
                Some(d) => match format {
                    KittyFormat::Png => png_model(d, c.image_id),
                    _ => match (c.width, c.height) {
                        (Some(w), Some(h)) => raw_model(d, w, h, format, c.image_id),
                        _ => Err(KittyError::MissingDimensions),
                    },
                },
            }
        },
    }
}

/// Zlib-inflate data.
pub fn decompress_zlib(data: &[u8]) -> (r: Result<Vec<u8>, KittyError>)
    ensures
        match zlib_inflated(data@) {
            Some(d) => r.is_ok() && r.unwrap()@ == d,
            None => r == Err::<Vec<u8>, KittyError>(KittyError::DecompressionError),
        },
{
    match inflate_zlib(data) {
        Some(v) => Ok(v),
        None => Err(KittyError::DecompressionError),
    }
}

/// The characters that are not white space.
pub open spec fn without_white_space(s: Seq<char>) -> Seq<char>
    decreases s.len(),
{
    if s.len() == 0 {
        s
    } else if is_white_space(s.last()) {
        without_white_space(s.drop_last())
    } else {
        without_white_space(s.drop_last()).push(s.last())
    }
}

/// The image data a payload's data part carries: base64 of its text with
/// white space removed.
pub open spec fn payload_data(data: Seq<u8>) -> Seq<u8> {
    base64_value(encode_utf8(without_white_space(decode_utf8(data))))
}

/// Index of the first `;` in the payload, if any.
pub open spec fn semicolon_at(p: Seq<u8>) -> Option<int>
    decreases p.len(),
{
    if p.len() == 0 {
        None
    } else {
        match semicolon_at(p.drop_last()) {
            Some(i) => Some(i),
            None => if p.last() == 0x3b { Some(p.len() - 1) } else { None },
        }
    }
}

/// The control part of a payload: before the first `;`, or all of it.
pub open spec fn control_part(p: Seq<u8>) -> Seq<u8> {
    match semicolon_at(p) { Some(i) => p.take(i), None => p }
}

/// The data part of a payload: after the first `;`, or nothing.
pub open spec fn data_part(p: Seq<u8>) -> Seq<u8> {
    match semicolon_at(p) { Some(i) => p.skip(i + 1), None => seq![] }
}

/// The chunk data collected so far for an id.
pub open spec fn collected(m: Map<u32, Vec<u8>>, id: u32) -> Seq<u8> {
    if m.contains_key(id) { m[id]@ } else { seq![] }
}

/// Control keys of the final chunk completed with those of the first one:
/// its format and size, where the final chunk has none.
pub open spec fn merged_control(c: KittyControl, first: Option<KittyCommand>) -> KittyControl {
    match first {
        None => c,
        Some(f) => KittyControl {
            format: if c.format.is_some() { c.format } else { f.format },
            width: if c.width.is_some() { c.width } else { f.width },
            height: if c.height.is_some() { c.height } else { f.height },
            ..c
        },
    }
}

fn semicolon_exec(p: &[u8]) -> (r: Option<usize>)
    ensures
        r.is_some() == semicolon_at(p@).is_some(),
        r.is_some() ==> r.unwrap() as int == semicolon_at(p@).unwrap() && r.unwrap() < p.len(),
{
    let mut i: usize = 0;
    while i < p.len()
        invariant
            0 <= i <= p.len(),
            semicolon_at(p@.take(i as int)).is_none(),
        decreases p.len() - i,
    {
        assert(p@.take(i + 1).drop_last() =~= p@.take(i as int));
        if p[i] == 0x3b {
            proof { lemma_semicolon_prefix(p@, i + 1); }
            return Some(i);
        }
        i = i + 1;
    }
    assert(p@.take(p.len() as int) =~= p@);
    None
}

proof fn lemma_semicolon_prefix(s: Seq<u8>, n: int)
    requires
        0 <= n <= s.len(),
        semicolon_at(s.take(n)).is_some(),
    ensures
        semicolon_at(s) == semicolon_at(s.take(n)),
    decreases s.len() - n,
{
    if n < s.len() {
        assert(s.take(n + 1).drop_last() =~= s.take(n));
        lemma_semicolon_prefix(s, n + 1);
    } else {
        assert(s.take(n) =~= s);
    }
}

fn bytes_range(s: &[u8], from: usize, to: usize) -> (v: Vec<u8>)
    requires from <= to <= s.len(),
    ensures v@ == s@.subrange(from as int, to as int),
{
    let mut v: Vec<u8> = Vec::new();
    let mut i: usize = from;
    while i < to
        invariant
            from <= i <= to,
            to <= s.len(),
            v@ =~= s@.subrange(from as int, i as int),
        decreases to - i,
    {
        v.push(s[i]);
        i = i + 1;
    }
    v
}

fn decode_payload_data(text: &str) -> (d: Vec<u8>)
    ensures d@ == base64_value(encode_utf8(without_white_space(text@))),
{
    let chars = chars_of(text);
    let mut kept: Vec<char> = Vec::new();
    let mut i: usize = 0;
    while i < chars.len()
        invariant
            0 <= i <= chars.len(),
            chars@ == text@,
            kept@ == without_white_space(chars@.take(i as int)),
        decreases chars.len() - i,
    {
        assert(chars@.take(i + 1).drop_last() =~= chars@.take(i as int));
        if !is_white_space_exec(chars[i]) {
            kept.push(chars[i]);
        }
        i = i + 1;
    }
    assert(chars@.take(chars.len() as int) =~= chars@);
    let clean = string_from_chars(kept.as_slice());
    let bytes = str_utf8_bytes(clean.as_str());
    base64_decode_bytes(bytes.as_slice())
}

impl KittyDecoder {
    /// Decode PNG data to RGBA pixels.
    pub fn decode_png(&self, data: &[u8], id: Option<u32>) -> (r: Result<Option<KittyImage>, KittyError>)
        ensures outcome_is(r, png_model(data@, id)),
    {
        if data.len() < 8 {
            return Err(KittyError::InvalidPngData);
        }
        let sig: [u8; 8] = [0x89, 0x50, 0x4e, 0x47, 0x0d, 0x0a, 0x1a, 0x0a];
        let mut k: usize = 0;
        while k < 8
            invariant
                0 <= k <= 8,
                data@.len() >= 8,
                sig@ == png_signature(),
                forall|j: int| 0 <= j < k ==> data@[j] == sig@[j],
            decreases 8 - k,
        {
            if data[k] != sig[k] {
                assert(data@.take(8)[k as int] != png_signature()[k as int]);
                return Err(KittyError::InvalidPngData);
            }
            k = k + 1;
        }
        assert(data@.take(8) =~= png_signature());
        match decode_png_rgba(data) {
            None => Err(KittyError::InvalidPngData),
            Some((pixels, width, height)) => {
                if width > MAX_IMAGE_WIDTH || height > MAX_IMAGE_HEIGHT {
                    Err(KittyError::ImageTooLarge)
                } else {
                    Ok(Some(KittyImage { data: pixels, width, height, id }))
                }
            }
        }
    }

    /// Decode a command's data into an image.
    pub fn decode_image(&self, cmd: KittyCommand) -> (r: Result<Option<KittyImage>, KittyError>)
        ensures outcome_is(r, image_model(control_of(cmd), cmd.data@)),
    {
        let format = match cmd.format {
            Some(f) => f,
            None => return Err(KittyError::MissingFormat),
        };
        let data: Vec<u8> = if cmd.compression == Some('z') {
            match decompress_zlib(cmd.data.as_slice()) {
                Ok(d) => d,
                Err(e) => return Err(e),
            }
        } else {
            cmd.data
        };
        match format {
            KittyFormat::Png => self.decode_png(data.as_slice(), cmd.image_id),
            _ => {
                let width = match cmd.width {
                    Some(w) => w,
                    None => return Err(KittyError::MissingDimensions),
                };
                let height = match cmd.height {
                    Some(h) => h,
                    None => return Err(KittyError::MissingDimensions),
                };
                self.decode_raw(data.as_slice(), width, height, format, cmd.image_id)
            }
        }
    }

    /// Parse a payload `control;base64 data`. A chunk with `m=1` is kept
    /// (by image id, 0 without one) and gives no image; the final chunk is
    /// joined to the kept ones, takes the first chunk's format and size
    /// where it has none, and is decoded when its action transmits.
    pub fn parse(&mut self, payload: &[u8]) -> (r: Result<Option<KittyImage>, KittyError>)
        ensures
            !valid_utf8(control_part(payload@)) ==> r == Err::<Option<KittyImage>, KittyError>(KittyError::InvalidControlData)
                && final(self)@ == old(self)@,
            valid_utf8(control_part(payload@)) ==> match control_value(decode_utf8(control_part(payload@))) {
                Err(e) => r == Err::<Option<KittyImage>, KittyError>(e) && final(self)@ == old(self)@,
                Ok(c) => if data_part(payload@).len() > 0 && !valid_utf8(data_part(payload@)) {
                    r == Err::<Option<KittyImage>, KittyError>(KittyError::InvalidPayload) && final(self)@ == old(self)@
                } else {
                    let d = if data_part(payload@).len() > 0 { payload_data(data_part(payload@)) } else { seq![] };
                    let id: u32 = match c.image_id { Some(i) => i, None => 0 };
                    if c.more_data {
                        &&& r.is_ok() && r.unwrap().is_none()
                        &&& final(self).partial_data@.dom() == old(self).partial_data@.dom().insert(id)
                        &&& final(self).partial_data@[id]@ == collected(old(self).partial_data@, id) + d
                        &&& forall|k: u32| k != id && old(self).partial_data@.contains_key(k) ==>
                            #[trigger] final(self).partial_data@[k] == old(self).partial_data@[k]
                        &&& final(self).partial_cmd@.contains_key(id)
                        &&& control_of(final(self).partial_cmd@[id]) == c
                        &&& final(self).partial_cmd@.remove(id) == old(self).partial_cmd@.remove(id)
                    } else {
                        let had = old(self).partial_data@.contains_key(id);
                        let first = if had && old(self).partial_cmd@.contains_key(id) { Some(old(self).partial_cmd@[id]) } else { None };
                        let merged = merged_control(c, first);
                        let all = collected(old(self).partial_data@, id) + d;
                        &&& final(self).partial_data@ == old(self).partial_data@.remove(id)
                        &&& (had ==> final(self).partial_cmd@ == old(self).partial_cmd@.remove(id))
                        &&& (!had ==> final(self).partial_cmd@ == old(self).partial_cmd@)
                        &&& (c.action == KittyAction::Transmit || c.action == KittyAction::TransmitDisplay) ==>
                            outcome_is(r, image_model(merged, all))
                        &&& !(c.action == KittyAction::Transmit || c.action == KittyAction::TransmitDisplay) ==>
                            r.is_ok() && r.unwrap().is_none()
                    }
                },
            },
    {
        let (control, data): (Vec<u8>, Vec<u8>) = match semicolon_exec(payload) {
            Some(pos) => (bytes_range(payload, 0, pos), bytes_range(payload, pos + 1, payload.len())),
            None => (bytes_range(payload, 0, payload.len()), Vec::new()),
        };
        assert(control@ == control_part(payload@));
        assert(data@ == data_part(payload@));
        let control_str = match utf8_decode(control.as_slice()) {
            Some(s) => s,
            None => return Err(KittyError::InvalidControlData),
        };
        let mut cmd = match self.parse_control(control_str.as_str()) {
            Ok(c) => c,
            Err(e) => return Err(e),
        };
        if data.len() > 0 {
            let data_str = match utf8_decode(data.as_slice()) {
                Some(s) => s,
                None => return Err(KittyError::InvalidPayload),
            };
            cmd.data = decode_payload_data(data_str.as_str());
        }
        let id: u32 = match cmd.image_id {
            Some(i) => i,
            None => 0,
        };
        if cmd.more_data {
            let mut buf: Vec<u8> = match self.partial_data.remove(&id) {
                Some(b) => b,
                None => Vec::new(),
            };
            let mut chunk = bytes_range(cmd.data.as_slice(), 0, cmd.data.len());
            assert(chunk@ =~= cmd.data@);
            buf.append(&mut chunk);
            self.partial_data.insert(id, buf);
            self.partial_cmd.insert(id, cmd);
            return Ok(None);
        }
        let ghost d0 = cmd.data@;
        let ghost old_partial = self.partial_data@;
        proof {
            if data.len() == 0 {
                assert(d0 =~= Seq::<u8>::empty());
            }
        }
        match self.partial_data.remove(&id) {
            Some(mut partial) => {
                let mut chunk = cmd.data;
                partial.append(&mut chunk);
                cmd.data = partial;
                assert(cmd.data@ =~= collected(old_partial, id) + d0);
                match self.partial_cmd.remove(&id) {
                    Some(first) => {
                        if cmd.format.is_none() {
                            cmd.format = first.format;
                        }
                        if cmd.width.is_none() {
                            cmd.width = first.width;
                        }
                        if cmd.height.is_none() {
                            cmd.height = first.height;
                        }
                    }
                    None => {}
                }
            }
            None => {
                assert(cmd.data@ =~= collected(old_partial, id) + d0);
            }
        }
        match cmd.action {
            KittyAction::Transmit | KittyAction::TransmitDisplay => self.decode_image(cmd),
            _ => Ok(None),
        }
    }
}

/// Mathematical form of the decoder: what is kept of chunked transmissions.
pub struct KittyDecoderModel {
    pub partial_data: Map<u32, Vec<u8>>,
    pub partial_cmd: Map<u32, KittyCommand>,
}

impl View for KittyDecoder {
    type V = KittyDecoderModel;

    open spec fn view(&self) -> KittyDecoderModel {
        KittyDecoderModel { partial_data: self.partial_data@, partial_cmd: self.partial_cmd@ }
    }
}

} // verus!
