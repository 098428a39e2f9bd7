//! Known host keys, as the `known_hosts` file lists them: reading the
//! file's text, checking a server's key, adding and removing hosts, and the
//! text the file is saved with.

use vstd::prelude::*;
use std::hash::Hasher;
use vstd::std_specs::hash::DefaultHasherAdditionalSpecFns;
use crate::ssh::assoc::{assoc, keys_distinct, has_key, lemma_assoc_dom, lemma_assoc_get, lemma_assoc_len,
    lemma_assoc_update, lemma_assoc_remove, lemma_assoc_push};
use crate::text::{
    chars_of, concat_string, u64_to_decimal, decimal_digits, string_from_chars, split_chars, split_on,
    trim, trim_chars, words, split_words, chars_eq, utf8_len, chars_in_bytes, prefix_of_bytes,
};

verus! {

/// A server's public key: its type name (such as `ssh-ed25519`) and the
/// bytes of the key.
pub struct HostKey {
    pub key_type: String,
    pub key_bytes: Vec<u8>,
}

/// What checking a server's key against the known hosts found.
#[derive(Debug, Clone, PartialEq, Eq)]
pub enum HostKeyVerification {
    /// The key is the one on record.
    Verified,
    /// No key of this type is on record for the host.
    Unknown { fingerprint: String },
    /// A different key of this type is on record (possibly an attack).
    Changed { fingerprint: String, expected_fingerprint: String },
}

/// One key of a host: its type and its base64 text.
pub struct KeyEntry {
    pub key_type: String,
    pub key_data: String,
}

/// A host and its keys.
pub struct HostEntry {
    pub host: String,
    pub keys: Vec<KeyEntry>,
}

/// The known hosts: for each host name, its keys by type.
pub struct KnownHosts {
    /// Where the file is.
    pub path: String,
    pub entries: Vec<HostEntry>,
}

/// A host's keys as pairs of type and key text.
pub open spec fn key_pairs(ks: Seq<KeyEntry>) -> Seq<(Seq<char>, Seq<char>)> {
    Seq::new(ks.len(), |i: int| (ks[i].key_type@, ks[i].key_data@))
}

/// A host's keys by type.
pub open spec fn keys_map(ks: Seq<KeyEntry>) -> Map<Seq<char>, Seq<char>> {
    assoc(key_pairs(ks))
}

/// The hosts as pairs of name and keys.
pub open spec fn host_pairs(es: Seq<HostEntry>) -> Seq<(Seq<char>, Map<Seq<char>, Seq<char>>)> {
    Seq::new(es.len(), |i: int| (es[i].host@, keys_map(es[i].keys@)))
}

impl View for KnownHosts {
    type V = Map<Seq<char>, Map<Seq<char>, Seq<char>>>;

    open spec fn view(&self) -> Map<Seq<char>, Map<Seq<char>, Seq<char>>> {
        assoc(host_pairs(self.entries@))
    }
}

/// The name a host is listed under: the host itself on port 22, else
/// `[host]:port`.
pub open spec fn host_entry_name(host: Seq<char>, port: u16) -> Seq<char> {
    if port == 22 {
        host
    } else {
        seq!['['] + host + "]:"@ + decimal_digits(port as nat)
    }
}

/// The map with key `key_type` of `host` set to `key_data`, its other keys kept.
pub open spec fn with_key(m: Map<Seq<char>, Map<Seq<char>, Seq<char>>>, host: Seq<char>, key_type: Seq<char>, key_data: Seq<char>)
    -> Map<Seq<char>, Map<Seq<char>, Seq<char>>>
{
    m.insert(host, (if m.contains_key(host) { m[host] } else { Map::empty() }).insert(key_type, key_data))
}

/// What a line of the file lists: host, key type and key text, from a line
/// that is neither blank nor a comment and has three words or more.
pub open spec fn line_entry(line: Seq<char>) -> Option<(Seq<char>, Seq<char>, Seq<char>)> {
    let t = trim(line);
    if t.len() == 0 || t[0] == '#' {
        None
    } else {
        let w = words(t);
        if w.len() >= 3 { Some((w[0], w[1], w[2])) } else { None }
    }
}

/// The known hosts the lines list, later lines overriding earlier ones.
pub open spec fn parse_lines(lines: Seq<Seq<char>>) -> Map<Seq<char>, Map<Seq<char>, Seq<char>>>
    decreases lines.len(),
{
    if lines.len() == 0 {
        Map::empty()
    } else {
        let m = parse_lines(lines.drop_last());
        match line_entry(lines.last()) {
            Some((h, t, d)) => with_key(m, h, t, d),
            None => m,
        }
    }
}

/// The character of a six-bit value in the standard base64 alphabet
/// (`A`-`Z`, `a`-`z`, `0`-`9`, `+`, `/`).
pub open spec fn base64_char(v: int) -> char {
    if v < 26 {
        ('A' as int + v) as char
    } else if v < 52 {
        ('a' as int + v - 26) as char
    } else if v < 62 {
        ('0' as int + v - 52) as char
    } else if v == 62 {
        '+'
    } else {
        '/'
    }
}

/// Standard base64 with padding (RFC 4648): each group of three bytes
/// becomes four characters of six bits each; a last group of one or two
/// bytes becomes two or three characters and `=` padding to four.
pub open spec fn base64_standard(bytes: Seq<u8>) -> Seq<char>
    decreases bytes.len(),
{
    if bytes.len() == 0 {
        Seq::<char>::empty()
    } else if bytes.len() == 1 {
        let b0 = bytes[0] as int;
        seq![base64_char(b0 / 4), base64_char((b0 % 4) * 16), '=', '=']
    } else if bytes.len() == 2 {
        let b0 = bytes[0] as int;
        let b1 = bytes[1] as int;
        seq![base64_char(b0 / 4), base64_char((b0 % 4) * 16 + b1 / 16), base64_char((b1 % 16) * 4), '=']
    } else {
        let b0 = bytes[0] as int;
        let b1 = bytes[1] as int;
        let b2 = bytes[2] as int;
        seq![base64_char(b0 / 4), base64_char((b0 % 4) * 16 + b1 / 16), base64_char((b1 % 16) * 4 + b2 / 64),
            base64_char(b2 % 64)] + base64_standard(bytes.skip(3))
    }
}

/// `base64::engine::general_purpose::STANDARD.encode`: the key bytes as the
/// text a known_hosts file holds, in standard padded base64.
#[verifier::external_body]
fn base64_encode(bytes: &[u8]) -> (s: String)
    ensures
        s@ == base64_standard(bytes@),
{
    base64::Engine::encode(&base64::engine::general_purpose::STANDARD, bytes)
}

/// The writes `Hash::hash` makes for a byte slice (its length, then its
/// bytes) into a hasher: a function of the bytes, in this build of std.
pub uninterp spec fn slice_hash_writes(bytes: Seq<u8>) -> Seq<Seq<u8>>;

/// `Hash::hash` of a byte slice into the hasher: the writes it makes (left
/// to the name `slice_hash_writes`) follow those already made.
#[verifier::external_body]
fn hash_bytes(bytes: &[u8], hasher: &mut std::collections::hash_map::DefaultHasher)
    ensures
        final(hasher)@ == old(hasher)@ + slice_hash_writes(bytes@),
{
    std::hash::Hash::hash(bytes, hasher)
}

/// The 64-bit hash `DefaultHasher` (fresh from `new`, which gives the same
/// hasher each time) computes for the key bytes.
pub open spec fn key_hash(bytes: Seq<u8>) -> u64 {
    std::collections::hash_map::DefaultHasher::spec_finish(slice_hash_writes(bytes))
}

/// A hexadecimal digit, lower case.
pub open spec fn hex_digit(d: nat) -> char {
    if d < 10 { (d + '0' as nat) as char } else { (d - 10 + 'a' as nat) as char }
}

/// The last `width` hexadecimal digits of `n`, zero-padded.
pub open spec fn hex_fixed(n: nat, width: nat) -> Seq<char>
    decreases width,
{
    if width == 0 {
        Seq::<char>::empty()
    } else {
        hex_fixed(n / 16, (width - 1) as nat).push(hex_digit(n % 16))
    }
}

fn hex_fixed_exec(n: u64, width: usize) -> (v: Vec<char>)
    ensures
        v@ == hex_fixed(n as nat, width as nat),
    decreases width,
{
    if width == 0 {
        Vec::new()
    } else {
        let mut v = hex_fixed_exec(n / 16, width - 1);
        let d = n % 16;
        let c = if d < 10 { ((d as u32) + ('0' as u32)) as u8 as char } else { ((d as u32) - 10 + ('a' as u32)) as u8 as char };
        v.push(c);
        v
    }
}

/// A key's fingerprint as shown: `SHA256:` and sixteen hexadecimal digits
/// of a 64-bit hash of the key bytes.
pub open spec fn fingerprint_text(h: u64) -> Seq<char> {
    "SHA256:"@ + hex_fixed(h as nat, 16)
}

/// The fingerprint of the key bytes: `fingerprint_text` of their hash.
fn key_fingerprint(bytes: &[u8]) -> (s: String)
    ensures
        s@ == fingerprint_text(key_hash(bytes@)),
{
    let mut hasher = std::collections::hash_map::DefaultHasher::new();
    hash_bytes(bytes, &mut hasher);
    assert(hasher@ =~= slice_hash_writes(bytes@));
    let h = hasher.finish();
    let p = chars_of("SHA256:");
    let d = hex_fixed_exec(h, 16);
    let s = concat_string(p.as_slice(), d.as_slice());
    assert(s@ == fingerprint_text(h));
    s
}

/// Whether a key of the type is on record for the host, and it is not `key_data`.
pub open spec fn recorded_differs(m: Map<Seq<char>, Map<Seq<char>, Seq<char>>>, name: Seq<char>, key_type: Seq<char>, key_data: Seq<char>) -> bool {
    m.contains_key(name) && m[name].contains_key(key_type) && m[name][key_type] != key_data
}

/// The expected fingerprint shown for a changed key: the type, `:`, and the
/// first 16 bytes of the recorded key text.
pub open spec fn expected_text(key_type: Seq<char>, known: Seq<char>) -> Seq<char> {
    key_type + ":"@ + known.take(chars_in_bytes(known, 16)->0 as int)
}

/// What checking a key with type `key_type` and text `key_data` for the
/// host listed as `name` gives, the key's fingerprint being `fp`.
pub open spec fn verification_of(v: HostKeyVerification, m: Map<Seq<char>, Map<Seq<char>, Seq<char>>>, name: Seq<char>,
    key_type: Seq<char>, key_data: Seq<char>, fp: Seq<char>) -> bool
{
    if m.contains_key(name) && m[name].contains_key(key_type) {
        if m[name][key_type] == key_data {
            v == HostKeyVerification::Verified
        } else {
            v matches HostKeyVerification::Changed { fingerprint, expected_fingerprint }
                && fingerprint@ == fp
                && expected_fingerprint@ == expected_text(key_type, m[name][key_type])
        }
    } else {
        v matches HostKeyVerification::Unknown { fingerprint } && fingerprint@ == fp
    }
}

/// The lines `host type key` for each of the keys.
pub open spec fn key_lines(host: Seq<char>, ks: Seq<KeyEntry>) -> Seq<char>
    decreases ks.len(),
{
    if ks.len() == 0 {
        Seq::<char>::empty()
    } else {
        key_lines(host, ks.drop_last()) + host + " "@ + ks.last().key_type@ + " "@ + ks.last().key_data@ + "\n"@
    }
}

/// The text of a known_hosts file listing the entries.
pub open spec fn file_text(es: Seq<HostEntry>) -> Seq<char>
    decreases es.len(),
{
    if es.len() == 0 {
        Seq::<char>::empty()
    } else {
        file_text(es.drop_last()) + key_lines(es.last().host@, es.last().keys@)
    }
}

/// Append the characters of `s`.
fn append_str(out: &mut Vec<char>, s: &str)
    ensures
        final(out)@ == old(out)@ + s@,
{
    let c = chars_of(s);
    let mut i: usize = 0;
    while i < c.len()
        invariant
            i <= c@.len(),
            c@ == s@,
            out@ == old(out)@ + s@.take(i as int),
        decreases c@.len() - i,
    {
        out.push(c[i]);
        i = i + 1;
        proof { assert(out@ =~= old(out)@ + s@.take(i as int)); }
    }
    proof { assert(s@.take(i as int) =~= s@); }
}

proof fn lemma_key_pairs_update(ks: Seq<KeyEntry>, j: int, k: KeyEntry)
    requires
        0 <= j < ks.len(),
    ensures
        key_pairs(ks.update(j, k)) =~= key_pairs(ks).update(j, (k.key_type@, k.key_data@)),
{
}

proof fn lemma_key_pairs_push(ks: Seq<KeyEntry>, k: KeyEntry)
    ensures
        key_pairs(ks.push(k)) =~= key_pairs(ks).push((k.key_type@, k.key_data@)),
{
}

proof fn lemma_host_pairs_update(es: Seq<HostEntry>, i: int, e: HostEntry)
    requires
        0 <= i < es.len(),
    ensures
        host_pairs(es.update(i, e)) =~= host_pairs(es).update(i, (e.host@, keys_map(e.keys@))),
{
}

proof fn lemma_host_pairs_push(es: Seq<HostEntry>, e: HostEntry)
    ensures
        host_pairs(es.push(e)) =~= host_pairs(es).push((e.host@, keys_map(e.keys@))),
{
}

proof fn lemma_host_pairs_remove(es: Seq<HostEntry>, i: int)
    requires
        0 <= i < es.len(),
    ensures
        host_pairs(es.remove(i)) =~= host_pairs(es).remove(i),
{
}

impl KnownHosts {
    pub open spec fn wf(&self) -> bool {
        &&& keys_distinct(host_pairs(self.entries@))
        &&& forall|i: int| 0 <= i < self.entries@.len() ==> #[trigger] keys_distinct(key_pairs(self.entries@[i].keys@))
    }

    /// No hosts, kept in the file at `path`.
    pub fn new(path: String) -> (k: KnownHosts)
        ensures
            k.wf(),
            k.path == path,
            k@ == Map::<Seq<char>, Map<Seq<char>, Seq<char>>>::empty(),
    {
        KnownHosts { path, entries: Vec::new() }
    }

    /// The name `host` on `port` is listed under (see `host_entry_name`).
    pub fn host_string(&self, host: &str, port: u16) -> (s: String)
        ensures
            s@ == host_entry_name(host@, port),
    {
        if port == 22 {
            host.to_string()
        } else {
            let mut v: Vec<char> = Vec::new();
            v.push('[');
            let h = chars_of(host);
            let a = concat_string(v.as_slice(), h.as_slice());
            let mut av = chars_of(a.as_str());
            av.push(']');
            av.push(':');
            let d = u64_to_decimal(port as u64);
            let s = concat_string(av.as_slice(), d.as_slice());
            proof {
                assert(av@ =~= seq!['['] + host@ + "]:"@) by { reveal_strlit("]:"); }
            }
            s
        }
    }

    /// Where the host's entry stands.
    fn find_host(&self, host: &[char]) -> (r: Option<usize>)
        ensures
            r matches Some(i) ==> i < self.entries@.len() && self.entries@[i as int].host@ == host@,
            r is None ==> !has_key(host_pairs(self.entries@), host@),
    {
        let mut i: usize = 0;
        while i < self.entries.len()
            invariant
                i <= self.entries@.len(),
                forall|k: int| 0 <= k < i ==> #[trigger] self.entries@[k].host@ != host@,
            decreases self.entries@.len() - i,
        {
            let h = chars_of(self.entries[i].host.as_str());
            if chars_eq(h.as_slice(), host) {
                return Some(i);
            }
            i = i + 1;
        }
        proof {
            if has_key(host_pairs(self.entries@), host@) {
                let k = choose|k: int| 0 <= k < host_pairs(self.entries@).len() && #[trigger] host_pairs(self.entries@)[k].0 == host@;
                assert(self.entries@[k].host@ == host@);
            }
        }
        None
    }

    /// Whether `host` on `port` is listed.
    pub fn is_known(&self, host: &str, port: u16) -> (b: bool)
        ensures
            b == self@.contains_key(host_entry_name(host@, port)),
    {
        let name = self.host_string(host, port);
        let n = chars_of(name.as_str());
        let r = self.find_host(n.as_slice());
        proof {
            lemma_assoc_dom(host_pairs(self.entries@), name@);
            match r {
                Some(i) => { assert(host_pairs(self.entries@)[i as int].0 == name@); }
                None => {}
            }
        }
        r.is_some()
    }

    /// How many hosts are listed.
    pub fn len(&self) -> (n: usize)
        requires
            self.wf(),
        ensures
            n == self@.dom().len(),
    {
        proof { lemma_assoc_len(host_pairs(self.entries@)); }
        self.entries.len()
    }

    /// Whether no host is listed.
    pub fn is_empty(&self) -> (b: bool)
        requires
            self.wf(),
        ensures
            b == (self@.dom().len() == 0),
    {
        proof { lemma_assoc_len(host_pairs(self.entries@)); }
        self.entries.len() == 0
    }

    /// Set `host`'s key of type `key_type` to `key_data`, keeping its other keys.
    pub fn insert_key(&mut self, host: String, key_type: String, key_data: String)
        requires
            old(self).wf(),
        ensures
            final(self).wf(),
            final(self)@ == with_key(old(self)@, host@, key_type@, key_data@),
            final(self).path == old(self).path,
    {
        let hc = chars_of(host.as_str());
        match self.find_host(hc.as_slice()) {
            Some(i) => {
                let ghost es = self.entries@;
                let mut entry = self.entries.remove(i);
                let ghost ks = entry.keys@;
                proof {
                    assert(es[i as int] == entry);
                    assert(keys_distinct(key_pairs(ks)));
                    lemma_assoc_get(host_pairs(es), i as int);
                    assert(host_pairs(es)[i as int].0 == host@);
                }
                let tc = chars_of(key_type.as_str());
                let mut j: usize = 0;
                let mut found = false;
                while j < entry.keys.len()
                    invariant
                        j <= entry.keys@.len(),
                        entry.keys@ == ks,
                        tc@ == key_type@,
                        forall|k: int| 0 <= k < j ==> #[trigger] entry.keys@[k].key_type@ != key_type@,
                    ensures
                        j <= entry.keys@.len(),
                        entry.keys@ == ks,
                        forall|k: int| 0 <= k < j ==> #[trigger] entry.keys@[k].key_type@ != key_type@,
                        j < entry.keys@.len() ==> entry.keys@[j as int].key_type@ == key_type@,
                    decreases entry.keys@.len() - j,
                {
                    let t = chars_of(entry.keys[j].key_type.as_str());
                    if chars_eq(t.as_slice(), tc.as_slice()) {
                        break;
                    }
                    j = j + 1;
                }
                if j < entry.keys.len() {
                    let mut k = entry.keys.remove(j);
                    k.key_data = key_data;
                    entry.keys.insert(j, k);
                    proof {
                        assert(entry.keys@ =~= ks.update(j as int, k));
                        lemma_key_pairs_update(ks, j as int, k);
                        assert(key_pairs(ks)[j as int].0 == key_type@);
                        lemma_assoc_update(key_pairs(ks), j as int, key_data@);
                    }
                } else {
                    let k = KeyEntry { key_type, key_data };
                    entry.keys.push(k);
                    proof {
                        lemma_key_pairs_push(ks, k);
                        if has_key(key_pairs(ks), key_type@) {
                            let x = choose|x: int| 0 <= x < key_pairs(ks).len() && #[trigger] key_pairs(ks)[x].0 == key_type@;
                            assert(ks[x].key_type@ == key_type@);
                        }
                        lemma_assoc_push(key_pairs(ks), key_type@, key_data@);
                    }
                }
                self.entries.insert(i, entry);
                proof {
                    assert(self.entries@ =~= es.update(i as int, entry));
                    lemma_host_pairs_update(es, i as int, entry);
                    lemma_assoc_update(host_pairs(es), i as int, keys_map(entry.keys@));
                    assert forall|x: int| 0 <= x < self.entries@.len() implies #[trigger] keys_distinct(key_pairs(self.entries@[x].keys@)) by {
                        if x != i { assert(self.entries@[x] == es[x]); }
                    }
                    assert(keys_map(entry.keys@) =~= keys_map(ks).insert(key_type@, key_data@));
                }
            }
            None => {
                let ghost es = self.entries@;
                let mut keys: Vec<KeyEntry> = Vec::new();
                let k = KeyEntry { key_type, key_data };
                keys.push(k);
                let e = HostEntry { host, keys };
                self.entries.push(e);
                proof {
                    lemma_host_pairs_push(es, e);
                    assert(key_pairs(e.keys@) =~= seq![(key_type@, key_data@)]);
                    assert(key_pairs(e.keys@).drop_last() =~= Seq::<(Seq<char>, Seq<char>)>::empty());
                    assert(assoc(key_pairs(e.keys@).drop_last()) =~= Map::<Seq<char>, Seq<char>>::empty());
                    assert(keys_map(e.keys@) =~= Map::<Seq<char>, Seq<char>>::empty().insert(key_type@, key_data@));
                    lemma_assoc_push(host_pairs(es), host@, keys_map(e.keys@));
                    lemma_assoc_dom(host_pairs(es), host@);
                    assert forall|x: int| 0 <= x < self.entries@.len() implies #[trigger] keys_distinct(key_pairs(self.entries@[x].keys@)) by {
                        if x < es.len() { assert(self.entries@[x] == es[x]); }
                    }
                }
            }
        }
    }
    /// Set the key of `host` on `port` to `key`, keeping its other keys.
    pub fn add(&mut self, host: &str, port: u16, key: &HostKey)
        requires
            old(self).wf(),
        ensures
            final(self).wf(),
            final(self)@ == with_key(old(self)@, host_entry_name(host@, port), key.key_type@, base64_standard(key.key_bytes@)),
            final(self).path == old(self).path,
    {
        let name = self.host_string(host, port);
        let kt = key.key_type.as_str().to_string();
        let kd = base64_encode(key.key_bytes.as_slice());
        self.insert_key(name, kt, kd);
    }

    /// Forget `host` on `port`.
    pub fn remove(&mut self, host: &str, port: u16)
        requires
            old(self).wf(),
        ensures
            final(self).wf(),
            final(self)@ == old(self)@.remove(host_entry_name(host@, port)),
            final(self).path == old(self).path,
    {
        let name = self.host_string(host, port);
        let n = chars_of(name.as_str());
        match self.find_host(n.as_slice()) {
            Some(i) => {
                let ghost es = self.entries@;
                self.entries.remove(i);
                proof {
                    lemma_host_pairs_remove(es, i as int);
                    assert(host_pairs(es)[i as int].0 == name@);
                    lemma_assoc_remove(host_pairs(es), i as int);
                    assert forall|x: int| 0 <= x < self.entries@.len() implies #[trigger] keys_distinct(key_pairs(self.entries@[x].keys@)) by {
                        if x < i { assert(self.entries@[x] == es[x]); } else { assert(self.entries@[x] == es[x + 1]); }
                    }
                }
            }
            None => {
                proof {
                    lemma_assoc_dom(host_pairs(self.entries@), name@);
                    assert(self@.remove(name@) =~= self@);
                }
            }
        }
    }

    /// Where the key of type `key_type` stands in the host entry at `i`.
    fn find_key(&self, i: usize, key_type: &[char]) -> (r: Option<usize>)
        requires
            i < self.entries@.len(),
        ensures
            r matches Some(j) ==> j < self.entries@[i as int].keys@.len() && self.entries@[i as int].keys@[j as int].key_type@ == key_type@,
            r is None ==> !has_key(key_pairs(self.entries@[i as int].keys@), key_type@),
    {
        let keys = &self.entries[i].keys;
        let mut j: usize = 0;
        while j < keys.len()
            invariant
                j <= keys@.len(),
                keys@ == self.entries@[i as int].keys@,
                forall|k: int| 0 <= k < j ==> #[trigger] keys@[k].key_type@ != key_type@,
            decreases keys@.len() - j,
        {
            let t = chars_of(keys[j].key_type.as_str());
            if chars_eq(t.as_slice(), key_type) {
                return Some(j);
            }
            j = j + 1;
        }
        proof {
            if has_key(key_pairs(keys@), key_type@) {
                let k = choose|k: int| 0 <= k < key_pairs(keys@).len() && #[trigger] key_pairs(keys@)[k].0 == key_type@;
                assert(keys@[k].key_type@ == key_type@);
            }
        }
        None
    }

    /// Check a server's key for `host` on `port` against the record: the
    /// same key of its type is `Verified`; no key of its type is `Unknown`;
    /// another key of its type is `Changed`, with the type and the first 16
    /// bytes of the recorded key text as the expected fingerprint. The
    /// fingerprints shown are `fingerprint_text` of the key's hash (`key_hash`).
    pub fn verify(&self, host: &str, port: u16, key: &HostKey) -> (v: HostKeyVerification)
        requires
            self.wf(),
            recorded_differs(self@, host_entry_name(host@, port), key.key_type@, base64_standard(key.key_bytes@))
                ==> chars_in_bytes(self@[host_entry_name(host@, port)][key.key_type@], 16) is Some,
        ensures
            verification_of(v, self@, host_entry_name(host@, port), key.key_type@, base64_standard(key.key_bytes@),
                fingerprint_text(key_hash(key.key_bytes@))),
    {
        let name = self.host_string(host, port);
        let kd = base64_encode(key.key_bytes.as_slice());
        let fingerprint = key_fingerprint(key.key_bytes.as_slice());
        let n = chars_of(name.as_str());
        let kt = chars_of(key.key_type.as_str());
        match self.find_host(n.as_slice()) {
            Some(i) => {
                proof {
                    lemma_assoc_get(host_pairs(self.entries@), i as int);
                    assert(host_pairs(self.entries@)[i as int].0 == name@);
                }
                match self.find_key(i, kt.as_slice()) {
                    Some(j) => {
                        let known = &self.entries[i].keys[j].key_data;
                        proof {
                            let ks = self.entries@[i as int].keys@;
                            assert(keys_distinct(key_pairs(ks)));
                            lemma_assoc_get(key_pairs(ks), j as int);
                            assert(key_pairs(ks)[j as int].0 == key.key_type@);
                        }
                        let kc = chars_of(known.as_str());
                        let dc = chars_of(kd.as_str());
                        if chars_eq(kc.as_slice(), dc.as_slice()) {
                            HostKeyVerification::Verified
                        } else {
                            let prefix = match prefix_of_bytes(kc.as_slice(), 16) {
                                Some(p) => p,
                                None => Vec::new(),
                            };
                            let mut e = kt.clone();
                            e.push(':');
                            let expected = concat_string(e.as_slice(), prefix.as_slice());
                            proof {
                                assert(e@ =~= key.key_type@ + ":"@) by { reveal_strlit(":"); }
                            }
                            HostKeyVerification::Changed { fingerprint, expected_fingerprint: expected }
                        }
                    }
                    None => {
                        proof {
                            lemma_assoc_dom(key_pairs(self.entries@[i as int].keys@), key.key_type@);
                        }
                        HostKeyVerification::Unknown { fingerprint }
                    }
                }
            }
            None => {
                proof { lemma_assoc_dom(host_pairs(self.entries@), name@); }
                HostKeyVerification::Unknown { fingerprint }
            }
        }
    }

    /// `verify` where its answer is defined; none where the recorded key
    /// differs and its first 16 bytes do not end a character (there `verify`
    /// has nothing to show as the expected fingerprint).
    pub fn try_verify(&self, host: &str, port: u16, key: &HostKey) -> (v: Option<HostKeyVerification>)
        requires
            self.wf(),
        ensures
            v is None <==> (recorded_differs(self@, host_entry_name(host@, port), key.key_type@, base64_standard(key.key_bytes@))
                && chars_in_bytes(self@[host_entry_name(host@, port)][key.key_type@], 16) is None),
            v matches Some(x) ==> verification_of(x, self@, host_entry_name(host@, port), key.key_type@, base64_standard(key.key_bytes@),
                fingerprint_text(key_hash(key.key_bytes@))),
    {
        let name = self.host_string(host, port);
        let kd = base64_encode(key.key_bytes.as_slice());
        let n = chars_of(name.as_str());
        let kt = chars_of(key.key_type.as_str());
        match self.find_host(n.as_slice()) {
            Some(i) => {
                proof {
                    lemma_assoc_get(host_pairs(self.entries@), i as int);
                    assert(host_pairs(self.entries@)[i as int].0 == name@);
                }
                match self.find_key(i, kt.as_slice()) {
                    Some(j) => {
                        proof {
                            let ks = self.entries@[i as int].keys@;
                            assert(keys_distinct(key_pairs(ks)));
                            lemma_assoc_get(key_pairs(ks), j as int);
                            assert(key_pairs(ks)[j as int].0 == key.key_type@);
                        }
                        let kc = chars_of(self.entries[i].keys[j].key_data.as_str());
                        let dc = chars_of(kd.as_str());
                        if !chars_eq(kc.as_slice(), dc.as_slice()) && prefix_of_bytes(kc.as_slice(), 16).is_none() {
                            return None;
                        }
                    }
                    None => {
                        proof { lemma_assoc_dom(key_pairs(self.entries@[i as int].keys@), key.key_type@); }
                    }
                }
            }
            None => {
                proof { lemma_assoc_dom(host_pairs(self.entries@), name@); }
            }
        }
        Some(self.verify(host, port, key))
    }

    /// The known hosts a file's text lists, kept at `path`: each line that
    /// is neither blank nor a comment and has three words or more gives a
    /// host, a key type and a key text.
    pub fn parse(path: String, content: &str) -> (k: KnownHosts)
        ensures
            k.wf(),
            k.path == path,
            k@ == parse_lines(split_on(content@, '\n')),
    {
        let mut k = KnownHosts::new(path);
        let c = chars_of(content);
        let lines = split_chars(c.as_slice(), '\n');
        let ghost ls = split_on(content@, '\n');
        let mut i: usize = 0;
        proof { assert(ls.take(0) =~= Seq::<Seq<char>>::empty()); }
        while i < lines.len()
            invariant
                i <= lines@.len(),
                lines@.len() == ls.len(),
                forall|x: int| 0 <= x < lines@.len() ==> #[trigger] lines@[x]@ == ls[x],
                k.wf(),
                k.path == path,
                k@ == parse_lines(ls.take(i as int)),
            decreases lines@.len() - i,
        {
            proof {
                assert(ls.take(i + 1).drop_last() =~= ls.take(i as int));
                assert(ls.take(i + 1).last() == ls[i as int]);
            }
            let t = trim_chars(lines[i].as_slice());
            if t.len() > 0 && t[0] != '#' {
                let w = split_words(t.as_slice());
                if w.len() >= 3 {
                    let h = string_from_chars(w[0].as_slice());
                    let kt = string_from_chars(w[1].as_slice());
                    let kd = string_from_chars(w[2].as_slice());
                    k.insert_key(h, kt, kd);
                }
            }
            i = i + 1;
        }
        proof { assert(ls.take(i as int) =~= ls); }
        k
    }

    /// The text the file is saved with: a line `host type key` for each key
    /// of each host.
    pub fn to_file_text(&self) -> (s: String)
        ensures
            s@ == file_text(self.entries@),
    {
        let mut out: Vec<char> = Vec::new();
        let mut i: usize = 0;
        proof { assert(self.entries@.take(0) =~= Seq::<HostEntry>::empty()); }
        while i < self.entries.len()
            invariant
                i <= self.entries@.len(),
                out@ == file_text(self.entries@.take(i as int)),
            decreases self.entries@.len() - i,
        {
            let e = &self.entries[i];
            let ghost before = out@;
            let mut j: usize = 0;
            proof { assert(e.keys@.take(0) =~= Seq::<KeyEntry>::empty()); }
            while j < e.keys.len()
                invariant
                    j <= e.keys@.len(),
                    out@ == before + key_lines(e.host@, e.keys@.take(j as int)),
                decreases e.keys@.len() - j,
            {
                let ghost b2 = out@;
                append_str(&mut out, e.host.as_str());
                out.push(' ');
                append_str(&mut out, e.keys[j].key_type.as_str());
                out.push(' ');
                append_str(&mut out, e.keys[j].key_data.as_str());
                out.push('\n');
                proof {
                    assert(e.keys@.take(j + 1).drop_last() =~= e.keys@.take(j as int));
                    assert(e.keys@.take(j + 1).last() == e.keys@[j as int]);
                    reveal_strlit(" ");
                    reveal_strlit("\n");
                    assert(out@ =~= b2 + e.host@ + " "@ + e.keys@[j as int].key_type@ + " "@ + e.keys@[j as int].key_data@ + "\n"@);
                    assert(out@ =~= before + key_lines(e.host@, e.keys@.take(j + 1)));
                }
                j = j + 1;
            }
            proof {
                assert(e.keys@.take(j as int) =~= e.keys@);
                assert(self.entries@.take(i + 1).drop_last() =~= self.entries@.take(i as int));
                assert(self.entries@.take(i + 1).last() == self.entries@[i as int]);
            }
            i = i + 1;
        }
        proof { assert(self.entries@.take(i as int) =~= self.entries@); }
        string_from_chars(out.as_slice())
    }
}

} // verus!
