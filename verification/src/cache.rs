//! Where a translation is kept on disk: one file per track and target language, named by
//! a stable hash of both.
use vstd::prelude::*;
use crate::player::{id_of, TrackKey, TrackKeyView};
use crate::text::{push_char, strings_view};

verus! {

/// A translation kept on disk: the detected language and the lines, or `None` when the
/// lyrics were already in the target language.
#[derive(Debug, Clone, PartialEq)]
pub struct CachedTranslation {
    pub source_lang: String,
    pub lines: Option<Vec<String>>,
}

pub struct CachedTranslationView {
    pub source_lang: Seq<char>,
    pub lines: Option<Seq<Seq<char>>>,
}

impl View for CachedTranslation {
    type V = CachedTranslationView;

    open spec fn view(&self) -> CachedTranslationView {
        CachedTranslationView {
            source_lang: self.source_lang@,
            lines: match self.lines {
                Some(l) => Some(strings_view(l@)),
                None => None,
            },
        }
    }
}

pub open spec fn fnv_offset() -> u64 {
    0xcbf29ce484222325
}

pub open spec fn fnv_prime() -> u64 {
    0x100000001b3
}

/// One step of FNV-1a: xor the byte in, then multiply by the prime modulo 2^64.
pub open spec fn fnv_step(h: u64, b: u8) -> u64 {
    (((h ^ (b as u64)) as nat * fnv_prime() as nat) % 0x1_0000_0000_0000_0000) as u64
}

/// The 64-bit FNV-1a hash of `s`.
pub open spec fn fnv_hash(s: Seq<u8>) -> u64
    decreases s.len(),
{
    if s.len() == 0 {
        fnv_offset()
    } else {
        fnv_step(fnv_hash(s.drop_last()), s.last())
    }
}

/// FNV-1a, 64 bits: stable across versions of Rust (unlike `DefaultHasher`).
pub fn fnv1a(bytes: &[u8]) -> (r: u64)
    ensures
        r == fnv_hash(bytes@),
{
    let mut h: u64 = 0xcbf29ce484222325;
    let mut i: usize = 0;
    while i < bytes.len()
        invariant
            i <= bytes@.len(),
            h == fnv_hash(bytes@.take(i as int)),
        decreases bytes@.len() - i,
    {
        let b = bytes[i];
        h = h ^ (b as u64);
        h = h.wrapping_mul(0x100000001b3);
        assert(bytes@.take(i + 1).drop_last() =~= bytes@.take(i as int));
        i = i + 1;
    }
    assert(bytes@.take(i as int) =~= bytes@);
    h
}

/// Hashing more bytes continues from the hash of the first ones.
pub proof fn law_fnv_continues(a: Seq<u8>, b: u8)
    ensures
        fnv_hash(a.push(b)) == fnv_step(fnv_hash(a), b),
{
    assert(a.push(b).drop_last() =~= a);
}

pub open spec fn hex_digit(d: nat) -> char {
    if d < 10 {
        (('0' as u32) + d) as char
    } else {
        (('a' as u32) + d - 10) as char
    }
}

pub open spec fn pow16(n: nat) -> nat
    decreases n,
{
    if n == 0 {
        1
    } else {
        16 * pow16((n - 1) as nat)
    }
}

/// `h` in lower-case hexadecimal, padded with zeros to 16 digits (`{:016x}`).
pub open spec fn hex16(h: u64) -> Seq<char> {
    Seq::new(16, |i: int| hex_digit(((h as nat) / pow16((15 - i) as nat)) % 16))
}

/// The name of the file that keeps the translation of `key` into `target`.
pub open spec fn cache_file_name(k: TrackKeyView, target: Seq<char>) -> Seq<char> {
    hex16(fnv_hash(vstd::utf8::encode_utf8(id_of(k) + seq!['#'] + target))) + ".json"@
}

fn push_hex16(s: &mut String, h: u64)
    ensures
        final(s)@ == old(s)@ + hex16(h),
{
    let mut p: u64 = 0x1000_0000_0000_0000;
    let mut i: usize = 0;
    proof {
        reveal_with_fuel(pow16, 16);
    }
    assert(hex16(h).take(0) =~= Seq::<char>::empty());
    while i < 16
        invariant
            i <= 16,
            p as nat == pow16((15 - i) as nat) || (i == 16 && p == 0),
            s@ == old(s)@ + hex16(h).take(i as int),
        decreases 16 - i,
    {
        proof {
            reveal_with_fuel(pow16, 16);
        }
        let d = (h / p) % 16;
        let c = if d < 10 {
            (('0' as u32) + (d as u32)) as u8 as char
        } else {
            (('a' as u32) + (d as u32) - 10) as u8 as char
        };
        assert(c == hex_digit(((h as nat) / pow16((15 - i) as nat)) % 16));
        push_char(s, c);
        assert(hex16(h).take(i + 1) =~= hex16(h).take(i as int).push(c));
        p = p / 16;
        i = i + 1;
    }
    assert(hex16(h).take(16) =~= hex16(h));
}

/// The file name under which the translation of `key` into `target` is kept:
/// the FNV-1a hash of `id#target` in 16 hexadecimal digits, then `.json`.
pub fn file_name(key: &TrackKey, target: &str) -> (r: String)
    ensures
        r@ == cache_file_name(key@, target@),
{
    let mut id = key.id();
    push_char(&mut id, '#');
    id.append(target);
    assert(id@ == id_of(key@) + seq!['#'] + target@);
    let bytes = id.as_str().as_bytes();
    assert(bytes@ == vstd::utf8::encode_utf8(id@));
    let h = fnv1a(bytes);
    let mut name = String::new();
    push_hex16(&mut name, h);
    assert(name@ =~= hex16(h));
    name.append(".json");
    name
}

/// `std::path::PathBuf`, declared so that a path can stand in fields and signatures; its
/// contents are opaque to the contracts.
#[verifier::external_type_specification]
#[verifier::external_body]
pub struct ExPathBuf(std::path::PathBuf);

/// The path that `std::path::Path::join` gives for `name` inside `dir`: a function of the
/// directory and the name alone.
pub uninterp spec fn joined(dir: std::path::PathBuf, name: Seq<char>) -> std::path::PathBuf;

/// The path of `name` inside `dir` (`std::path::Path::join`). The contract claims only that
/// the path depends on the directory and the name alone (`joined`); what it holds is not
/// stated, a path being opaque here.
#[verifier::external_body]
fn join(dir: &std::path::PathBuf, name: &str) -> (r: std::path::PathBuf)
    ensures
        r == joined(*dir, name@),
{
    dir.join(name)
}

/// The translations kept on disk, one file per track and target language.
pub struct DiskCache {
    dir: std::path::PathBuf,
}

impl View for DiskCache {
    type V = std::path::PathBuf;

    /// The directory of the cache.
    closed spec fn view(&self) -> std::path::PathBuf {
        self.dir
    }
}

impl DiskCache {
    /// A cache in `dir`.
    pub fn new(dir: std::path::PathBuf) -> (r: DiskCache)
        ensures
            r@ == dir,
    {
        DiskCache { dir }
    }

    /// The directory of the cache.
    pub fn dir(&self) -> (r: &std::path::PathBuf)
        ensures
            *r == self@,
    {
        &self.dir
    }

    /// The file of the translation of `key` into `target`: `file_name(key, target)` in the
    /// directory of the cache.
    pub fn path(&self, key: &TrackKey, target: &str) -> (r: std::path::PathBuf)
        ensures
            r == joined(self@, cache_file_name(key@, target@)),
    {
        let name = file_name(key, target);
        join(&self.dir, name.as_str())
    }
}

} // verus!
