//! Deterministic colors for slide groups that have none stored.
use vstd::prelude::*;
use vstd::string::StringSliceAdditionalSpecFns;
use vstd::utf8::encode_utf8;

verus! {

/// The palette a generated group color is drawn from.
pub const AUTO_PALETTE: [&'static str; 20] = [
    "#FF6B6B",
    "#4ECDC4",
    "#45B7D1",
    "#96CEB4",
    "#FFEAA7",
    "#DDA0DD",
    "#98D8C8",
    "#F7DC6F",
    "#BB8FCE",
    "#85C1E9",
    "#F8C471",
    "#82E0AA",
    "#F1948A",
    "#AED6F1",
    "#D7BDE2",
    "#A3E4D7",
    "#FAD7A0",
    "#A9CCE3",
    "#D5F5E3",
    "#FADBD8",
];

/// The FNV-1a 32-bit offset basis.
pub const FNV_OFFSET_BASIS: u32 = 2166136261;

/// The FNV-1a 32-bit prime.
pub const FNV_PRIME: u32 = 16777619;

/// One FNV-1a round: xor in the byte, then multiply by the prime modulo 2^32.
pub open spec fn fnv1a_step(hash: u32, byte: u8) -> u32 {
    vstd::wrapping::u32_specs::wrapping_mul(hash ^ (byte as u32), FNV_PRIME)
}

/// The FNV-1a 32-bit hash of `bytes`.
pub open spec fn fnv1a_spec(bytes: Seq<u8>) -> u32
    decreases bytes.len(),
{
    if bytes.len() == 0 {
        FNV_OFFSET_BASIS
    } else {
        fnv1a_step(fnv1a_spec(bytes.drop_last()), bytes.last())
    }
}

/// FNV-1a rounds over `bytes`, starting from the state `hash`.
pub open spec fn fnv1a_fold(hash: u32, bytes: Seq<u8>) -> u32
    decreases bytes.len(),
{
    if bytes.len() == 0 {
        hash
    } else {
        fnv1a_step(fnv1a_fold(hash, bytes.drop_last()), bytes.last())
    }
}

proof fn lemma_fold_append(hash: u32, a: Seq<u8>, b: Seq<u8>)
    ensures
        fnv1a_fold(hash, a + b) == fnv1a_fold(fnv1a_fold(hash, a), b),
    decreases b.len(),
{
    if b.len() == 0 {
        assert(a + b =~= a);
    } else {
        lemma_fold_append(hash, a, b.drop_last());
        assert((a + b).drop_last() =~= a + b.drop_last());
    }
}

proof fn lemma_spec_is_fold(bytes: Seq<u8>)
    ensures
        fnv1a_spec(bytes) == fnv1a_fold(FNV_OFFSET_BASIS, bytes),
    decreases bytes.len(),
{
    if bytes.len() > 0 {
        lemma_spec_is_fold(bytes.drop_last());
    }
}

proof fn lemma_encode_append(s: Seq<char>, t: Seq<char>)
    ensures
        encode_utf8(s + t) == encode_utf8(s) + encode_utf8(t),
    decreases s.len(),
{
    if s.len() == 0 {
        assert(s + t =~= t);
        assert(encode_utf8(s) =~= Seq::<u8>::empty());
        assert(encode_utf8(s) + encode_utf8(t) =~= encode_utf8(t));
    } else {
        lemma_encode_append(s.drop_first(), t);
        assert((s + t).drop_first() =~= s.drop_first() + t);
        assert((s + t)[0] == s[0]);
        assert(encode_utf8(s + t) =~= encode_utf8(s) + encode_utf8(t));
    }
}

/// The hash of the empty text is the offset basis, and the hash of `s`
/// followed by `t` continues the hash of `s` with the bytes of `t`.
pub proof fn lemma_fnv1a_concat(s: Seq<char>, t: Seq<char>)
    ensures
        fnv1a_spec(encode_utf8(Seq::<char>::empty())) == FNV_OFFSET_BASIS,
        fnv1a_spec(encode_utf8(s + t)) == fnv1a_fold(fnv1a_spec(encode_utf8(s)), encode_utf8(t)),
{
    assert(encode_utf8(Seq::<char>::empty()) =~= Seq::<u8>::empty());
    lemma_encode_append(s, t);
    lemma_spec_is_fold(encode_utf8(s + t));
    lemma_spec_is_fold(encode_utf8(s));
    lemma_fold_append(FNV_OFFSET_BASIS, encode_utf8(s), encode_utf8(t));
}

/// The FNV-1a 32-bit hash of the UTF-8 bytes of `s`.
pub fn fnv1a(s: &str) -> (hash: u32)
    ensures
        hash == fnv1a_spec(encode_utf8(s@)),
{
    let bytes = s.as_bytes();
    let mut hash: u32 = FNV_OFFSET_BASIS;
    let mut i: usize = 0;
    while i < bytes.len()
        invariant
            i <= bytes@.len(),
            bytes@ == s.spec_bytes(),
            hash == fnv1a_spec(bytes@.take(i as int)),
        decreases bytes@.len() - i,
    {
        let byte = bytes[i];
        hash = hash ^ (byte as u32);
        hash = hash.wrapping_mul(FNV_PRIME);
        i = i + 1;
        assert(bytes@.take(i as int).drop_last() == bytes@.take(i - 1));
    }
    assert(bytes@.take(bytes@.len() as int) == bytes@);
    hash
}

/// The palette slot a group name maps to.
pub open spec fn palette_index(name: Seq<char>) -> int {
    (fnv1a_spec(encode_utf8(name)) as int) % 20
}

/// The palette entry for a group name: the same name always gets the same
/// entry.
pub fn generate_color(name: &str) -> (color: &'static str)
    ensures
        0 <= palette_index(name@) < 20,
        color == AUTO_PALETTE[palette_index(name@)],
{
    let idx = (fnv1a(name) as usize) % 20;
    AUTO_PALETTE[idx]
}

/// Where a group's color comes from.
#[derive(Debug, Clone, PartialEq, Eq)]
pub enum GroupColor {
    /// The color stored for the group.
    Stored(String),
    /// A color generated from the palette, to be stored for the group.
    Generated(&'static str),
}

/// The color of a group: the stored one when there is one, else the
/// palette entry for its name (which the caller stores, so later calls agree).
pub fn resolve_group_color(stored: Option<String>, name: &str) -> (c: GroupColor)
    ensures
        stored is Some ==> c == GroupColor::Stored(stored->0),
        stored is None ==> c == GroupColor::Generated(AUTO_PALETTE[palette_index(name@)]),
{
    match stored {
        Some(color) => GroupColor::Stored(color),
        None => GroupColor::Generated(generate_color(name)),
    }
}

} // verus!
