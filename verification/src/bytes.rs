use vstd::prelude::*;
use vstd::string::StringSliceAdditionalSpecFns;
use vstd::utf8::{encode_utf8, valid_utf8};

verus! {

/// The unsigned value of a little-endian byte sequence.
pub open spec fn le_value(s: Seq<u8>) -> nat
    decreases s.len(),
{
    if s.len() == 0 {
        0
    } else {
        s[0] as nat + 256 * le_value(s.drop_first())
    }
}

/// The `n` least significant bytes of `v`, least significant first.
pub open spec fn le_bytes(v: nat, n: nat) -> Seq<u8>
    decreases n,
{
    if n == 0 {
        Seq::empty()
    } else {
        seq![(v % 256) as u8] + le_bytes(v / 256, (n - 1) as nat)
    }
}

/// The encoding of `v` in `n` bytes has `n` bytes.
pub broadcast proof fn lemma_le_bytes_len(v: nat, n: nat)
    ensures
        #[trigger] le_bytes(v, n).len() == n,
    decreases n,
{
    if n > 0 {
        lemma_le_bytes_len(v / 256, (n - 1) as nat);
    }
}

/// `s` with the bytes starting at `o` replaced by `w`.
pub open spec fn splice(s: Seq<u8>, o: int, w: Seq<u8>) -> Seq<u8> {
    s.subrange(0, o) + w + s.subrange(o + w.len(), s.len() as int)
}

/// Decoding the little-endian encoding of a value that fits gives the value back.
pub proof fn lemma_le_value_of_le_bytes(v: nat, n: nat)
    requires
        v < vstd::arithmetic::power::pow(256, n),
    ensures
        le_bytes(v, n).len() == n,
        le_value(le_bytes(v, n)) == v,
    decreases n,
{
    reveal(vstd::arithmetic::power::pow);
    if n == 0 {
    } else {
        let rest = le_bytes(v / 256, (n - 1) as nat);
        let p = vstd::arithmetic::power::pow(256, (n - 1) as nat);
        assert(v / 256 < p) by {
            vstd::arithmetic::div_mod::lemma_div_by_multiple_is_strongly_ordered(
                v as int,
                p * 256,
                p,
                256,
            );
        }
        lemma_le_value_of_le_bytes(v / 256, (n - 1) as nat);
        let whole = le_bytes(v, n);
        assert(whole.drop_first() =~= rest);
        assert(whole[0] == (v % 256) as u8);
    }
}

/// Reads the little-endian `u16` stored at `b[o..o + 2]`.
pub fn read_le16(b: &[u8], o: usize) -> (r: u16)
    requires
        o + 2 <= b@.len(),
    ensures
        r as nat == le_value(b@.subrange(o as int, o + 2)),
{
    let r = b[o] as u16 + (b[o + 1] as u16) * 256;
    proof {
        let w = b@.subrange(o as int, o + 2);
        reveal_with_fuel(le_value, 3);
        assert(w.drop_first().drop_first() =~= Seq::<u8>::empty());
    }
    r
}

/// Reads the little-endian `u32` stored at `b[o..o + 4]`.
pub fn read_le32(b: &[u8], o: usize) -> (r: u32)
    requires
        o + 4 <= b@.len(),
    ensures
        r as nat == le_value(b@.subrange(o as int, o + 4)),
{
    let r = b[o] as u32 + (b[o + 1] as u32) * 0x100 + (b[o + 2] as u32) * 0x1_0000
        + (b[o + 3] as u32) * 0x100_0000;
    proof {
        let w = b@.subrange(o as int, o + 4);
        reveal_with_fuel(le_value, 5);
        assert(w.drop_first().drop_first().drop_first().drop_first() =~= Seq::<u8>::empty());
    }
    r
}

/// Reads the little-endian `u64` stored at `b[o..o + 8]`.
pub fn read_le64(b: &[u8], o: usize) -> (r: u64)
    requires
        o + 8 <= b@.len(),
    ensures
        r as nat == le_value(b@.subrange(o as int, o + 8)),
{
    assert(b@.len() <= usize::MAX) by {
        assert(vstd::slice::spec_slice_len(b) == b@.len());
    }
    let lo = read_le32(b, o) as u64;
    let hi = read_le32(b, o + 4) as u64;
    let r = lo + hi * 0x1_0000_0000;
    proof {
        let w = b@.subrange(o as int, o + 8);
        lemma_le_value_split(w, 4);
        reveal_with_fuel(vstd::arithmetic::power::pow, 5);
        assert(vstd::arithmetic::power::pow(256, 4) == 0x1_0000_0000);
        assert(w.subrange(0, 4) =~= b@.subrange(o as int, o + 4));
        assert(w.subrange(4, 8) =~= b@.subrange(o + 4, o + 8));
        assert(le_value(w) == lo + 0x1_0000_0000 * hi);
    }
    r
}

/// Splitting a little-endian sequence after `k` bytes.
pub proof fn lemma_le_value_split(s: Seq<u8>, k: nat)
    requires
        k <= s.len(),
    ensures
        le_value(s) == le_value(s.subrange(0, k as int)) + vstd::arithmetic::power::pow(256, k)
            * le_value(s.subrange(k as int, s.len() as int)),
    decreases k,
{
    reveal(vstd::arithmetic::power::pow);
    if k == 0 {
        assert(s.subrange(0, 0) =~= Seq::<u8>::empty());
        assert(s.subrange(0, s.len() as int) =~= s);
    } else {
        let t = s.drop_first();
        lemma_le_value_split(t, (k - 1) as nat);
        assert(s.subrange(0, k as int).drop_first() =~= t.subrange(0, k - 1));
        assert(t.subrange(k - 1, t.len() as int) =~= s.subrange(k as int, s.len() as int));
        let p = vstd::arithmetic::power::pow(256, (k - 1) as nat);
        let a = le_value(t.subrange(0, k - 1));
        let c = le_value(s.subrange(k as int, s.len() as int));
        assert(256 * (a + p * c) == 256 * a + (256 * p) * c) by (nonlinear_arith);
    }
}

/// Writes `val` in little-endian order into `b[o..o + 2]`.
pub fn write_le16(b: &mut [u8], o: usize, val: u16)
    requires
        o + 2 <= old(b)@.len(),
    ensures
        final(b)@ == splice(old(b)@, o as int, le_bytes(val as nat, 2)),
{
    b[o] = (val % 0x100) as u8;
    b[o + 1] = (val / 0x100) as u8;
    proof {
        reveal_with_fuel(le_bytes, 3);
        assert(b@ =~= splice(old(b)@, o as int, le_bytes(val as nat, 2)));
    }
}

/// Writes `val` in little-endian order into `b[o..o + 4]`.
pub fn write_le32(b: &mut [u8], o: usize, val: u32)
    requires
        o + 4 <= old(b)@.len(),
    ensures
        final(b)@ == splice(old(b)@, o as int, le_bytes(val as nat, 4)),
{
    b[o] = (val % 0x100) as u8;
    b[o + 1] = ((val / 0x100) % 0x100) as u8;
    b[o + 2] = ((val / 0x1_0000) % 0x100) as u8;
    b[o + 3] = (val / 0x100_0000) as u8;
    proof {
        reveal_with_fuel(le_bytes, 5);
        assert(b@ =~= splice(old(b)@, o as int, le_bytes(val as nat, 4)));
    }
}


/// Reading back a `u16` from where it was written in little-endian order
/// gives the written value; every other byte keeps its value.
pub proof fn lemma_write_then_read_le16(before: Seq<u8>, o: int, val: u16)
    requires
        0 <= o,
        o + 2 <= before.len(),
    ensures
        splice(before, o, le_bytes(val as nat, 2)).len() == before.len(),
        le_value(splice(before, o, le_bytes(val as nat, 2)).subrange(o, o + 2)) == val,
        forall|i: int|
            0 <= i < before.len() && !(o <= i < o + 2) ==> #[trigger] splice(
                before,
                o,
                le_bytes(val as nat, 2),
            )[i] == before[i],
{
    reveal_with_fuel(vstd::arithmetic::power::pow, 3);
    lemma_le_value_of_le_bytes(val as nat, 2);
    let after = splice(before, o, le_bytes(val as nat, 2));
    assert(after.subrange(o, o + 2) =~= le_bytes(val as nat, 2));
}

/// Reading back a `u32` from where it was written in little-endian order
/// gives the written value; every other byte keeps its value.
pub proof fn lemma_write_then_read_le32(before: Seq<u8>, o: int, val: u32)
    requires
        0 <= o,
        o + 4 <= before.len(),
    ensures
        splice(before, o, le_bytes(val as nat, 4)).len() == before.len(),
        le_value(splice(before, o, le_bytes(val as nat, 4)).subrange(o, o + 4)) == val,
        forall|i: int|
            0 <= i < before.len() && !(o <= i < o + 4) ==> #[trigger] splice(
                before,
                o,
                le_bytes(val as nat, 4),
            )[i] == before[i],
{
    reveal_with_fuel(vstd::arithmetic::power::pow, 5);
    lemma_le_value_of_le_bytes(val as nat, 4);
    let after = splice(before, o, le_bytes(val as nat, 4));
    assert(after.subrange(o, o + 4) =~= le_bytes(val as nat, 4));
}

/// Why a NUL-terminated string could not be extracted.
#[derive(Debug, Clone, Copy, PartialEq, Eq)]
pub enum StringError {
    /// No NUL byte follows the start offset.
    Unterminated,
    /// The bytes before the NUL are not valid UTF-8.
    InvalidUtf8,
}

/// The index of the first NUL byte of `s` at or after `i`.
pub open spec fn first_nul(s: Seq<u8>, i: int) -> Option<int>
    decreases s.len() - i,
{
    if i < 0 || i >= s.len() {
        None
    } else if s[i] == 0 {
        Some(i)
    } else {
        first_nul(s, i + 1)
    }
}

#[verifier::external_type_specification]
#[verifier::external_body]
pub struct ExUtf8Error(std::str::Utf8Error);

/// `std::str::from_utf8`: succeeds exactly on valid UTF-8, and the string it
/// returns is made of the very bytes it was given.
#[verifier::external_body]
fn str_from_utf8(v: &[u8]) -> (r: Result<&str, std::str::Utf8Error>)
    ensures
        r is Ok <==> valid_utf8(v@),
        r is Ok ==> r->Ok_0.spec_bytes() == v@,
{
    std::str::from_utf8(v)
}

/// Extracts the NUL-terminated UTF-8 string starting at `b[o]`.
pub fn read_string(b: &[u8], o: usize) -> (r: Result<String, StringError>)
    requires
        o <= b@.len(),
    ensures
        match first_nul(b@, o as int) {
            None => r == Err::<String, StringError>(StringError::Unterminated),
            Some(end) => if valid_utf8(b@.subrange(o as int, end)) {
                r is Ok && encode_utf8(r->Ok_0@) == b@.subrange(o as int, end)
            } else {
                r == Err::<String, StringError>(StringError::InvalidUtf8)
            },
        },
{
    let mut end = o;
    while end < b.len() && b[end] != 0
        invariant
            o <= end <= b@.len(),
            first_nul(b@, o as int) == first_nul(b@, end as int),
        decreases b@.len() - end,
    {
        end = end + 1;
    }
    if end == b.len() {
        return Err(StringError::Unterminated);
    }
    let bytes = &b[o..end];
    match str_from_utf8(bytes) {
        Ok(s) => {
            let res = s.to_owned();
            Ok(res)
        },
        Err(_) => Err(StringError::InvalidUtf8),
    }
}

} // verus!
