//! A load-time guard over the container's metadata section.  The header
//! scanner computes the payload origin by rounding up to an alignment that
//! the container itself may declare (metadata key `general.alignment`),
//! and it divides by that value with no zero check — so a container that
//! declares alignment zero must never reach it.  This module walks the
//! metadata section, mirroring the scanner's own grammar, and reports
//! whether the bytes are safe to hand over: a declared zero alignment, or
//! a metadata section the walk cannot follow, is rejected up front as a
//! container-format error.

use vstd::prelude::*;

verus! {

/// The little-endian value of `n` bytes starting at `pos`.
pub open spec fn le_nat(data: Seq<u8>, pos: int, n: int) -> nat
    decreases n,
{
    if n <= 0 {
        0
    } else {
        data[pos] as nat + 256 * le_nat(data, pos + 1, n - 1)
    }
}

/// 256 to the power `n`.
pub open spec fn pow256(n: int) -> nat
    decreases n,
{
    if n <= 0 {
        1
    } else {
        256 * pow256(n - 1)
    }
}

/// An `n`-byte little-endian value is below 256^n.
pub proof fn lemma_le_nat_bound(data: Seq<u8>, pos: int, n: int)
    ensures
        le_nat(data, pos, n) < pow256(n),
    decreases n,
{
    if n > 0 {
        lemma_le_nat_bound(data, pos + 1, n - 1);
    }
}

/// 256^n is positive.
pub proof fn lemma_pow256_pos(n: int)
    ensures
        pow256(n) >= 1,
    decreases n,
{
    if n > 0 {
        lemma_pow256_pos(n - 1);
    }
}

/// 256^n is monotone in n.
pub proof fn lemma_pow256_mono(a: int, b: int)
    requires
        0 <= a <= b,
    ensures
        pow256(a) <= pow256(b),
    decreases b - a,
{
    if a < b {
        lemma_pow256_mono(a, b - 1);
        lemma_pow256_pos(b - 1);
    }
}

/// Reads the little-endian value of `n` bytes starting at `pos`.
fn le_at(data: &Vec<u8>, pos: usize, n: usize) -> (r: u64)
    requires
        n <= 8,
        pos + n <= data@.len(),
    ensures
        r as nat == le_nat(data@, pos as int, n as int),
{
    let dlen: usize = data.len();
    let mut r: u64 = 0;
    let mut i: usize = n;
    while i > 0
        invariant
            i <= n <= 8,
            pos + n <= dlen,
            dlen == data@.len(),
            r as nat == le_nat(data@, pos + i, n - i),
        decreases i,
    {
        i = i - 1;
        proof {
            lemma_le_nat_bound(data@, pos + i + 1, n - i - 1);
            lemma_pow256_mono(n - i - 1, 7);
            assert(pow256(0) == 1);
            assert(pow256(1) == 256);
            assert(pow256(2) == 0x10000);
            assert(pow256(3) == 0x1000000);
            assert(pow256(4) == 0x100000000);
            assert(pow256(5) == 0x10000000000);
            assert(pow256(6) == 0x1000000000000);
            assert(pow256(7) == 0x100000000000000);
        }
        r = r * 256 + (data[pos + i] as u64);
    }
    r
}

/// A byte string with its trailing zero bytes removed, as the scanner
/// trims metadata keys before keying its map.
pub open spec fn trim_zeros(s: Seq<u8>) -> Seq<u8>
    decreases s.len(),
{
    if s.len() > 0 && s.last() == 0 {
        trim_zeros(s.drop_last())
    } else {
        s
    }
}

/// The bytes of the metadata key that declares the container's alignment:
/// "general.alignment".
pub open spec fn alignment_key() -> Seq<u8> {
    seq![
        103u8,
        101u8,
        110u8,
        101u8,
        114u8,
        97u8,
        108u8,
        46u8,
        97u8,
        108u8,
        105u8,
        103u8,
        110u8,
        109u8,
        101u8,
        110u8,
        116u8,
    ]
}

/// Decides whether the key bytes at `pos..pos + len`, trailing zeros
/// trimmed, spell the alignment key.
fn key_is_alignment(data: &Vec<u8>, pos: usize, len: usize) -> (r: bool)
    requires
        pos + len <= data@.len(),
    ensures
        r == (trim_zeros(data@.subrange(pos as int, pos as int + len as int)) == alignment_key()),
{
    let ghost full = data@.subrange(pos as int, pos as int + len as int);
    let dlen: usize = data.len();
    let mut tl: usize = len;
    while tl > 0 && data[pos + tl - 1] == 0
        invariant
            tl <= len,
            pos + len <= dlen,
            dlen == data@.len(),
            full == data@.subrange(pos as int, pos as int + len as int),
            trim_zeros(full) == trim_zeros(data@.subrange(pos as int, pos as int + tl as int)),
        decreases tl,
    {
        proof {
            let cur = data@.subrange(pos as int, pos as int + tl as int);
            assert(cur.last() == data@[pos + tl - 1]);
            assert(cur.drop_last() =~= data@.subrange(pos as int, pos as int + tl - 1));
        }
        tl = tl - 1;
    }
    let ghost trimmed = data@.subrange(pos as int, pos as int + tl as int);
    proof {
        assert(trim_zeros(trimmed) == trimmed);
        assert(alignment_key().len() == 17);
    }
    if tl != 17 {
        return false;
    }
    let mut key: Vec<u8> = Vec::new();
    key.push(103);
    key.push(101);
    key.push(110);
    key.push(101);
    key.push(114);
    key.push(97);
    key.push(108);
    key.push(46);
    key.push(97);
    key.push(108);
    key.push(105);
    key.push(103);
    key.push(110);
    key.push(109);
    key.push(101);
    key.push(110);
    key.push(116);
    proof {
        assert(key@ =~= alignment_key());
    }
    let mut i: usize = 0;
    while i < 17
        invariant
            i <= 17,
            tl == 17,
            pos + len <= dlen,
            dlen == data@.len(),
            tl <= len,
            key@ == alignment_key(),
            trimmed == data@.subrange(pos as int, pos as int + tl as int),
            trim_zeros(full) == trimmed,
            full == data@.subrange(pos as int, pos as int + len as int),
            forall|j: int| 0 <= j < i ==> trimmed[j] == alignment_key()[j],
        decreases 17 - i,
    {
        if data[pos + i] != key[i] {
            proof {
                assert(trimmed[i as int] == data@[pos + i]);
                assert(trimmed != alignment_key());
            }
            return false;
        }
        proof {
            assert(trimmed[i as int] == data@[pos + i]);
        }
        i = i + 1;
    }
    proof {
        assert(trimmed =~= alignment_key());
    }
    true
}


/// The on-disk size in bytes of a metadata value of fixed-size type, or
/// `None` for strings, arrays and unknown type tags.
pub open spec fn fixed_size(vtype: nat) -> Option<nat> {
    if vtype == 0 || vtype == 1 || vtype == 7 {
        Some(1 as nat)
    } else if vtype == 2 || vtype == 3 {
        Some(2 as nat)
    } else if vtype == 4 || vtype == 5 || vtype == 6 {
        Some(4 as nat)
    } else if vtype == 10 || vtype == 11 || vtype == 12 {
        Some(8 as nat)
    } else {
        None
    }
}

/// Skips one length-prefixed string: the position just past it, or `None`
/// when it does not fit in the data.
pub open spec fn skip_string(data: Seq<u8>, pos: int, prefix: int) -> Option<int> {
    if pos + prefix > data.len() {
        None
    } else {
        let l = le_nat(data, pos, prefix);
        if pos + prefix + l > data.len() {
            None
        } else {
            Some(pos + prefix + l)
        }
    }
}

/// Skips `count` consecutive length-prefixed strings.
pub open spec fn skip_strings(data: Seq<u8>, pos: int, count: nat, prefix: int) -> Option<int>
    decreases count, 0int, 0int,
{
    if count == 0 {
        Some(pos)
    } else {
        match skip_string(data, pos, prefix) {
            None => None,
            Some(p) => skip_strings(data, p, (count - 1) as nat, prefix),
        }
    }
}

/// Skips one metadata value of the given type, following the scanner's
/// grammar: fixed-size scalars, length-prefixed strings, and arrays whose
/// header names an element type and count.  `budget` bounds the nesting of
/// arrays inside arrays, as the scanner's own depth cap does.
pub open spec fn skip_value(data: Seq<u8>, pos: int, vtype: nat, prefix: int, budget: nat) -> Option<
    int,
>
    decreases budget, 0int, 0int,
{
    if vtype == 8 {
        skip_string(data, pos, prefix)
    } else if vtype == 9 {
        if pos + 4 + prefix > data.len() {
            None
        } else {
            let et = le_nat(data, pos, 4);
            let cnt = le_nat(data, pos + 4, prefix);
            let pb = pos + 4 + prefix;
            match fixed_size(et) {
                Some(es) => {
                    if pb + cnt * es > data.len() {
                        None
                    } else {
                        Some(pb + cnt * es)
                    }
                },
                None => {
                    if et == 8 {
                        skip_strings(data, pb, cnt, prefix)
                    } else if et == 9 {
                        if budget == 0 {
                            None
                        } else {
                            skip_arrays(data, pb, cnt, prefix, (budget - 1) as nat)
                        }
                    } else {
                        None
                    }
                },
            }
        }
    } else {
        match fixed_size(vtype) {
            None => None,
            Some(s) => {
                if pos + s > data.len() {
                    None
                } else {
                    Some(pos + s)
                }
            },
        }
    }
}

/// Skips `count` consecutive array values.
pub open spec fn skip_arrays(data: Seq<u8>, pos: int, count: nat, prefix: int, budget: nat) -> Option<
    int,
>
    decreases budget, 1int, count,
{
    if count == 0 {
        Some(pos)
    } else {
        match skip_value(data, pos, 9, prefix, budget) {
            None => None,
            Some(p) => skip_arrays(data, p, (count - 1) as nat, prefix, budget),
        }
    }
}

/// Whether a metadata value declares the integer zero in one of the forms
/// the scanner reads an alignment from (u8, i8, u16, i16, u32, i32; any
/// other form falls back to the default alignment).
pub open spec fn zero_int_value(data: Seq<u8>, pos: int, vtype: nat) -> bool {
    if vtype == 0 || vtype == 1 {
        pos + 1 <= data.len() && le_nat(data, pos, 1) == 0
    } else if vtype == 2 || vtype == 3 {
        pos + 2 <= data.len() && le_nat(data, pos, 2) == 0
    } else if vtype == 4 || vtype == 5 {
        pos + 4 <= data.len() && le_nat(data, pos, 4) == 0
    } else {
        false
    }
}

/// Walks `count` metadata key-value pairs, remembering whether the last
/// occurrence of the alignment key declared zero.  `None` reports a
/// section the walk cannot follow.
pub open spec fn scan_kvs(data: Seq<u8>, pos: int, count: nat, prefix: int, zero_seen: bool) -> Option<
    bool,
>
    decreases count,
{
    if count == 0 {
        Some(zero_seen)
    } else if pos + prefix > data.len() {
        None
    } else {
        let klen = le_nat(data, pos, prefix);
        let kstart = pos + prefix;
        if kstart + klen > data.len() {
            None
        } else {
            let is_key = trim_zeros(data.subrange(kstart, kstart + klen as int)) == alignment_key();
            let tpos = kstart + klen;
            if tpos + 4 > data.len() {
                None
            } else {
                let vtype = le_nat(data, tpos, 4);
                let vpos = tpos + 4;
                let z = if is_key {
                    zero_int_value(data, vpos, vtype)
                } else {
                    zero_seen
                };
                match skip_value(data, vpos, vtype, prefix, 65) {
                    None => None,
                    Some(p) => scan_kvs(data, p, (count - 1) as nat, prefix, z),
                }
            }
        }
    }
}

/// Whether the container bytes may be handed to the header scanner: true
/// when the preamble is not a GGUF header at all (the scanner rejects it
/// before reading any metadata), or when the metadata walk completes
/// without finding a declared zero alignment; false when zero alignment is
/// declared or the walk cannot follow the section.
pub open spec fn alignment_guard_ok(data: Seq<u8>) -> bool {
    if data.len() < 8 {
        true
    } else {
        let magic = le_nat(data, 0, 4);
        let version = le_nat(data, 4, 4);
        if !((magic == 0x46554747 || magic == 0x47475546) && (version == 1 || version == 2
            || version == 3)) {
            true
        } else {
            let prefix: int = if version == 1 {
                4
            } else {
                8
            };
            if 8 + 2 * prefix > data.len() {
                true
            } else {
                let kv_count = le_nat(data, 8 + prefix, prefix);
                match scan_kvs(data, 8 + 2 * prefix, kv_count, prefix, false) {
                    None => false,
                    Some(z) => !z,
                }
            }
        }
    }
}

/// Skips one length-prefixed string.
fn skip_string_x(data: &Vec<u8>, pos: usize, prefix: usize) -> (r: Option<usize>)
    requires
        prefix == 4 || prefix == 8,
        pos <= data@.len(),
    ensures
        match r {
            Some(p) => skip_string(data@, pos as int, prefix as int) == Some(p as int) && p
                <= data@.len(),
            None => skip_string(data@, pos as int, prefix as int) is None,
        },
{
    let dlen: usize = data.len();
    if dlen - pos < prefix {
        return None;
    }
    let l = le_at(data, pos, prefix);
    if (pos as u128) + (prefix as u128) + (l as u128) > (dlen as u128) {
        return None;
    }
    Some(pos + prefix + (l as usize))
}

/// Skips one metadata value of the given type.
fn skip_value_x(data: &Vec<u8>, pos: usize, vtype: u64, prefix: usize, budget: u32) -> (r: Option<
    usize,
>)
    requires
        prefix == 4 || prefix == 8,
        pos <= data@.len(),
    ensures
        match r {
            Some(p) => skip_value(data@, pos as int, vtype as nat, prefix as int, budget as nat)
                == Some(p as int) && p <= data@.len(),
            None => skip_value(data@, pos as int, vtype as nat, prefix as int, budget as nat)
                is None,
        },
    decreases budget,
{
    let dlen: usize = data.len();
    if vtype == 8 {
        return skip_string_x(data, pos, prefix);
    }
    if vtype == 9 {
        if dlen - pos < 4 + prefix {
            return None;
        }
        let et = le_at(data, pos, 4);
        let cnt = le_at(data, pos + 4, prefix);
        let pb = pos + 4 + prefix;
        let es: usize = if et == 0 || et == 1 || et == 7 {
            1
        } else if et == 2 || et == 3 {
            2
        } else if et == 4 || et == 5 || et == 6 {
            4
        } else if et == 10 || et == 11 || et == 12 {
            8
        } else {
            0
        };
        if es > 0 {
            proof {
                assert((cnt as u128) * (es as u128) <= 0xffff_ffff_ffff_ffff * 8)
                    by (nonlinear_arith)
                    requires
                        0 <= cnt <= 0xffff_ffff_ffff_ffff,
                        0 <= es <= 8,
                ;
            }
            let total: u128 = (cnt as u128) * (es as u128);
            if (pb as u128) + total > (dlen as u128) {
                return None;
            }
            return Some(pb + (total as usize));
        }
        if et == 8 {
            proof {
                assert(skip_value(data@, pos as int, vtype as nat, prefix as int, budget as nat)
                    == skip_strings(data@, pb as int, cnt as nat, prefix as int));
            }
            let mut p: usize = pb;
            let mut c: u64 = cnt;
            while c > 0
                invariant
                    prefix == 4 || prefix == 8,
                    p <= data@.len(),
                    skip_value(data@, pos as int, vtype as nat, prefix as int, budget as nat)
                        == skip_strings(data@, p as int, c as nat, prefix as int),
                decreases c,
            {
                match skip_string_x(data, p, prefix) {
                    None => {
                        proof {
                            assert(skip_strings(data@, p as int, c as nat, prefix as int) is None);
                        }
                        return None;
                    },
                    Some(p2) => {
                        proof {
                            assert(skip_strings(data@, p as int, c as nat, prefix as int)
                                == skip_strings(data@, p2 as int, (c - 1) as nat, prefix as int));
                        }
                        p = p2;
                        c = c - 1;
                    },
                }
            }
            proof {
                assert(skip_strings(data@, p as int, 0, prefix as int) == Some(p as int));
            }
            return Some(p);
        }
        if et == 9 {
            if budget == 0 {
                return None;
            }
            let ghost b = (budget - 1) as nat;
            proof {
                assert(skip_value(data@, pos as int, vtype as nat, prefix as int, budget as nat)
                    == skip_arrays(data@, pb as int, cnt as nat, prefix as int, b));
            }
            let mut p: usize = pb;
            let mut c: u64 = cnt;
            while c > 0
                invariant
                    prefix == 4 || prefix == 8,
                    p <= data@.len(),
                    budget >= 1,
                    b == (budget - 1) as nat,
                    skip_value(data@, pos as int, vtype as nat, prefix as int, budget as nat)
                        == skip_arrays(data@, p as int, c as nat, prefix as int, b),
                decreases c,
            {
                match skip_value_x(data, p, 9, prefix, budget - 1) {
                    None => {
                        proof {
                            assert(skip_arrays(data@, p as int, c as nat, prefix as int, b)
                                is None);
                        }
                        return None;
                    },
                    Some(p2) => {
                        proof {
                            assert(skip_arrays(data@, p as int, c as nat, prefix as int, b)
                                == skip_arrays(data@, p2 as int, (c - 1) as nat, prefix as int, b));
                        }
                        p = p2;
                        c = c - 1;
                    },
                }
            }
            proof {
                assert(skip_arrays(data@, p as int, 0, prefix as int, b) == Some(p as int));
            }
            return Some(p);
        }
        return None;
    }
    let s: usize = if vtype == 0 || vtype == 1 || vtype == 7 {
        1
    } else if vtype == 2 || vtype == 3 {
        2
    } else if vtype == 4 || vtype == 5 || vtype == 6 {
        4
    } else if vtype == 10 || vtype == 11 || vtype == 12 {
        8
    } else {
        return None;
    };
    if dlen - pos < s {
        return None;
    }
    Some(pos + s)
}

/// Reads whether the value at `pos` declares the integer zero in an
/// alignment-bearing form.
fn zero_int_value_x(data: &Vec<u8>, pos: usize, vtype: u64) -> (r: bool)
    requires
        pos <= data@.len(),
    ensures
        r == zero_int_value(data@, pos as int, vtype as nat),
{
    let dlen: usize = data.len();
    let w: usize = if vtype == 0 || vtype == 1 {
        1
    } else if vtype == 2 || vtype == 3 {
        2
    } else if vtype == 4 || vtype == 5 {
        4
    } else {
        return false;
    };
    if dlen - pos < w {
        return false;
    }
    le_at(data, pos, w) == 0
}

/// Walks the metadata key-value pairs.
fn scan_kvs_x(data: &Vec<u8>, pos: usize, count: u64, prefix: usize) -> (r: Option<bool>)
    requires
        prefix == 4 || prefix == 8,
        pos <= data@.len(),
    ensures
        r == scan_kvs(data@, pos as int, count as nat, prefix as int, false),
{
    let dlen: usize = data.len();
    let mut p: usize = pos;
    let mut c: u64 = count;
    let mut flag: bool = false;
    while c > 0
        invariant
            prefix == 4 || prefix == 8,
            p <= data@.len(),
            dlen == data@.len(),
            scan_kvs(data@, pos as int, count as nat, prefix as int, false) == scan_kvs(
                data@,
                p as int,
                c as nat,
                prefix as int,
                flag,
            ),
        decreases c,
    {
        if dlen - p < prefix {
            proof {
                assert(scan_kvs(data@, p as int, c as nat, prefix as int, flag) is None);
            }
            return None;
        }
        let klen = le_at(data, p, prefix);
        let kstart = p + prefix;
        if (kstart as u128) + (klen as u128) > (dlen as u128) {
            proof {
                assert(scan_kvs(data@, p as int, c as nat, prefix as int, flag) is None);
            }
            return None;
        }
        let is_key = key_is_alignment(data, kstart, klen as usize);
        let tpos = kstart + (klen as usize);
        if dlen - tpos < 4 {
            proof {
                assert(scan_kvs(data@, p as int, c as nat, prefix as int, flag) is None);
            }
            return None;
        }
        let vtype = le_at(data, tpos, 4);
        let vpos = tpos + 4;
        let ghost old_flag = flag;
        if is_key {
            flag = zero_int_value_x(data, vpos, vtype);
        }
        match skip_value_x(data, vpos, vtype, prefix, 65) {
            None => {
                proof {
                    assert(scan_kvs(data@, p as int, c as nat, prefix as int, old_flag) is None);
                }
                return None;
            },
            Some(p2) => {
                proof {
                    assert(scan_kvs(data@, p as int, c as nat, prefix as int, old_flag)
                        == scan_kvs(data@, p2 as int, (c - 1) as nat, prefix as int, flag));
                }
                p = p2;
                c = c - 1;
            },
        }
    }
    Some(flag)
}

/// Decides whether the container bytes are safe to hand to the header
/// scanner: false exactly when the metadata section declares a zero
/// alignment or cannot be followed.
pub fn container_alignment_ok(data: &Vec<u8>) -> (r: bool)
    ensures
        r == alignment_guard_ok(data@),
{
    let dlen: usize = data.len();
    if dlen < 8 {
        return true;
    }
    let magic = le_at(data, 0, 4);
    let version = le_at(data, 4, 4);
    if !((magic == 0x46554747 || magic == 0x47475546) && (version == 1 || version == 2 || version
        == 3)) {
        return true;
    }
    let prefix: usize = if version == 1 {
        4
    } else {
        8
    };
    if dlen < 8 + 2 * prefix {
        return true;
    }
    let kv_count = le_at(data, 8 + prefix, prefix);
    match scan_kvs_x(data, 8 + 2 * prefix, kv_count, prefix) {
        None => false,
        Some(z) => !z,
    }
}

} // verus!
