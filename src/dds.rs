use vstd::prelude::*;

verus! {

/// The little-endian 32-bit number stored at `at` in `b`.
pub open spec fn le_u32(b: Seq<u8>, at: int) -> nat {
    b[at] as nat + 256 * (b[at + 1] as nat) + 65536 * (b[at + 2] as nat) + 16777216 * (
    b[at + 3] as nat)
}

/// `n`, counting zero as one.
pub open spec fn at_least_one(n: nat) -> nat {
    if n == 0 {
        1
    } else {
        n
    }
}

/// The pixel format's four-character code is `DX10`, which announces the extended header
/// after the 128 bytes of magic number and header.
pub open spec fn has_dx10_header(b: Seq<u8>) -> bool {
    b.len() >= 148 && b[84] == 0x44 && b[85] == 0x58 && b[86] == 0x31 && b[87] == 0x30
}

/// The array size of the extended header, or one where there is none.
pub open spec fn array_size_of(b: Seq<u8>) -> nat {
    if has_dx10_header(b) {
        le_u32(b, 140)
    } else {
        1
    }
}

/// The height, depth and array size that a DDS file's headers declare (each counted as at
/// least one), times the six faces of a cube map, fit in 32 bits. A file too short for the
/// header holds no image at all and passes.
pub open spec fn dds_dimensions_bounded(b: Seq<u8>) -> bool {
    b.len() < 128 || at_least_one(le_u32(b, 12)) * at_least_one(le_u32(b, 24)) * at_least_one(
        array_size_of(b),
    ) * 6 <= 0xffff_ffff
}

/// The little-endian 32-bit number stored at `at`, counting zero as one.
fn field_at_least_one(b: &[u8], at: usize) -> (r: u64)
    requires
        at + 4 <= b@.len(),
    ensures
        r == at_least_one(le_u32(b@, at as int)),
        1 <= r <= 0xffff_ffff,
{
    let v = b[at] as u64 + 256 * (b[at + 1] as u64) + 65536 * (b[at + 2] as u64) + 16777216 * (
    b[at + 3] as u64);
    if v == 0 {
        1
    } else {
        v
    }
}

/// Whether the dimensions that the DDS file `b` declares are small enough for its image to
/// be decoded without overflow.
pub fn dimensions_bounded(b: &[u8]) -> (r: bool)
    ensures
        r == dds_dimensions_bounded(b@),
{
    if b.len() < 128 {
        return true;
    }
    let h = field_at_least_one(b, 12);
    let d = field_at_least_one(b, 24);
    let a: u64 = if b.len() >= 148 && b[84] == 0x44 && b[85] == 0x58 && b[86] == 0x31 && b[87]
        == 0x30 {
        field_at_least_one(b, 140)
    } else {
        1
    };
    assert(a == at_least_one(array_size_of(b@)));
    assert(h * d <= 0xffff_ffff * 0xffff_ffff) by (nonlinear_arith)
        requires
            h <= 0xffff_ffff,
            d <= 0xffff_ffff,
    ;
    let hd = h * d;
    if hd > 0xffff_ffff {
        assert(hd * a * 6 > 0xffff_ffff) by (nonlinear_arith)
            requires
                hd > 0xffff_ffff,
                a >= 1,
        ;
        return false;
    }
    assert(hd * a <= 0xffff_ffff * 0xffff_ffff) by (nonlinear_arith)
        requires
            hd <= 0xffff_ffff,
            a <= 0xffff_ffff,
    ;
    let hda = hd * a;
    if hda > 0xffff_ffff {
        return false;
    }
    hda * 6 <= 0xffff_ffff
}

} // verus!
