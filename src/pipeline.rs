use vstd::prelude::*;
use crate::material::{Material, MaterialView};
use crate::patch::{handle_lightmaps, needs_lightmap_fix, patched_material, spec_needs_lightmap_fix};
use crate::version::{format_at, format_in_priority, BinaryFormat, MVersion, FORMAT_COUNT};

verus! {

/// Position of a layout in the decoder's priority order.
pub open spec fn priority(f: BinaryFormat) -> int {
    match f {
        BinaryFormat::V1_21_110 => 0,
        BinaryFormat::V1_21_20 => 1,
        BinaryFormat::V1_20_80 => 2,
        BinaryFormat::V1_19_60 => 3,
        BinaryFormat::V1_18_30 => 4,
    }
}

pub proof fn lemma_priority_inverse(f: BinaryFormat, i: int)
    ensures
        0 <= priority(f) < FORMAT_COUNT,
        format_at(priority(f)) == f,
        0 <= i < FORMAT_COUNT ==> priority(format_at(i)) == i,
{
}

/// `r` is what the decoder owes for `parse`: the first layout in priority
/// order on which `parse` succeeded, with its result, every earlier layout
/// having failed; `None` when every layout failed.
pub open spec fn first_parse<T, F: Fn(BinaryFormat) -> Option<T>>(
    parse: F,
    r: Option<(BinaryFormat, T)>,
) -> bool {
    match r {
        Some((f, m)) => parse.ensures((f,), Some(m)) && forall|j: int|
            0 <= j < priority(f) ==> parse.ensures((format_at(j),), None::<T>),
        None => forall|j: int| 0 <= j < FORMAT_COUNT ==> parse.ensures((format_at(j),), None::<T>),
    }
}

/// `parse` gives one result per layout.
pub open spec fn deterministic<T, F: Fn(BinaryFormat) -> Option<T>>(parse: F) -> bool {
    forall|f: BinaryFormat, a: Option<T>, b: Option<T>|
        parse.ensures((f,), a) && parse.ensures((f,), b) ==> a == b
}

/// Decodes a material by trying every known layout in priority order with
/// `parse`; the first that succeeds wins and no later one is tried.
pub fn read_material<T, F: Fn(BinaryFormat) -> Option<T>>(parse: F) -> (r: Option<(BinaryFormat, T)>)
    requires
        forall|f: BinaryFormat| parse.requires((f,)),
    ensures
        first_parse(parse, r),
{
    let mut i: usize = 0;
    while i < FORMAT_COUNT
        invariant
            i <= FORMAT_COUNT,
            forall|f: BinaryFormat| parse.requires((f,)),
            forall|j: int| 0 <= j < i ==> parse.ensures((format_at(j),), None::<T>),
        decreases FORMAT_COUNT - i,
    {
        let f = format_in_priority(i);
        match parse(f) {
            Some(m) => {
                proof {
                    lemma_priority_inverse(f, i as int);
                }
                return Some((f, m));
            },
            None => {},
        }
        i = i + 1;
    }
    None
}

/// With a parser that gives one result per layout, the decoder's result is
/// fixed, and for a blob that two layouts accept it is the one earlier in
/// priority order.
pub proof fn lemma_decode_prefers_first<T, F: Fn(BinaryFormat) -> Option<T>>(
    parse: F,
    r1: Option<(BinaryFormat, T)>,
    r2: Option<(BinaryFormat, T)>,
    a: int,
    b: int,
    ma: T,
    mb: T,
)
    requires
        deterministic(parse),
        first_parse(parse, r1),
        first_parse(parse, r2),
        0 <= a < b < FORMAT_COUNT,
        parse.ensures((format_at(a),), Some(ma)),
        parse.ensures((format_at(b),), Some(mb)),
    ensures
        r1 == r2,
        r1 is Some,
        r1 matches Some((f, _)) && priority(f) <= a,
{
    lemma_priority_inverse(BinaryFormat::V1_18_30, a);
    match r1 {
        None => {
            assert(parse.ensures((format_at(a),), None::<T>));
            assert(false);
        },
        Some((f1, m1)) => {
            lemma_priority_inverse(f1, a);
            if priority(f1) > a {
                assert(parse.ensures((format_at(a),), None::<T>));
                assert(false);
            }
            match r2 {
                None => {
                    assert(parse.ensures((format_at(a),), None::<T>));
                    assert(false);
                },
                Some((f2, m2)) => {
                    lemma_priority_inverse(f2, a);
                    if priority(f1) < priority(f2) {
                        assert(parse.ensures((format_at(priority(f1)),), None::<T>));
                        assert(false);
                    } else if priority(f2) < priority(f1) {
                        assert(parse.ensures((format_at(priority(f2)),), None::<T>));
                        assert(false);
                    }
                    assert(f1 == f2);
                    assert(Some(m1) == Some(m2));
                },
            }
        },
    }
}

/// The material as it is written for `version`: patched where it needs the
/// lightmap fix, untouched otherwise.
pub open spec fn updated_material(m: MaterialView, version: MVersion) -> MaterialView {
    if spec_needs_lightmap_fix(m, version) {
        patched_material(m, version)
    } else {
        m
    }
}

/// Prepares a decoded material for writing at `version`: applies the
/// lightmap fix where the material and release call for it, and returns the layout to encode
/// with.
pub fn file_update(material: &mut Material, version: MVersion) -> (r: BinaryFormat)
    ensures
        r == version.binary_format(),
        final(material)@ == updated_material(old(material)@, version),
{
    if needs_lightmap_fix(material, version) {
        handle_lightmaps(material, version);
    }
    version.as_version()
}

/// A material that needs no lightmap fix (another name, or a release that
/// needs none) is handed to the encoder exactly as it was decoded.
pub proof fn lemma_unfixed_material_unchanged(m: MaterialView, version: MVersion)
    requires
        !spec_needs_lightmap_fix(m, version),
    ensures
        updated_material(m, version) == m,
{
}

} // verus!
