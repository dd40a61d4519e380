use vstd::prelude::*;

verus! {

/// A release that a material can be converted for, newest first.
#[derive(Clone, Copy, PartialEq, Eq, Debug, Structural)]
pub enum MVersion {
    V26_10_20,
    V1_21_110,
    V1_21_20,
    V1_20_80,
    V1_19_60,
    V1_18_30,
}

/// The on-disk layout of a material asset.
#[derive(Clone, Copy, PartialEq, Eq, Debug, Structural)]
pub enum BinaryFormat {
    V1_21_110,
    V1_21_20,
    V1_20_80,
    V1_19_60,
    V1_18_30,
}

/// Number of known binary layouts.
pub const FORMAT_COUNT: usize = 5;

/// The layouts in the order in which the decoder tries them.
pub open spec fn format_at(i: int) -> BinaryFormat {
    if i == 0 {
        BinaryFormat::V1_21_110
    } else if i == 1 {
        BinaryFormat::V1_21_20
    } else if i == 2 {
        BinaryFormat::V1_20_80
    } else if i == 3 {
        BinaryFormat::V1_19_60
    } else {
        BinaryFormat::V1_18_30
    }
}

/// The layout tried at position `i` of the decoder's priority order.
pub fn format_in_priority(i: usize) -> (r: BinaryFormat)
    requires
        i < FORMAT_COUNT,
    ensures
        r == format_at(i as int),
{
    if i == 0 {
        BinaryFormat::V1_21_110
    } else if i == 1 {
        BinaryFormat::V1_21_20
    } else if i == 2 {
        BinaryFormat::V1_20_80
    } else if i == 3 {
        BinaryFormat::V1_19_60
    } else {
        BinaryFormat::V1_18_30
    }
}

impl BinaryFormat {
    /// The release label of the layout, as used in derived file names.
    pub fn label(&self) -> (r: &'static str)
        ensures
            r@ == self.spec_label()@,
    {
        match self {
            BinaryFormat::V1_21_110 => "1.21.110",
            BinaryFormat::V1_21_20 => "1.21.20",
            BinaryFormat::V1_20_80 => "1.20.80",
            BinaryFormat::V1_19_60 => "1.19.60",
            BinaryFormat::V1_18_30 => "1.18.30",
        }
    }

    pub open spec fn spec_label(self) -> &'static str {
        match self {
            BinaryFormat::V1_21_110 => "1.21.110",
            BinaryFormat::V1_21_20 => "1.21.20",
            BinaryFormat::V1_20_80 => "1.20.80",
            BinaryFormat::V1_19_60 => "1.19.60",
            BinaryFormat::V1_18_30 => "1.18.30",
        }
    }
}

/// Which replacement a release needs in its vertex shaders.
#[derive(Clone, Copy, PartialEq, Eq, Debug, Structural)]
pub enum LightmapFix {
    /// UVs packed into the y component (the newest scheme).
    PackedY,
    /// UVs packed into the x component.
    PackedX,
}

impl MVersion {
    /// The binary layout that a release serializes to.
    pub open spec fn binary_format(self) -> BinaryFormat {
        match self {
            MVersion::V26_10_20 => BinaryFormat::V1_21_110,
            MVersion::V1_21_110 => BinaryFormat::V1_21_110,
            MVersion::V1_21_20 => BinaryFormat::V1_20_80,
            MVersion::V1_20_80 => BinaryFormat::V1_21_20,
            MVersion::V1_19_60 => BinaryFormat::V1_19_60,
            MVersion::V1_18_30 => BinaryFormat::V1_18_30,
        }
    }

    /// The lightmap fix that a release requires, if any.
    pub open spec fn spec_lightmap_fix(self) -> Option<LightmapFix> {
        match self {
            MVersion::V26_10_20 => Some(LightmapFix::PackedY),
            MVersion::V1_21_110 => Some(LightmapFix::PackedX),
            _ => None,
        }
    }

    pub fn as_version(&self) -> (r: BinaryFormat)
        ensures
            r == self.binary_format(),
    {
        match self {
            MVersion::V26_10_20 => BinaryFormat::V1_21_110,
            MVersion::V1_21_110 => BinaryFormat::V1_21_110,
            MVersion::V1_21_20 => BinaryFormat::V1_20_80,
            MVersion::V1_20_80 => BinaryFormat::V1_21_20,
            MVersion::V1_19_60 => BinaryFormat::V1_19_60,
            MVersion::V1_18_30 => BinaryFormat::V1_18_30,
        }
    }

    pub fn lightmap_fix(&self) -> (r: Option<LightmapFix>)
        ensures
            r == self.spec_lightmap_fix(),
    {
        match self {
            MVersion::V26_10_20 => Some(LightmapFix::PackedY),
            MVersion::V1_21_110 => Some(LightmapFix::PackedX),
            _ => None,
        }
    }

    /// The release used when the caller names none: the latest preview.
    pub fn latest_preview() -> (r: MVersion)
        ensures
            r == MVersion::V26_10_20,
    {
        MVersion::V26_10_20
    }
}

} // verus!
