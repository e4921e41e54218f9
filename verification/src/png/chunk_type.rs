//! The chunk types this decoder recognises and their four-byte codes.

use vstd::prelude::*;
use vstd::string::*;

verus! {

/// The bytes `IHDR`, read as one big-endian number.
pub const PNG_CHUNK_TYPE_IHDR: u32 = 0x49484452;

/// The bytes `PLTE`, read as one big-endian number.
pub const PNG_CHUNK_TYPE_PLTE: u32 = 0x504C5445;

/// The bytes `IDAT`, read as one big-endian number.
pub const PNG_CHUNK_TYPE_IDAT: u32 = 0x49444154;

/// The bytes `IEND`, read as one big-endian number.
pub const PNG_CHUNK_TYPE_IEND: u32 = 0x49454E44;

/// The bytes `tRNS`, read as one big-endian number.
pub const PNG_CHUNK_TYPE_TRNS: u32 = 0x74524E53;

/// The bytes `cHRM`, read as one big-endian number.
pub const PNG_CHUNK_TYPE_CHRM: u32 = 0x6348524D;

/// The bytes `iCCP`, read as one big-endian number.
pub const PNG_CHUNK_TYPE_ICCP: u32 = 0x69434350;

/// The bytes `gAMA`, read as one big-endian number.
pub const PNG_CHUNK_TYPE_GAMA: u32 = 0x67414D41;

/// The bytes `sRGB`, read as one big-endian number.
pub const PNG_CHUNK_TYPE_SRGB: u32 = 0x73524742;

/// The bytes `sBIT`, read as one big-endian number.
pub const PNG_CHUNK_TYPE_SBIT: u32 = 0x73424954;

/// The bytes `tEXt`, read as one big-endian number.
pub const PNG_CHUNK_TYPE_TEXT: u32 = 0x74455874;

/// The bytes `zTXt`, read as one big-endian number.
pub const PNG_CHUNK_TYPE_ZTXT: u32 = 0x7A545874;

/// The bytes `iTXt`, read as one big-endian number.
pub const PNG_CHUNK_TYPE_ITXT: u32 = 0x69545874;

/// The bytes `bKGD`, read as one big-endian number.
pub const PNG_CHUNK_TYPE_BKGD: u32 = 0x624B4744;

/// The bytes `hIST`, read as one big-endian number.
pub const PNG_CHUNK_TYPE_HIST: u32 = 0x68495354;

/// The bytes `pHYs`, read as one big-endian number.
pub const PNG_CHUNK_TYPE_PHYS: u32 = 0x70485973;

/// The bytes `sPLT`, read as one big-endian number.
pub const PNG_CHUNK_TYPE_SPLT: u32 = 0x73504C54;

/// The bytes `tIME`, read as one big-endian number.
pub const PNG_CHUNK_TYPE_TIME: u32 = 0x74494D45;

/// A recognised chunk type.
#[derive(Debug, Clone, Copy, PartialEq, Eq, Structural)]
pub enum PNGChunkType {
    /// The image header.
    IHDR,
    /// The palette.
    PLTE,
    /// A piece of the compressed image data.
    IDAT,
    /// The end marker.
    IEND,
    /// Transparency.
    TRNS,
    /// Chromaticities.
    CHRM,
    /// Gamma.
    GAMA,
    /// An embedded colour profile.
    ICCP,
    /// The standard RGB colour space.
    SRGB,
    /// Significant bits.
    SBIT,
    /// Text.
    TEXT,
    /// Compressed text.
    ZTXT,
    /// International text.
    ITXT,
    /// The background colour.
    BKGD,
    /// The palette histogram.
    HIST,
    /// Physical pixel dimensions.
    PHYS,
    /// A suggested palette.
    SPLT,
    /// The time of the last change.
    TIME,
}

/// The chunk type with the given code, if the code is a recognised one.
pub open spec fn chunk_type_of(code: u32) -> Option<PNGChunkType> {
    if code == PNG_CHUNK_TYPE_IHDR {
        Some(PNGChunkType::IHDR)
    } else if code == PNG_CHUNK_TYPE_PLTE {
        Some(PNGChunkType::PLTE)
    } else if code == PNG_CHUNK_TYPE_IDAT {
        Some(PNGChunkType::IDAT)
    } else if code == PNG_CHUNK_TYPE_IEND {
        Some(PNGChunkType::IEND)
    } else if code == PNG_CHUNK_TYPE_TRNS {
        Some(PNGChunkType::TRNS)
    } else if code == PNG_CHUNK_TYPE_CHRM {
        Some(PNGChunkType::CHRM)
    } else if code == PNG_CHUNK_TYPE_GAMA {
        Some(PNGChunkType::GAMA)
    } else if code == PNG_CHUNK_TYPE_ICCP {
        Some(PNGChunkType::ICCP)
    } else if code == PNG_CHUNK_TYPE_SRGB {
        Some(PNGChunkType::SRGB)
    } else if code == PNG_CHUNK_TYPE_SBIT {
        Some(PNGChunkType::SBIT)
    } else if code == PNG_CHUNK_TYPE_TEXT {
        Some(PNGChunkType::TEXT)
    } else if code == PNG_CHUNK_TYPE_ZTXT {
        Some(PNGChunkType::ZTXT)
    } else if code == PNG_CHUNK_TYPE_ITXT {
        Some(PNGChunkType::ITXT)
    } else if code == PNG_CHUNK_TYPE_BKGD {
        Some(PNGChunkType::BKGD)
    } else if code == PNG_CHUNK_TYPE_HIST {
        Some(PNGChunkType::HIST)
    } else if code == PNG_CHUNK_TYPE_PHYS {
        Some(PNGChunkType::PHYS)
    } else if code == PNG_CHUNK_TYPE_SPLT {
        Some(PNGChunkType::SPLT)
    } else if code == PNG_CHUNK_TYPE_TIME {
        Some(PNGChunkType::TIME)
    } else {
        None
    }
}

impl PNGChunkType {
    /// The four-byte code of the chunk type, as one big-endian number.
    pub open spec fn code(self) -> u32 {
        match self {
            PNGChunkType::IHDR => PNG_CHUNK_TYPE_IHDR,
            PNGChunkType::PLTE => PNG_CHUNK_TYPE_PLTE,
            PNGChunkType::IDAT => PNG_CHUNK_TYPE_IDAT,
            PNGChunkType::IEND => PNG_CHUNK_TYPE_IEND,
            PNGChunkType::TRNS => PNG_CHUNK_TYPE_TRNS,
            PNGChunkType::CHRM => PNG_CHUNK_TYPE_CHRM,
            PNGChunkType::GAMA => PNG_CHUNK_TYPE_GAMA,
            PNGChunkType::ICCP => PNG_CHUNK_TYPE_ICCP,
            PNGChunkType::SRGB => PNG_CHUNK_TYPE_SRGB,
            PNGChunkType::SBIT => PNG_CHUNK_TYPE_SBIT,
            PNGChunkType::TEXT => PNG_CHUNK_TYPE_TEXT,
            PNGChunkType::ZTXT => PNG_CHUNK_TYPE_ZTXT,
            PNGChunkType::ITXT => PNG_CHUNK_TYPE_ITXT,
            PNGChunkType::BKGD => PNG_CHUNK_TYPE_BKGD,
            PNGChunkType::HIST => PNG_CHUNK_TYPE_HIST,
            PNGChunkType::PHYS => PNG_CHUNK_TYPE_PHYS,
            PNGChunkType::SPLT => PNG_CHUNK_TYPE_SPLT,
            PNGChunkType::TIME => PNG_CHUNK_TYPE_TIME,
        }
    }

    /// The name of the chunk type, in capitals.
    pub open spec fn name(self) -> Seq<char> {
        match self {
            PNGChunkType::IHDR => "IHDR"@,
            PNGChunkType::PLTE => "PLTE"@,
            PNGChunkType::IDAT => "IDAT"@,
            PNGChunkType::IEND => "IEND"@,
            PNGChunkType::TRNS => "TRNS"@,
            PNGChunkType::CHRM => "CHRM"@,
            PNGChunkType::GAMA => "GAMA"@,
            PNGChunkType::ICCP => "ICCP"@,
            PNGChunkType::SRGB => "SRGB"@,
            PNGChunkType::SBIT => "SBIT"@,
            PNGChunkType::TEXT => "TEXT"@,
            PNGChunkType::ZTXT => "ZTXT"@,
            PNGChunkType::ITXT => "ITXT"@,
            PNGChunkType::BKGD => "BKGD"@,
            PNGChunkType::HIST => "HIST"@,
            PNGChunkType::PHYS => "PHYS"@,
            PNGChunkType::SPLT => "SPLT"@,
            PNGChunkType::TIME => "TIME"@,
        }
    }

    /// The code of the chunk type.
    pub fn value(&self) -> (code: Option<u32>)
        ensures
            code == Some(self.code()),
            chunk_type_of(self.code()) == Some(*self),
    {
        match self {
            Self::IHDR => Some(PNG_CHUNK_TYPE_IHDR),
            Self::PLTE => Some(PNG_CHUNK_TYPE_PLTE),
            Self::IDAT => Some(PNG_CHUNK_TYPE_IDAT),
            Self::IEND => Some(PNG_CHUNK_TYPE_IEND),
            Self::TRNS => Some(PNG_CHUNK_TYPE_TRNS),
            Self::CHRM => Some(PNG_CHUNK_TYPE_CHRM),
            Self::GAMA => Some(PNG_CHUNK_TYPE_GAMA),
            Self::ICCP => Some(PNG_CHUNK_TYPE_ICCP),
            Self::SRGB => Some(PNG_CHUNK_TYPE_SRGB),
            Self::SBIT => Some(PNG_CHUNK_TYPE_SBIT),
            Self::TEXT => Some(PNG_CHUNK_TYPE_TEXT),
            Self::ZTXT => Some(PNG_CHUNK_TYPE_ZTXT),
            Self::ITXT => Some(PNG_CHUNK_TYPE_ITXT),
            Self::BKGD => Some(PNG_CHUNK_TYPE_BKGD),
            Self::HIST => Some(PNG_CHUNK_TYPE_HIST),
            Self::PHYS => Some(PNG_CHUNK_TYPE_PHYS),
            Self::SPLT => Some(PNG_CHUNK_TYPE_SPLT),
            Self::TIME => Some(PNG_CHUNK_TYPE_TIME),
        }
    }

    /// The chunk type with the given code; `None` for a code that is not recognised.
    pub fn from_u32(value: u32) -> (kind: Option<PNGChunkType>)
        ensures
            kind == chunk_type_of(value),
            kind matches Some(k) ==> k.code() == value,
            kind is None ==> forall|k: PNGChunkType| k.code() != value,
    {
        match value {
            PNG_CHUNK_TYPE_IHDR => Some(PNGChunkType::IHDR),
            PNG_CHUNK_TYPE_PLTE => Some(PNGChunkType::PLTE),
            PNG_CHUNK_TYPE_IDAT => Some(PNGChunkType::IDAT),
            PNG_CHUNK_TYPE_IEND => Some(PNGChunkType::IEND),
            PNG_CHUNK_TYPE_TRNS => Some(PNGChunkType::TRNS),
            PNG_CHUNK_TYPE_CHRM => Some(PNGChunkType::CHRM),
            PNG_CHUNK_TYPE_GAMA => Some(PNGChunkType::GAMA),
            PNG_CHUNK_TYPE_ICCP => Some(PNGChunkType::ICCP),
            PNG_CHUNK_TYPE_SRGB => Some(PNGChunkType::SRGB),
            PNG_CHUNK_TYPE_SBIT => Some(PNGChunkType::SBIT),
            PNG_CHUNK_TYPE_TEXT => Some(PNGChunkType::TEXT),
            PNG_CHUNK_TYPE_ZTXT => Some(PNGChunkType::ZTXT),
            PNG_CHUNK_TYPE_ITXT => Some(PNGChunkType::ITXT),
            PNG_CHUNK_TYPE_BKGD => Some(PNGChunkType::BKGD),
            PNG_CHUNK_TYPE_HIST => Some(PNGChunkType::HIST),
            PNG_CHUNK_TYPE_PHYS => Some(PNGChunkType::PHYS),
            PNG_CHUNK_TYPE_SPLT => Some(PNGChunkType::SPLT),
            PNG_CHUNK_TYPE_TIME => Some(PNGChunkType::TIME),
            _ => None,
        }
    }

    /// The name of the chunk type, in capitals.
    pub fn string(&self) -> (name: String)
        ensures
            name@ == self.name(),
    {
        match self {
            Self::IHDR => String::from_str("IHDR"),
            Self::PLTE => String::from_str("PLTE"),
            Self::IDAT => String::from_str("IDAT"),
            Self::IEND => String::from_str("IEND"),
            Self::TRNS => String::from_str("TRNS"),
            Self::CHRM => String::from_str("CHRM"),
            Self::GAMA => String::from_str("GAMA"),
            Self::ICCP => String::from_str("ICCP"),
            Self::SRGB => String::from_str("SRGB"),
            Self::SBIT => String::from_str("SBIT"),
            Self::TEXT => String::from_str("TEXT"),
            Self::ZTXT => String::from_str("ZTXT"),
            Self::ITXT => String::from_str("ITXT"),
            Self::BKGD => String::from_str("BKGD"),
            Self::HIST => String::from_str("HIST"),
            Self::PHYS => String::from_str("PHYS"),
            Self::SPLT => String::from_str("SPLT"),
            Self::TIME => String::from_str("TIME"),
        }
    }
}

} // verus!
