use vstd::prelude::*;

use crate::error::TzifError;

verus! {

/// The TZif format version named in a header.
#[derive(Clone, Copy, Debug, PartialEq, Eq, Structural, PartialOrd, Ord)]
pub enum Version {
    V1,
    V2,
    V3,
    V4,
}

impl Version {
    /// The header byte that names this version.
    pub open spec fn spec_byte(self) -> u8 {
        match self {
            Version::V1 => 0u8,
            Version::V2 => 0x32u8,
            Version::V3 => 0x33u8,
            Version::V4 => 0x34u8,
        }
    }

    /// The position of this version in the order V1 < V2 < V3 < V4.
    pub open spec fn rank(self) -> int {
        match self {
            Version::V1 => 1,
            Version::V2 => 2,
            Version::V3 => 3,
            Version::V4 => 4,
        }
    }

    /// The version named by a header byte, if any.
    pub open spec fn spec_from_byte(byte: u8) -> Option<Version> {
        if byte == 0 {
            Some(Version::V1)
        } else if byte == 0x32 {
            Some(Version::V2)
        } else if byte == 0x33 {
            Some(Version::V3)
        } else if byte == 0x34 {
            Some(Version::V4)
        } else {
            None
        }
    }

    pub(crate) fn from_byte(byte: u8) -> (res: Result<Version, TzifError>)
        ensures
            res == (match Version::spec_from_byte(byte) {
                Some(v) => Ok(v),
                None => Err(TzifError::InvalidVersion(byte)),
            }),
    {
        match byte {
            0 => Ok(Version::V1),
            0x32 => Ok(Version::V2),
            0x33 => Ok(Version::V3),
            0x34 => Ok(Version::V4),
            _ => Err(TzifError::InvalidVersion(byte)),
        }
    }

    pub(crate) fn byte(self) -> (b: u8)
        ensures
            b == self.spec_byte(),
    {
        match self {
            Version::V1 => 0,
            Version::V2 => 0x32,
            Version::V3 => 0x33,
            Version::V4 => 0x34,
        }
    }

    pub(crate) fn is_v2_plus(self) -> (b: bool)
        ensures
            b == (self != Version::V1),
    {
        !matches!(self, Version::V1)
    }

    pub(crate) fn at_least_v3(self) -> (b: bool)
        ensures
            b == (self.rank() >= 3),
    {
        matches!(self, Version::V3 | Version::V4)
    }
}

/// A whole TZif file: header version, the version 1 block, and for version 2 and
/// later the 64-bit block and the footer string.
#[derive(Clone, Debug, PartialEq, Eq)]
pub struct TzifFile {
    pub version: Version,
    pub v1: DataBlock,
    pub v2_plus: Option<DataBlock>,
    pub footer: Option<String>,
}

/// One data block of a TZif file, field for field as it is laid out on the wire.
#[derive(Clone, Debug, PartialEq, Eq)]
pub struct DataBlock {
    pub transition_times: Vec<i64>,
    pub transition_types: Vec<u8>,
    pub local_time_types: Vec<LocalTimeType>,
    pub designations: Vec<u8>,
    pub leap_seconds: Vec<LeapSecond>,
    pub standard_wall_indicators: Vec<bool>,
    pub ut_local_indicators: Vec<bool>,
}

/// A local time type record (`ttinfo`).
#[derive(Clone, Copy, Debug, PartialEq, Eq, Structural)]
pub struct LocalTimeType {
    pub utc_offset: i32,
    pub is_dst: bool,
    pub designation_index: u8,
}

/// A leap-second record.
#[derive(Clone, Copy, Debug, PartialEq, Eq, Structural)]
pub struct LeapSecond {
    pub occurrence: i64,
    pub correction: i32,
}

/// The contents of a data block.
#[verifier::ext_equal]
pub struct BlockView {
    pub transition_times: Seq<i64>,
    pub transition_types: Seq<u8>,
    pub local_time_types: Seq<LocalTimeType>,
    pub designations: Seq<u8>,
    pub leap_seconds: Seq<LeapSecond>,
    pub standard_wall_indicators: Seq<bool>,
    pub ut_local_indicators: Seq<bool>,
}

impl View for DataBlock {
    type V = BlockView;

    open spec fn view(&self) -> BlockView {
        BlockView {
            transition_times: self.transition_times@,
            transition_types: self.transition_types@,
            local_time_types: self.local_time_types@,
            designations: self.designations@,
            leap_seconds: self.leap_seconds@,
            standard_wall_indicators: self.standard_wall_indicators@,
            ut_local_indicators: self.ut_local_indicators@,
        }
    }
}

/// The contents of a file: its version, blocks and footer characters.
#[verifier::ext_equal]
pub struct FileView {
    pub version: Version,
    pub v1: BlockView,
    pub v2_plus: Option<BlockView>,
    pub footer: Option<Seq<char>>,
}

impl View for TzifFile {
    type V = FileView;

    open spec fn view(&self) -> FileView {
        FileView {
            version: self.version,
            v1: self.v1@,
            v2_plus: match self.v2_plus {
                Some(b) => Some(b@),
                None => None,
            },
            footer: match self.footer {
                Some(s) => Some(s@),
                None => None,
            },
        }
    }
}

impl TzifFile {
    /// A version 1 file holding `block`.
    pub fn v1(block: DataBlock) -> (f: TzifFile)
        ensures
            f == (TzifFile { version: Version::V1, v1: block, v2_plus: None, footer: None }),
    {
        TzifFile { version: Version::V1, v1: block, v2_plus: None, footer: None }
    }

    /// A version 2 file.
    pub fn v2(v1: DataBlock, v2: DataBlock, footer: &str) -> (f: TzifFile)
        ensures
            f.version == Version::V2,
            f.v1 == v1,
            f.v2_plus == Some(v2),
            f.footer matches Some(s) && s@ == footer@,
    {
        Self::v2_plus(Version::V2, v1, v2, footer)
    }

    /// A version 3 file.
    pub fn v3(v1: DataBlock, v3: DataBlock, footer: &str) -> (f: TzifFile)
        ensures
            f.version == Version::V3,
            f.v1 == v1,
            f.v2_plus == Some(v3),
            f.footer matches Some(s) && s@ == footer@,
    {
        Self::v2_plus(Version::V3, v1, v3, footer)
    }

    /// A version 4 file.
    pub fn v4(v1: DataBlock, v4: DataBlock, footer: &str) -> (f: TzifFile)
        ensures
            f.version == Version::V4,
            f.v1 == v1,
            f.v2_plus == Some(v4),
            f.footer matches Some(s) && s@ == footer@,
    {
        Self::v2_plus(Version::V4, v1, v4, footer)
    }

    fn v2_plus(version: Version, v1: DataBlock, block: DataBlock, footer: &str) -> (f: TzifFile)
        ensures
            f.version == version,
            f.v1 == v1,
            f.v2_plus == Some(block),
            f.footer matches Some(s) && s@ == footer@,
    {
        TzifFile { version, v1, v2_plus: Some(block), footer: Some(footer.to_owned()) }
    }
}

impl DataBlock {
    /// A block with the given local time types and designation table and nothing else.
    pub fn new(local_time_types: Vec<LocalTimeType>, designations: Vec<u8>) -> (b: DataBlock)
        ensures
            b.local_time_types == local_time_types,
            b.designations == designations,
            b.transition_times@.len() == 0,
            b.transition_types@.len() == 0,
            b.leap_seconds@.len() == 0,
            b.standard_wall_indicators@.len() == 0,
            b.ut_local_indicators@.len() == 0,
    {
        DataBlock {
            transition_times: Vec::new(),
            transition_types: Vec::new(),
            local_time_types,
            designations,
            leap_seconds: Vec::new(),
            standard_wall_indicators: Vec::new(),
            ut_local_indicators: Vec::new(),
        }
    }

    /// The minimal block: one UTC local time type whose designation is the empty
    /// string, as RFC 9636 uses for a version 1 block that readers should ignore.
    pub fn placeholder() -> (b: DataBlock)
        ensures
            b.is_placeholder_shape(),
            b.local_time_types@ == seq![LocalTimeType { utc_offset: 0, is_dst: false, designation_index: 0 }],
            b.designations@ == seq![0u8],
    {
        let mut types: Vec<LocalTimeType> = Vec::new();
        types.push(LocalTimeType { utc_offset: 0, is_dst: false, designation_index: 0 });
        let mut designations: Vec<u8> = Vec::new();
        designations.push(0);
        DataBlock::new(types, designations)
    }

    /// Holds of the block that [`DataBlock::placeholder`] returns.
    pub open spec fn is_placeholder_shape(&self) -> bool {
        &&& self.transition_times@.len() == 0
        &&& self.transition_types@.len() == 0
        &&& self.local_time_types@ == seq![LocalTimeType { utc_offset: 0, is_dst: false, designation_index: 0 }]
        &&& self.designations@ == seq![0u8]
        &&& self.leap_seconds@.len() == 0
        &&& self.standard_wall_indicators@.len() == 0
        &&& self.ut_local_indicators@.len() == 0
    }
}

impl Default for DataBlock {
    fn default() -> (b: DataBlock)
        ensures
            b.transition_times@.len() == 0,
            b.transition_types@.len() == 0,
            b.local_time_types@.len() == 0,
            b.designations@.len() == 0,
            b.leap_seconds@.len() == 0,
            b.standard_wall_indicators@.len() == 0,
            b.ut_local_indicators@.len() == 0,
    {
        DataBlock::new(Vec::new(), Vec::new())
    }
}

} // verus!
