use vstd::prelude::*;

verus! {

use crate::byte_util::str_equal;

/// The stream filters that PDF defines.
#[derive(Debug, Clone, Copy, PartialEq, Eq, Structural)]
pub enum FilterType {
    /// zlib/deflate compression
    FlateDecode,
    /// Lempel-Ziv-Welch compression
    LZWDecode,
    /// base-85 text encoding
    ASCII85Decode,
    /// hexadecimal text encoding
    ASCIIHexDecode,
    /// run-length encoding
    RunLengthDecode,
    /// CCITT Group 3 and Group 4 fax encoding
    CCITTFaxDecode,
    /// JPEG compression
    DCTDecode,
    /// JPEG 2000 compression
    JPXDecode,
    /// JBIG2 compression
    JBIG2Decode,
    /// encryption, handled outside the filter pipeline
    Crypt,
}

/// The canonical PDF name of a filter.
pub open spec fn spec_filter_name(f: FilterType) -> Seq<char> {
    match f {
        FilterType::FlateDecode => "FlateDecode"@,
        FilterType::LZWDecode => "LZWDecode"@,
        FilterType::ASCII85Decode => "ASCII85Decode"@,
        FilterType::ASCIIHexDecode => "ASCIIHexDecode"@,
        FilterType::RunLengthDecode => "RunLengthDecode"@,
        FilterType::CCITTFaxDecode => "CCITTFaxDecode"@,
        FilterType::DCTDecode => "DCTDecode"@,
        FilterType::JPXDecode => "JPXDecode"@,
        FilterType::JBIG2Decode => "JBIG2Decode"@,
        FilterType::Crypt => "Crypt"@,
    }
}

/// The filter that a PDF name denotes: a canonical name, or one of the
/// standard abbreviations.
pub open spec fn spec_filter_from_name(s: Seq<char>) -> Option<FilterType> {
    if s == "FlateDecode"@ || s == "Fl"@ {
        Some(FilterType::FlateDecode)
    } else if s == "LZWDecode"@ || s == "LZW"@ {
        Some(FilterType::LZWDecode)
    } else if s == "ASCII85Decode"@ || s == "A85"@ {
        Some(FilterType::ASCII85Decode)
    } else if s == "ASCIIHexDecode"@ || s == "AHx"@ {
        Some(FilterType::ASCIIHexDecode)
    } else if s == "RunLengthDecode"@ || s == "RL"@ {
        Some(FilterType::RunLengthDecode)
    } else if s == "CCITTFaxDecode"@ || s == "CCF"@ {
        Some(FilterType::CCITTFaxDecode)
    } else if s == "DCTDecode"@ || s == "DCT"@ {
        Some(FilterType::DCTDecode)
    } else if s == "JPXDecode"@ {
        Some(FilterType::JPXDecode)
    } else if s == "JBIG2Decode"@ {
        Some(FilterType::JBIG2Decode)
    } else if s == "Crypt"@ {
        Some(FilterType::Crypt)
    } else {
        None
    }
}

impl FilterType {
    /// The filter that a PDF name denotes, or `None` for a name that denotes
    /// no filter.
    pub fn from_name(name: &str) -> (r: Option<FilterType>)
        ensures
            r == spec_filter_from_name(name@),
    {
        if str_equal(name, "FlateDecode") || str_equal(name, "Fl") {
            Some(FilterType::FlateDecode)
        } else if str_equal(name, "LZWDecode") || str_equal(name, "LZW") {
            Some(FilterType::LZWDecode)
        } else if str_equal(name, "ASCII85Decode") || str_equal(name, "A85") {
            Some(FilterType::ASCII85Decode)
        } else if str_equal(name, "ASCIIHexDecode") || str_equal(name, "AHx") {
            Some(FilterType::ASCIIHexDecode)
        } else if str_equal(name, "RunLengthDecode") || str_equal(name, "RL") {
            Some(FilterType::RunLengthDecode)
        } else if str_equal(name, "CCITTFaxDecode") || str_equal(name, "CCF") {
            Some(FilterType::CCITTFaxDecode)
        } else if str_equal(name, "DCTDecode") || str_equal(name, "DCT") {
            Some(FilterType::DCTDecode)
        } else if str_equal(name, "JPXDecode") {
            Some(FilterType::JPXDecode)
        } else if str_equal(name, "JBIG2Decode") {
            Some(FilterType::JBIG2Decode)
        } else if str_equal(name, "Crypt") {
            Some(FilterType::Crypt)
        } else {
            None
        }
    }

    /// The canonical PDF name of this filter.
    pub fn to_name(&self) -> (r: &'static str)
        ensures
            r@ == spec_filter_name(*self),
    {
        match self {
            FilterType::FlateDecode => "FlateDecode",
            FilterType::LZWDecode => "LZWDecode",
            FilterType::ASCII85Decode => "ASCII85Decode",
            FilterType::ASCIIHexDecode => "ASCIIHexDecode",
            FilterType::RunLengthDecode => "RunLengthDecode",
            FilterType::CCITTFaxDecode => "CCITTFaxDecode",
            FilterType::DCTDecode => "DCTDecode",
            FilterType::JPXDecode => "JPXDecode",
            FilterType::JBIG2Decode => "JBIG2Decode",
            FilterType::Crypt => "Crypt",
        }
    }
}

/// Every filter's canonical name maps back to that filter, and each standard
/// abbreviation maps to the same filter as the full name.
pub proof fn lemma_filter_names_bidirectional(f: FilterType)
    ensures
        spec_filter_from_name(spec_filter_name(f)) == Some(f),
        spec_filter_from_name("Fl"@) == spec_filter_from_name("FlateDecode"@),
        spec_filter_from_name("LZW"@) == spec_filter_from_name("LZWDecode"@),
        spec_filter_from_name("A85"@) == spec_filter_from_name("ASCII85Decode"@),
        spec_filter_from_name("AHx"@) == spec_filter_from_name("ASCIIHexDecode"@),
        spec_filter_from_name("RL"@) == spec_filter_from_name("RunLengthDecode"@),
        spec_filter_from_name("CCF"@) == spec_filter_from_name("CCITTFaxDecode"@),
        spec_filter_from_name("DCT"@) == spec_filter_from_name("DCTDecode"@),
{
    reveal_strlit("FlateDecode");
    reveal_strlit("Fl");
    reveal_strlit("LZWDecode");
    reveal_strlit("LZW");
    reveal_strlit("ASCII85Decode");
    reveal_strlit("A85");
    reveal_strlit("ASCIIHexDecode");
    reveal_strlit("AHx");
    reveal_strlit("RunLengthDecode");
    reveal_strlit("RL");
    reveal_strlit("CCITTFaxDecode");
    reveal_strlit("CCF");
    reveal_strlit("DCTDecode");
    reveal_strlit("DCT");
    reveal_strlit("JPXDecode");
    reveal_strlit("JBIG2Decode");
    reveal_strlit("Crypt");
    assert("FlateDecode"@.len() == 11 && "FlateDecode"@[0] == 'F' && "FlateDecode"@[1] == 'l');
    assert("Fl"@.len() == 2 && "Fl"@[0] == 'F' && "Fl"@[1] == 'l');
    assert("LZWDecode"@.len() == 9 && "LZWDecode"@[0] == 'L' && "LZWDecode"@[1] == 'Z');
    assert("LZW"@.len() == 3 && "LZW"@[0] == 'L' && "LZW"@[1] == 'Z');
    assert("ASCII85Decode"@.len() == 13 && "ASCII85Decode"@[0] == 'A' && "ASCII85Decode"@[1] == 'S');
    assert("A85"@.len() == 3 && "A85"@[0] == 'A' && "A85"@[1] == '8');
    assert("ASCIIHexDecode"@.len() == 14 && "ASCIIHexDecode"@[0] == 'A' && "ASCIIHexDecode"@[1] == 'S');
    assert("AHx"@.len() == 3 && "AHx"@[0] == 'A' && "AHx"@[1] == 'H');
    assert("RunLengthDecode"@.len() == 15 && "RunLengthDecode"@[0] == 'R' && "RunLengthDecode"@[1] == 'u');
    assert("RL"@.len() == 2 && "RL"@[0] == 'R' && "RL"@[1] == 'L');
    assert("CCITTFaxDecode"@.len() == 14 && "CCITTFaxDecode"@[0] == 'C' && "CCITTFaxDecode"@[1] == 'C');
    assert("CCF"@.len() == 3 && "CCF"@[0] == 'C' && "CCF"@[1] == 'C');
    assert("DCTDecode"@.len() == 9 && "DCTDecode"@[0] == 'D' && "DCTDecode"@[1] == 'C');
    assert("DCT"@.len() == 3 && "DCT"@[0] == 'D' && "DCT"@[1] == 'C');
    assert("JPXDecode"@.len() == 9 && "JPXDecode"@[0] == 'J' && "JPXDecode"@[1] == 'P');
    assert("JBIG2Decode"@.len() == 11 && "JBIG2Decode"@[0] == 'J' && "JBIG2Decode"@[1] == 'B');
    assert("Crypt"@.len() == 5 && "Crypt"@[0] == 'C' && "Crypt"@[1] == 'r');
}

} // verus!
