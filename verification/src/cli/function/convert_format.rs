//! Conversion between JSON, YAML and TOML, row by row.

use vstd::prelude::*;
use crate::evm::abi::fullsig_abi_item_provider::same_bytes;

verus! {

/// Converts the text of each row from one format to another.
#[derive(Debug, Clone)]
pub struct ConvertFormatCommand {
    /// Where the rows are read from; empty for the standard input.
    pub input_file: String,
    /// Where the results are written; empty for the standard output.
    pub output_file: String,
}

/// A format of structured text.
#[derive(Debug, Clone, Copy, PartialEq, Eq, Structural)]
pub enum Format {
    Json,
    Yaml,
    Toml,
}

/// The upper-case form of an ASCII letter; any other byte as it is.
pub open spec fn upper(b: u8) -> u8 {
    if 97 <= b <= 122 {
        (b - 32) as u8
    } else {
        b
    }
}

/// A name with its ASCII letters in upper case.
pub open spec fn upper_name(name: Seq<u8>) -> Seq<u8> {
    Seq::new(name.len(), |i: int| upper(name[i]))
}

/// The format that a name stands for, whatever the case of its letters:
/// `JSON`, `YAML` or `TOML`.
pub open spec fn format_of(name: Seq<u8>) -> Option<Format> {
    if upper_name(name) == seq![74u8, 83u8, 79u8, 78u8] {
        Some(Format::Json)
    } else if upper_name(name) == seq![89u8, 65u8, 77u8, 76u8] {
        Some(Format::Yaml)
    } else if upper_name(name) == seq![84u8, 79u8, 77u8, 76u8] {
        Some(Format::Toml)
    } else {
        None
    }
}

/// The conversion that two names ask for: from one format to another one.
/// None where a name stands for no format, or both for the same.
pub open spec fn conversion_of(from: Seq<u8>, to: Seq<u8>) -> Option<(Format, Format)> {
    match (format_of(from), format_of(to)) {
        (Some(a), Some(b)) => if a == b {
            None
        } else {
            Some((a, b))
        },
        _ => None,
    }
}

impl ConvertFormatCommand {
    /// The format that a name stands for: see `format_of`.
    pub fn format(name: &[u8]) -> (r: Option<Format>)
        ensures
            r == format_of(name@),
    {
        let n: usize = name.len();
        let mut upper_case: Vec<u8> = Vec::new();
        let mut i: usize = 0;
        while i < n
            invariant
                0 <= i <= n,
                n == name@.len(),
                upper_case@.len() == i,
                forall|j: int| 0 <= j < i ==> upper_case@[j] == upper(name@[j]),
            decreases n - i,
        {
            let b: u8 = name[i];
            if 97 <= b && b <= 122 {
                upper_case.push(b - 32);
            } else {
                upper_case.push(b);
            }
            i = i + 1;
        }
        assert(upper_case@ =~= upper_name(name@));
        let json: [u8; 4] = [74, 83, 79, 78];
        let yaml: [u8; 4] = [89, 65, 77, 76];
        let toml: [u8; 4] = [84, 79, 77, 76];
        assert(json@ =~= seq![74u8, 83u8, 79u8, 78u8]);
        assert(yaml@ =~= seq![89u8, 65u8, 77u8, 76u8]);
        assert(toml@ =~= seq![84u8, 79u8, 77u8, 76u8]);
        if same_bytes(upper_case.as_slice(), vstd::array::array_as_slice(&json)) {
            Some(Format::Json)
        } else if same_bytes(upper_case.as_slice(), vstd::array::array_as_slice(&yaml)) {
            Some(Format::Yaml)
        } else if same_bytes(upper_case.as_slice(), vstd::array::array_as_slice(&toml)) {
            Some(Format::Toml)
        } else {
            None
        }
    }

    /// The conversion that a row asks for: see `conversion_of`. Without one,
    /// the row is invalid.
    pub fn conversion(from: &[u8], to: &[u8]) -> (r: Option<(Format, Format)>)
        ensures
            r == conversion_of(from@, to@),
    {
        match (ConvertFormatCommand::format(from), ConvertFormatCommand::format(to)) {
            (Some(a), Some(b)) => {
                if a == b {
                    None
                } else {
                    Some((a, b))
                }
            },
            _ => None,
        }
    }
}

} // verus!
