//! The two parse failures a specifier can produce. Both are terminal for
//! the current invocation and carry the offending token.

use vstd::prelude::*;
use vstd::string::StringExecFns;

verus! {

/// Why a specifier failed to resolve.
#[derive(Clone, Debug, PartialEq, Eq)]
pub enum ParseError {
    /// The token matched no canonical binary name, even case-insensitively.
    InvalidBinaryName(String),
    /// Splitting on the chosen delimiter produced an unsupported number of
    /// parts (anything but one or two).
    InvalidSpecifierFormat(String),
}

impl ParseError {
    /// The human-readable message surfaced at the process boundary.
    pub open spec fn spec_message(&self) -> Seq<char> {
        match self {
            ParseError::InvalidBinaryName(t) => "Invalid binary name: "@ + t@
                + ". Use `suiup list` to find available binaries to install."@,
            ParseError::InvalidSpecifierFormat(_) =>
                "Invalid format. Use 'binary' or 'binary version'"@,
        }
    }

    /// Renders the error for the user.
    pub fn message(&self) -> (r: String)
        ensures
            r@ == self.spec_message(),
    {
        match self {
            ParseError::InvalidBinaryName(t) => "Invalid binary name: ".to_owned().concat(
                t.as_str(),
            ).concat(". Use `suiup list` to find available binaries to install."),
            ParseError::InvalidSpecifierFormat(_) => "Invalid format. Use 'binary' or 'binary version'".to_owned(),
        }
    }
}

} // verus!
