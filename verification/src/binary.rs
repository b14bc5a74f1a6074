//! The closed set of installable binaries, each with a canonical lowercase
//! string form and a fixed upstream repository URL. Parsing a name is
//! case-insensitive; every string outside the canonical set is rejected.

use vstd::prelude::*;

use crate::errors::ParseError;

verus! {

/// One tag per installable binary; a pure value with no further state.
#[derive(Clone, Debug, PartialEq, Eq, Hash, Structural)]
pub enum BinaryName {
    Mvr,
    Sui,
    Walrus,
    WalrusSites,
}

/// ASCII lowercase of a single character; characters outside `'A'..='Z'`
/// are unchanged.
pub open spec fn lower_char(c: char) -> char {
    if c == 'A' {
        'a'
    } else if c == 'B' {
        'b'
    } else if c == 'C' {
        'c'
    } else if c == 'D' {
        'd'
    } else if c == 'E' {
        'e'
    } else if c == 'F' {
        'f'
    } else if c == 'G' {
        'g'
    } else if c == 'H' {
        'h'
    } else if c == 'I' {
        'i'
    } else if c == 'J' {
        'j'
    } else if c == 'K' {
        'k'
    } else if c == 'L' {
        'l'
    } else if c == 'M' {
        'm'
    } else if c == 'N' {
        'n'
    } else if c == 'O' {
        'o'
    } else if c == 'P' {
        'p'
    } else if c == 'Q' {
        'q'
    } else if c == 'R' {
        'r'
    } else if c == 'S' {
        's'
    } else if c == 'T' {
        't'
    } else if c == 'U' {
        'u'
    } else if c == 'V' {
        'v'
    } else if c == 'W' {
        'w'
    } else if c == 'X' {
        'x'
    } else if c == 'Y' {
        'y'
    } else if c == 'Z' {
        'z'
    } else {
        c
    }
}

/// Character-wise ASCII lowercase of a string.
pub open spec fn lower(s: Seq<char>) -> Seq<char> {
    s.map_values(|c: char| lower_char(c))
}

/// The one authoritative lowercase textual form of each binary name,
/// used for both parsing and display.
pub open spec fn canonical(b: BinaryName) -> Seq<char> {
    match b {
        BinaryName::Mvr => "mvr"@,
        BinaryName::Sui => "sui"@,
        BinaryName::Walrus => "walrus"@,
        BinaryName::WalrusSites => "site-builder"@,
    }
}

/// The upstream source repository of each binary.
pub open spec fn spec_repo_url(b: BinaryName) -> Seq<char> {
    match b {
        BinaryName::Mvr => "https://github.com/MystenLabs/mvr"@,
        BinaryName::Sui => "https://github.com/MystenLabs/sui"@,
        BinaryName::Walrus => "https://github.com/MystenLabs/walrus"@,
        BinaryName::WalrusSites => "https://github.com/MystenLabs/walrus-sites"@,
    }
}

/// Exact (case-sensitive) lookup of a binary name by its canonical string.
pub open spec fn binary_of_exact(s: Seq<char>) -> Option<BinaryName> {
    if s == "mvr"@ {
        Some(BinaryName::Mvr)
    } else if s == "sui"@ {
        Some(BinaryName::Sui)
    } else if s == "walrus"@ {
        Some(BinaryName::Walrus)
    } else if s == "site-builder"@ {
        Some(BinaryName::WalrusSites)
    } else {
        None
    }
}

/// Case-insensitive lookup of a binary name: the string is lowercased
/// character-wise, then matched exactly against the canonical set.
pub open spec fn binary_of(s: Seq<char>) -> Option<BinaryName> {
    binary_of_exact(lower(s))
}

fn to_lower_char(c: char) -> (r: char)
    ensures
        r == lower_char(c),
{
    match c {
        'A' => 'a',
        'B' => 'b',
        'C' => 'c',
        'D' => 'd',
        'E' => 'e',
        'F' => 'f',
        'G' => 'g',
        'H' => 'h',
        'I' => 'i',
        'J' => 'j',
        'K' => 'k',
        'L' => 'l',
        'M' => 'm',
        'N' => 'n',
        'O' => 'o',
        'P' => 'p',
        'Q' => 'q',
        'R' => 'r',
        'S' => 's',
        'T' => 't',
        'U' => 'u',
        'V' => 'v',
        'W' => 'w',
        'X' => 'x',
        'Y' => 'y',
        'Z' => 'z',
        _ => c,
    }
}

/// Whether the character-wise lowercase of `s` equals `lit`.
fn eq_lowered(s: &str, lit: &str) -> (r: bool)
    ensures
        r == (lower(s@) == lit@),
{
    let n = s.unicode_len();
    let m = lit.unicode_len();
    if n != m {
        proof {
            assert(lower(s@).len() != lit@.len());
        }
        return false;
    }
    let mut i: usize = 0;
    while i < n
        invariant
            0 <= i <= n,
            n == s@.len(),
            n == lit@.len(),
            forall|j: int| 0 <= j < i ==> lower_char(s@[j]) == lit@[j],
        decreases n - i,
    {
        let c = to_lower_char(s.get_char(i));
        let d = lit.get_char(i);
        if c != d {
            proof {
                assert(lower(s@)[i as int] != lit@[i as int]);
            }
            return false;
        }
        i += 1;
    }
    proof {
        assert(lower(s@) =~= lit@);
    }
    true
}

/// Whether two strings hold the same characters.
pub fn str_eq(a: &str, b: &str) -> (r: bool)
    ensures
        r == (a@ == b@),
{
    let n = a.unicode_len();
    let m = b.unicode_len();
    if n != m {
        return false;
    }
    let mut i: usize = 0;
    while i < n
        invariant
            0 <= i <= n,
            n == a@.len(),
            n == b@.len(),
            forall|j: int| 0 <= j < i ==> a@[j] == b@[j],
        decreases n - i,
    {
        if a.get_char(i) != b.get_char(i) {
            return false;
        }
        i += 1;
    }
    proof {
        assert(a@ =~= b@);
    }
    true
}

impl BinaryName {
    /// Resolves a user-supplied token to a binary name. With `ignore_case`
    /// the token is lowercased first; any token outside the canonical set
    /// fails with `InvalidBinaryName` carrying the token itself.
    pub fn from_str(s: &str, ignore_case: bool) -> (r: Result<BinaryName, ParseError>)
        ensures
            ({
                let looked = if ignore_case {
                    binary_of(s@)
                } else {
                    binary_of_exact(s@)
                };
                match looked {
                    Some(b) => r == Ok::<BinaryName, ParseError>(b),
                    None => r matches Err(e) && e matches ParseError::InvalidBinaryName(t) && t@
                        == s@,
                }
            }),
    {
        if ignore_case {
            if eq_lowered(s, "mvr") {
                Ok(BinaryName::Mvr)
            } else if eq_lowered(s, "sui") {
                Ok(BinaryName::Sui)
            } else if eq_lowered(s, "walrus") {
                Ok(BinaryName::Walrus)
            } else if eq_lowered(s, "site-builder") {
                Ok(BinaryName::WalrusSites)
            } else {
                Err(ParseError::InvalidBinaryName(s.to_owned()))
            }
        } else {
            if str_eq(s, "mvr") {
                Ok(BinaryName::Mvr)
            } else if str_eq(s, "sui") {
                Ok(BinaryName::Sui)
            } else if str_eq(s, "walrus") {
                Ok(BinaryName::Walrus)
            } else if str_eq(s, "site-builder") {
                Ok(BinaryName::WalrusSites)
            } else {
                Err(ParseError::InvalidBinaryName(s.to_owned()))
            }
        }
    }

    /// The canonical lowercase string of this binary name.
    pub fn to_str(&self) -> (r: &str)
        ensures
            r@ == canonical(*self),
    {
        match self {
            BinaryName::Mvr => "mvr",
            BinaryName::Sui => "sui",
            BinaryName::Walrus => "walrus",
            BinaryName::WalrusSites => "site-builder",
        }
    }

    /// The upstream source repository of this binary.
    pub fn repo_url(&self) -> (r: &str)
        ensures
            r@ == spec_repo_url(*self),
    {
        match self {
            BinaryName::Mvr => "https://github.com/MystenLabs/mvr",
            BinaryName::Sui => "https://github.com/MystenLabs/sui",
            BinaryName::Walrus => "https://github.com/MystenLabs/walrus",
            BinaryName::WalrusSites => "https://github.com/MystenLabs/walrus-sites",
        }
    }
}

/// The canonical strings are already lowercase: lowercasing them is a no-op.
pub proof fn lemma_canonical_is_lowercase(b: BinaryName)
    ensures
        lower(canonical(b)) == canonical(b),
{
    reveal_strlit("mvr");
    reveal_strlit("sui");
    reveal_strlit("walrus");
    reveal_strlit("site-builder");
    match b {
        BinaryName::Mvr => {
            assert(lower("mvr"@) =~= "mvr"@);
        },
        BinaryName::Sui => {
            assert(lower("sui"@) =~= "sui"@);
        },
        BinaryName::Walrus => {
            assert(lower("walrus"@) =~= "walrus"@);
        },
        BinaryName::WalrusSites => {
            assert(lower("site-builder"@) =~= "site-builder"@);
        },
    }
}

/// Law: parsing is the inverse of the canonical form, case-insensitively.
/// Any string whose character-wise lowercase equals the canonical string of
/// `b` — the canonical string itself, or any mixed-case spelling of it —
/// parses back to `b`.
pub proof fn lemma_parse_canonical_round_trip(b: BinaryName, s: Seq<char>)
    requires
        lower(s) == canonical(b),
    ensures
        binary_of(s) == Some(b),
        binary_of(canonical(b)) == Some(b),
{
    reveal_strlit("mvr");
    reveal_strlit("sui");
    reveal_strlit("walrus");
    reveal_strlit("site-builder");
    lemma_canonical_is_lowercase(b);
    assert("mvr"@[0] == 'm' && "sui"@[0] == 's');
    assert("walrus"@.len() == 6 && "site-builder"@.len() == 12);
    assert("mvr"@.len() == 3 && "sui"@.len() == 3);
}

} // verus!
