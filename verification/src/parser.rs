//! The specifier grammar: one free-form token names a binary and,
//! optionally, a network and a version. A delimiter is chosen on the whole
//! input in strict priority order (`@`, then `==`, then `=`, then a single
//! space), the input is split on every occurrence of it, and the parts are
//! resolved into a [`CommandMetadata`].

use vstd::prelude::*;
use vstd::string::StrSliceExecFns;
use vstd::string::StringExecFns;

use crate::binary::{binary_of, str_eq, BinaryName};
use crate::errors::ParseError;

verus! {

/// A resolved installation target: which binary, on which network, and
/// optionally a pinned version. `network` is always populated (it defaults
/// to `testnet`); `version` is `None` exactly when the input did not pin a
/// concrete version, meaning "latest of that network".
#[derive(Clone, Debug, PartialEq, Eq, Hash)]
pub struct CommandMetadata {
    pub name: BinaryName,
    pub network: String,
    pub version: Option<String>,
}

/// Whether `s` holds two adjacent `=` characters.
pub open spec fn contains_double_eq(s: Seq<char>) -> bool {
    exists|i: int| 0 <= i && i + 1 < s.len() && #[trigger] s[i] == '=' && #[trigger] s[i + 1] == '='
}

/// The delimiter the grammar splits on, chosen on the whole input in strict
/// priority order: `@`, else `==`, else `=`, else a single space.
pub open spec fn spec_delimiter(s: Seq<char>) -> Seq<char> {
    if s.contains('@') {
        seq!['@']
    } else if contains_double_eq(s) {
        seq!['=', '=']
    } else if s.contains('=') {
        seq!['=']
    } else {
        seq![' ']
    }
}

/// Splitting `s` on every leftmost, non-overlapping occurrence of `d`;
/// adjacent occurrences yield empty parts, and a string without any
/// occurrence is one single part.
pub open spec fn spec_split(s: Seq<char>, d: Seq<char>) -> Seq<Seq<char>>
    decreases s.len(),
{
    if d.len() == 0 || s.len() < d.len() {
        seq![s]
    } else if s.take(d.len() as int) == d {
        seq![Seq::<char>::empty()] + spec_split(s.skip(d.len() as int), d)
    } else {
        let rest = spec_split(s.skip(1), d);
        seq![seq![s[0]] + rest[0]] + rest.skip(1)
    }
}

/// A split always yields at least one part.
pub proof fn lemma_spec_split_len(s: Seq<char>, d: Seq<char>)
    ensures
        spec_split(s, d).len() >= 1,
    decreases s.len(),
{
    if d.len() == 0 || s.len() < d.len() {
    } else if s.take(d.len() as int) == d {
        lemma_spec_split_len(s.skip(d.len() as int), d);
    } else {
        lemma_spec_split_len(s.skip(1), d);
    }
}

/// The parts of a specifier: the input split on its selected delimiter.
pub open spec fn spec_parts(s: Seq<char>) -> Seq<Seq<char>> {
    spec_split(s, spec_delimiter(s))
}

/// Whether `p` is a prefix of `s`.
pub open spec fn is_prefix_of(p: Seq<char>, s: Seq<char>) -> bool {
    p.len() <= s.len() && s.take(p.len() as int) == p
}

/// The network and optional version read from the part after the delimiter.
/// A missing part defaults to `testnet` with no pinned version; a recognized
/// network prefix (`testnet-`, `devnet-`, `mainnet-`) splits into network and
/// version; a bare network name pins no version; anything else is taken as a
/// version for `testnet`. This function is total: every string falls into
/// the final catch-all.
pub open spec fn spec_version_spec(spec: Option<Seq<char>>) -> (Seq<char>, Option<Seq<char>>) {
    match spec {
        None => ("testnet"@, None),
        Some(s) => {
            if is_prefix_of("testnet-"@, s) {
                ("testnet"@, Some(s.skip("testnet-"@.len() as int)))
            } else if is_prefix_of("devnet-"@, s) {
                ("devnet"@, Some(s.skip("devnet-"@.len() as int)))
            } else if is_prefix_of("mainnet-"@, s) {
                ("mainnet"@, Some(s.skip("mainnet-"@.len() as int)))
            } else if s == "testnet"@ || s == "devnet"@ || s == "mainnet"@ {
                (s, None)
            } else {
                ("testnet"@, Some(s))
            }
        },
    }
}

/// Whether `s` holds the character `c`.
fn contains_char(s: &str, c: char) -> (r: bool)
    ensures
        r == s@.contains(c),
{
    let n = s.unicode_len();
    let mut i: usize = 0;
    while i < n
        invariant
            0 <= i <= n,
            n == s@.len(),
            forall|j: int| 0 <= j < i ==> s@[j] != c,
        decreases n - i,
    {
        if s.get_char(i) == c {
            proof {
                assert(0 <= (i as int) && (i as int) < s@.len() && s@[i as int] == c);
            }
            return true;
        }
        i += 1;
    }
    false
}

/// Whether `s` holds two adjacent `=` characters.
fn contains_eq_eq(s: &str) -> (r: bool)
    ensures
        r == contains_double_eq(s@),
{
    let n = s.unicode_len();
    if n < 2 {
        return false;
    }
    let mut i: usize = 0;
    while i + 1 < n
        invariant
            n == s@.len(),
            n >= 2,
            0 <= i,
            i + 1 <= n,
            forall|j: int| 0 <= j < i ==> !(#[trigger] s@[j] == '=' && #[trigger] s@[j + 1] == '='),
        decreases n - i,
    {
        if s.get_char(i) == '=' && s.get_char(i + 1) == '=' {
            proof {
                assert(0 <= (i as int) && (i as int) + 1 < s@.len() && s@[i as int] == '=' && s@[
                    i as int + 1] == '=');
            }
            return true;
        }
        i += 1;
    }
    false
}

/// Whether `p` is a prefix of `s`.
fn has_prefix(s: &str, p: &str) -> (r: bool)
    ensures
        r == is_prefix_of(p@, s@),
{
    let n = s.unicode_len();
    let m = p.unicode_len();
    if m > n {
        return false;
    }
    let mut i: usize = 0;
    while i < m
        invariant
            0 <= i <= m,
            m <= n,
            n == s@.len(),
            m == p@.len(),
            forall|j: int| 0 <= j < i ==> s@[j] == p@[j],
        decreases m - i,
    {
        if s.get_char(i) != p.get_char(i) {
            proof {
                assert(s@.take(p@.len() as int)[i as int] != p@[i as int]);
            }
            return false;
        }
        i += 1;
    }
    proof {
        assert(s@.take(p@.len() as int) =~= p@);
    }
    true
}

/// The delimiter to split this input on, by the grammar's priority order.
fn pick_delimiter<'a>(s: &'a str) -> (d: &'a str)
    ensures
        d@ == spec_delimiter(s@),
        d@.len() >= 1,
{
    proof {
        reveal_strlit("@");
        reveal_strlit("==");
        reveal_strlit("=");
        reveal_strlit(" ");
    }
    if contains_char(s, '@') {
        let d = "@";
        proof {
            assert(d@ =~= seq!['@']);
        }
        d
    } else if contains_eq_eq(s) {
        let d = "==";
        proof {
            assert(d@ =~= seq!['=', '=']);
        }
        d
    } else if contains_char(s, '=') {
        let d = "=";
        proof {
            assert(d@ =~= seq!['=']);
        }
        d
    } else {
        let d = " ";
        proof {
            assert(d@ =~= seq![' ']);
        }
        d
    }
}

/// Splits `s` on every leftmost, non-overlapping occurrence of `d`.
fn split_str(s: &str, d: &str) -> (r: Vec<String>)
    requires
        d@.len() >= 1,
    ensures
        r@.len() == spec_split(s@, d@).len(),
        forall|i: int| 0 <= i < r@.len() ==> r@[i]@ == spec_split(s@, d@)[i],
    decreases s@.len(),
{
    let n = s.unicode_len();
    let dn = d.unicode_len();
    if n < dn {
        let mut v: Vec<String> = Vec::new();
        v.push(s.to_owned());
        proof {
            assert(spec_split(s@, d@) =~= seq![s@]);
        }
        v
    } else if has_prefix(s, d) {
        let rest = s.substring_char(dn, n);
        proof {
            assert(rest@ =~= s@.skip(dn as int));
        }
        let mut r = split_str(rest, d);
        r.insert(0, String::new());
        proof {
            let tail = spec_split(s@.skip(dn as int), d@);
            assert(spec_split(s@, d@) =~= seq![Seq::<char>::empty()] + tail);
        }
        r
    } else {
        let rest = s.substring_char(1, n);
        proof {
            assert(rest@ =~= s@.skip(1));
            lemma_spec_split_len(s@.skip(1), d@);
        }
        let mut r = split_str(rest, d);
        let head = r.remove(0);
        let first = s.substring_char(0, 1).to_owned().concat(head.as_str());
        proof {
            assert(s@.subrange(0, 1) =~= seq![s@[0]]);
        }
        r.insert(0, first);
        proof {
            let tail = spec_split(s@.skip(1), d@);
            assert(spec_split(s@, d@) =~= seq![seq![s@[0]] + tail[0]] + tail.skip(1));
        }
        r
    }
}

/// Reads the network and optional version out of a version part.
/// Never fails: every input falls into one of the grammar's branches.
pub fn parse_version_spec(spec: Option<String>) -> (r: Result<(String, Option<String>), ParseError>)
    ensures
        r is Ok,
        ({
            let nv = spec_version_spec(spec.deep_view());
            &&& r matches Ok(p)
            &&& p.0@ == nv.0
            &&& p.1.deep_view() == nv.1
        }),
{
    proof {
        reveal_strlit("testnet-");
        reveal_strlit("devnet-");
        reveal_strlit("mainnet-");
    }
    match spec {
        None => Ok(("testnet".to_owned(), None)),
        Some(s) => {
            let n = s.as_str().unicode_len();
            if has_prefix(s.as_str(), "testnet-") {
                let version = s.as_str().substring_char(8, n).to_owned();
                proof {
                    assert(s@.subrange(8, n as int) =~= s@.skip(8));
                }
                Ok(("testnet".to_owned(), Some(version)))
            } else if has_prefix(s.as_str(), "devnet-") {
                let version = s.as_str().substring_char(7, n).to_owned();
                proof {
                    assert(s@.subrange(7, n as int) =~= s@.skip(7));
                }
                Ok(("devnet".to_owned(), Some(version)))
            } else if has_prefix(s.as_str(), "mainnet-") {
                let version = s.as_str().substring_char(8, n).to_owned();
                proof {
                    assert(s@.subrange(8, n as int) =~= s@.skip(8));
                }
                Ok(("mainnet".to_owned(), Some(version)))
            } else if str_eq(s.as_str(), "testnet") || str_eq(s.as_str(), "devnet") || str_eq(
                s.as_str(),
                "mainnet",
            ) {
                Ok((s, None))
            } else {
                Ok(("testnet".to_owned(), Some(s)))
            }
        },
    }
}

/// Resolves one free-form specifier token into a [`CommandMetadata`].
/// The input is split on the delimiter of [`spec_delimiter`]; one part is a
/// bare binary name for the default network, two parts are a binary name and
/// a version part, and any other count fails with `InvalidSpecifierFormat`.
/// A first part outside the canonical binary names fails with
/// `InvalidBinaryName` carrying that part.
pub fn parse_component_with_version(s: &str) -> (r: Result<CommandMetadata, ParseError>)
    ensures
        ({
            let parts = spec_parts(s@);
            &&& r is Ok <==> ((parts.len() == 1 || parts.len() == 2) && binary_of(parts[0])
                is Some)
            &&& parts.len() == 1 ==> (match binary_of(parts[0]) {
                Some(b) => {
                    let nv = spec_version_spec(None);
                    &&& r matches Ok(m)
                    &&& m.name == b
                    &&& m.network@ == nv.0
                    &&& m.version.deep_view() == nv.1
                },
                None => r matches Err(e) && e matches ParseError::InvalidBinaryName(t) && t@
                    == parts[0],
            })
            &&& parts.len() == 2 ==> (match binary_of(parts[0]) {
                Some(b) => {
                    let nv = spec_version_spec(Some(parts[1]));
                    &&& r matches Ok(m)
                    &&& m.name == b
                    &&& m.network@ == nv.0
                    &&& m.version.deep_view() == nv.1
                },
                None => r matches Err(e) && e matches ParseError::InvalidBinaryName(t) && t@
                    == parts[0],
            })
            &&& parts.len() != 1 && parts.len() != 2 ==> (r matches Err(e) && e matches ParseError::InvalidSpecifierFormat(t)
                && t@ == s@)
        }),
{
    let delim = pick_delimiter(s);
    let parts = split_str(s, delim);
    if parts.len() == 1 {
        match BinaryName::from_str(parts[0].as_str(), true) {
            Ok(component) => match parse_version_spec(None) {
                Ok((network, version)) => Ok(
                    CommandMetadata { name: component, network, version },
                ),
                Err(e) => Err(e),
            },
            Err(e) => Err(e),
        }
    } else if parts.len() == 2 {
        match BinaryName::from_str(parts[0].as_str(), true) {
            Ok(component) => match parse_version_spec(Some(parts[1].clone())) {
                Ok((network, version)) => Ok(
                    CommandMetadata { name: component, network, version },
                ),
                Err(e) => Err(e),
            },
            Err(e) => Err(e),
        }
    } else {
        Err(ParseError::InvalidSpecifierFormat(s.to_owned()))
    }
}

} // verus!
