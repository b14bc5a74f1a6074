//! Data preparation for the installed-binaries table: one row per installed
//! artifact, sorted by binary name. Only the computation lives here; the
//! rendering of the table is left to the caller.

use vstd::multiset::Multiset;
use vstd::prelude::*;

verus! {

broadcast use vstd::seq_lib::group_to_multiset_ensures;

/// One row of the installed-binaries listing.
#[derive(Clone, Debug, PartialEq, Eq)]
pub struct BinaryVersion {
    pub binary_name: String,
    pub network_release: String,
    pub version: String,
    pub debug: bool,
}

/// Lexicographic order on strings by code point, the order `sort_by_key`
/// on a `String` key uses.
pub open spec fn lex_leq(a: Seq<char>, b: Seq<char>) -> bool
    decreases a.len(),
{
    if a.len() == 0 {
        true
    } else if b.len() == 0 {
        false
    } else if (a[0] as u32) < (b[0] as u32) {
        true
    } else if (a[0] as u32) > (b[0] as u32) {
        false
    } else {
        lex_leq(a.skip(1), b.skip(1))
    }
}

/// The order is total.
pub proof fn lemma_lex_leq_total(a: Seq<char>, b: Seq<char>)
    ensures
        lex_leq(a, b) || lex_leq(b, a),
    decreases a.len(),
{
    if a.len() == 0 {
    } else if b.len() == 0 {
    } else if (a[0] as u32) == (b[0] as u32) {
        lemma_lex_leq_total(a.skip(1), b.skip(1));
    }
}

/// The order is transitive.
pub proof fn lemma_lex_leq_trans(a: Seq<char>, b: Seq<char>, c: Seq<char>)
    requires
        lex_leq(a, b),
        lex_leq(b, c),
    ensures
        lex_leq(a, c),
    decreases a.len(),
{
    if a.len() == 0 {
    } else if b.len() == 0 {
    } else if c.len() == 0 {
    } else if (a[0] as u32) == (b[0] as u32) && (b[0] as u32) == (c[0] as u32) {
        lemma_lex_leq_trans(a.skip(1), b.skip(1), c.skip(1));
    }
}

/// Whether the rows are in order of binary name.
pub open spec fn sorted_by_name(s: Seq<BinaryVersion>) -> bool {
    forall|i: int, j: int|
        0 <= i < j < s.len() ==> lex_leq(
            #[trigger] s[i].binary_name@,
            #[trigger] s[j].binary_name@,
        )
}

fn str_lex_leq(a: &str, b: &str) -> (r: bool)
    ensures
        r == lex_leq(a@, b@),
{
    let an = a.unicode_len();
    let bn = b.unicode_len();
    let mut i: usize = 0;
    proof {
        assert(a@.skip(0) =~= a@);
        assert(b@.skip(0) =~= b@);
    }
    loop
        invariant
            i <= an,
            i <= bn,
            an == a@.len(),
            bn == b@.len(),
            lex_leq(a@, b@) == lex_leq(a@.skip(i as int), b@.skip(i as int)),
        decreases an - i,
    {
        if i == an {
            proof {
                assert(a@.skip(i as int).len() == 0);
            }
            return true;
        }
        if i == bn {
            proof {
                assert(b@.skip(i as int).len() == 0);
                assert(a@.skip(i as int).len() > 0);
            }
            return false;
        }
        let ac = a.get_char(i);
        let bc = b.get_char(i);
        proof {
            assert(a@.skip(i as int)[0] == a@[i as int]);
            assert(b@.skip(i as int)[0] == b@[i as int]);
        }
        if (ac as u32) < (bc as u32) {
            return true;
        }
        if (ac as u32) > (bc as u32) {
            return false;
        }
        proof {
            assert(a@.skip(i as int).skip(1) =~= a@.skip(i as int + 1));
            assert(b@.skip(i as int).skip(1) =~= b@.skip(i as int + 1));
        }
        i += 1;
    }
}

/// The rows reordered by binary name: the same rows (as a multiset), in
/// lexicographic order of the `binary_name` column.
pub fn sorted_by_binary_name(v: Vec<BinaryVersion>) -> (r: Vec<BinaryVersion>)
    ensures
        r@.to_multiset() == v@.to_multiset(),
        sorted_by_name(r@),
{
    let ghost orig = v@;
    let mut input = v;
    let mut out: Vec<BinaryVersion> = Vec::new();
    proof {
        assert(out@.to_multiset().add(input@.to_multiset()) =~= orig.to_multiset());
    }
    while input.len() > 0
        invariant
            out@.to_multiset().add(input@.to_multiset()) == orig.to_multiset(),
            sorted_by_name(out@),
        decreases input.len(),
    {
        let ghost old_input = input@;
        let ghost old_out = out@;
        let x = input.remove(0);
        let mut k: usize = 0;
        while k < out.len() && str_lex_leq(out[k].binary_name.as_str(), x.binary_name.as_str())
            invariant
                k <= out@.len(),
                sorted_by_name(out@),
                out@ == old_out,
                forall|j: int| 0 <= j < k ==> lex_leq(#[trigger] out@[j].binary_name@, x.binary_name@),
            decreases out@.len() - k,
        {
            k += 1;
        }
        proof {
            if (k as int) < out@.len() {
                lemma_lex_leq_total(out@[k as int].binary_name@, x.binary_name@);
            }
            assert forall|j: int| k <= j < out@.len() implies lex_leq(
                x.binary_name@,
                #[trigger] out@[j].binary_name@,
            ) by {
                if j != k {
                    lemma_lex_leq_trans(
                        x.binary_name@,
                        out@[k as int].binary_name@,
                        out@[j].binary_name@,
                    );
                }
            }
        }
        out.insert(k, x);
        proof {
            assert(old_out.insert(k as int, x).to_multiset() == old_out.to_multiset().insert(x));
            assert(old_input.remove(0).to_multiset() =~= old_input.to_multiset().remove(x));
            assert(old_input.to_multiset().count(x) > 0) by {
                assert(old_input[0] == x);
                assert(old_input.contains(x));
            }
            assert(out@.to_multiset().add(input@.to_multiset()) =~= orig.to_multiset());
            assert forall|i: int, j: int| 0 <= i < j < out@.len() implies lex_leq(
                #[trigger] out@[i].binary_name@,
                #[trigger] out@[j].binary_name@,
            ) by {
                old_out.insert_ensures(k as int, x);
            }
        }
    }
    proof {
        assert(input@.to_multiset() =~= Multiset::<BinaryVersion>::empty());
        assert(out@.to_multiset().add(Multiset::<BinaryVersion>::empty()) =~= out@.to_multiset());
    }
    out
}

/// The cell shown in the Debug column.
pub open spec fn spec_debug_cell(debug: bool) -> Seq<char> {
    if debug {
        "Yes"@
    } else {
        "No"@
    }
}

/// The four cells of one table row: binary, release/branch, version, debug.
pub fn row_cells(b: &BinaryVersion) -> (r: Vec<String>)
    ensures
        r@.len() == 4,
        r@[0]@ == b.binary_name@,
        r@[1]@ == b.network_release@,
        r@[2]@ == b.version@,
        r@[3]@ == spec_debug_cell(b.debug),
{
    let mut r: Vec<String> = Vec::new();
    r.push(b.binary_name.clone());
    r.push(b.network_release.clone());
    r.push(b.version.clone());
    if b.debug {
        r.push("Yes".to_owned());
    } else {
        r.push("No".to_owned());
    }
    r
}

} // verus!
