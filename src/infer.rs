use vstd::prelude::*;
use vstd::arithmetic::div_mod::{lemma_fundamental_div_mod, lemma_mod_multiples_basic};
use crate::gcd::{divides, gcd, lemma_divisor_le, lemma_gcd_divides, lemma_gcd_greatest, maybe_gcd};

verus! {

/// The space unit of a sequence of space runs: the left fold of `gcd`
/// starting from 0, so the empty sequence gives 0.
pub open spec fn gcd_all(s: Seq<u32>) -> nat
    decreases s.len(),
{
    if s.len() == 0 {
        0
    } else {
        gcd(gcd_all(s.drop_last()), s.last() as nat)
    }
}

/// The largest element of `s`, or 0 when `s` is empty.
pub open spec fn max_all(s: Seq<u32>) -> nat
    decreases s.len(),
{
    if s.len() == 0 {
        0
    } else if max_all(s.drop_last()) >= s.last() as nat {
        max_all(s.drop_last())
    } else {
        s.last() as nat
    }
}

/// The indent descriptor (tab width, space unit) inferred from whether tabs
/// were seen and from the recorded space runs, or `None` when the tab width
/// does not fit in a `u32`. A zero in either slot means "not applicable".
///
/// With tabs and spaces together the tab width is taken to be the largest
/// space run plus the space unit: a heuristic, kept as it is.
pub open spec fn detect_spec(tabs: bool, sp_counts: Seq<u32>, def_tab_width: u32) -> Option<(u32, u32)> {
    let unit = gcd_all(sp_counts);
    if !tabs {
        Some((0u32, unit as u32))
    } else if unit == 0 {
        Some((def_tab_width, 0u32))
    } else if max_all(sp_counts) + unit <= u32::MAX {
        Some(((max_all(sp_counts) + unit) as u32, unit as u32))
    } else {
        None
    }
}

pub open spec fn too_wide_message() -> Seq<char> {
    "Indentation too wide"@
}

proof fn lemma_max_all_bounds(s: Seq<u32>)
    ensures
        max_all(s) <= u32::MAX,
        forall|i: int| 0 <= i < s.len() ==> s[i] <= max_all(s),
    decreases s.len(),
{
    if s.len() > 0 {
        lemma_max_all_bounds(s.drop_last());
        assert forall|i: int| 0 <= i < s.len() implies s[i] <= max_all(s) by {
            if i < s.len() - 1 {
                assert(s[i] == s.drop_last()[i]);
            }
        }
    }
}

/// The space unit divides every space run, and every common divisor of the
/// space runs divides the space unit; of an empty sequence it is 0.
pub proof fn lemma_space_unit_is_gcd(s: Seq<u32>)
    ensures
        forall|i: int| 0 <= i < s.len() ==> divides(gcd_all(s), s[i] as nat),
        forall|d: nat|
            (forall|i: int| 0 <= i < s.len() ==> divides(d, #[trigger] s[i] as nat)) ==> {
                &&& #[trigger] divides(d, gcd_all(s))
                &&& gcd_all(s) > 0 ==> d <= gcd_all(s)
            },
        s.len() == 0 ==> gcd_all(s) == 0,
    decreases s.len(),
{
    if s.len() > 0 {
        let p = s.drop_last();
        let g = gcd_all(p);
        let x = s.last() as nat;
        lemma_space_unit_is_gcd(p);
        lemma_gcd_divides(g, x);
        assert forall|i: int| 0 <= i < s.len() implies divides(gcd_all(s), s[i] as nat) by {
            if i < s.len() - 1 {
                assert(s[i] == p[i]);
                lemma_divides_trans(gcd_all(s), g, s[i] as nat);
            }
        }
        assert forall|d: nat|
            (forall|i: int| 0 <= i < s.len() ==> divides(d, #[trigger] s[i] as nat)) implies {
                &&& #[trigger] divides(d, gcd_all(s))
                &&& gcd_all(s) > 0 ==> d <= gcd_all(s)
            } by {
            assert forall|i: int| 0 <= i < p.len() implies divides(d, #[trigger] p[i] as nat) by {
                assert(s[i] == p[i]);
            }
            assert(divides(d, s[s.len() - 1] as nat));
            lemma_gcd_greatest(g, x, d);
            if gcd_all(s) > 0 {
                lemma_divisor_le(d, gcd_all(s));
            }
        }
    }
}

proof fn lemma_divides_trans(a: nat, b: nat, c: nat)
    requires
        divides(a, b),
        divides(b, c),
    ensures
        divides(a, c),
{
    if a > 0 && b > 0 {
        lemma_fundamental_div_mod(b as int, a as int);
        lemma_fundamental_div_mod(c as int, b as int);
        let y = b as int / a as int;
        let z = c as int / b as int;
        assert(c as int == a * (y * z)) by (nonlinear_arith)
            requires
                b as int == a * y,
                c as int == b * z,
        ;
        assert(a * (y * z) == (y * z) * a) by (nonlinear_arith);
        lemma_mod_multiples_basic(y * z, a as int);
    }
}

/// Infers (tab width, space unit) from whether tabs were seen and from the
/// space runs. Fails only when the tab width would not fit in a `u32`.
pub fn detect_indent(tabs: bool, sp_counts: &[u32], def_tab_width: u32) -> (r: Result<(u32, u32), String>)
    ensures
        r is Ok <==> detect_spec(tabs, sp_counts@, def_tab_width) is Some,
        r matches Ok(p) ==> detect_spec(tabs, sp_counts@, def_tab_width) == Some(p),
        r matches Err(e) ==> e@ == too_wide_message(),
{
    let mut sp_unit: u32 = 0;
    let mut max_sp: u32 = 0;
    let mut i: usize = 0;
    while i < sp_counts.len()
        invariant
            i <= sp_counts@.len(),
            sp_unit as nat == gcd_all(sp_counts@.take(i as int)),
            max_sp as nat == max_all(sp_counts@.take(i as int)),
        decreases sp_counts@.len() - i,
    {
        let sp_count = sp_counts[i];
        proof {
            assert(sp_counts@.take(i + 1).drop_last() =~= sp_counts@.take(i as int));
        }
        sp_unit = maybe_gcd(sp_unit, sp_count);
        if sp_count > max_sp {
            max_sp = sp_count;
        }
        i = i + 1;
    }
    proof {
        assert(sp_counts@.take(i as int) =~= sp_counts@);
    }
    if tabs {
        if sp_unit == 0 {
            Ok((def_tab_width, 0))
        } else if (max_sp as u64) + (sp_unit as u64) <= u32::MAX as u64 {
            Ok((max_sp + sp_unit, sp_unit))
        } else {
            Err(String::from_str("Indentation too wide"))
        }
    } else {
        Ok((0, sp_unit))
    }
}

} // verus!
