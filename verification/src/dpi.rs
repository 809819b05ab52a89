//! Normalising pixel densities against the least dense monitor.
//!
//! The least dense monitor is the reference: it is shown unscaled. Every
//! other monitor's slice of the picture is enlarged by the factor by which
//! its density exceeds the reference's.

use crate::error::DomainError;
use crate::monitor::{all_valid, Monitor};
use crate::ratio::{lemma_le_transitive, Ratio};
use vstd::prelude::*;

verus! {

/// The monitor at `r` is the reference of the list: no monitor is less dense,
/// and every monitor before it is denser.
pub open spec fn is_reference(monitors: Seq<Monitor>, r: int) -> bool {
    &&& 0 <= r < monitors.len()
    &&& forall|j: int|
        0 <= j < monitors.len() ==> monitors[r].spec_dpi().le(#[trigger] monitors[j].spec_dpi())
    &&& forall|j: int| 0 <= j < r ==> !(#[trigger] monitors[j].spec_dpi()).le(monitors[r].spec_dpi())
}

/// The quotient of a monitor's density by the reference's.
pub open spec fn factor_of(monitor: Monitor, reference: Monitor) -> Ratio {
    Ratio {
        num: (monitor.pixel_height * reference.physical_height) as u64,
        den: (monitor.physical_height * reference.pixel_height) as u64,
    }
}

/// The place of the reference monitor in a list that has one.
pub open spec fn reference_index(monitors: Seq<Monitor>) -> int {
    choose|r: int| is_reference(monitors, r)
}

/// The scaling factor of each monitor of a list, in order.
pub open spec fn scaling_factors(monitors: Seq<Monitor>) -> Seq<Ratio> {
    Seq::new(
        monitors.len(),
        |i: int| factor_of(monitors[i], monitors[reference_index(monitors)]),
    )
}

/// What normalising a list of monitors gives.
#[derive(Clone, Debug, PartialEq, Eq)]
pub struct Normalization {
    /// The place of the reference monitor in the list.
    pub reference: usize,
    /// The reference monitor's density.
    pub reference_dpi: Ratio,
    /// The scaling factor of each monitor, in the order of the list.
    pub factors: Vec<Ratio>,
}

impl Normalization {
    /// This is the normalisation of `monitors`.
    pub open spec fn describes(&self, monitors: Seq<Monitor>) -> bool {
        &&& is_reference(monitors, self.reference as int)
        &&& self.reference_dpi == monitors[self.reference as int].spec_dpi()
        &&& self.factors@ == scaling_factors(monitors)
    }
}

/// The product of two 32-bit numbers fits in 64 bits.
pub proof fn lemma_product_fits_u64(a: u32, b: u32)
    ensures
        0 <= a * b <= 0xffff_fffe_0000_0001,
        a > 0 && b > 0 ==> a * b > 0,
{
    assert(0 <= (a as int) * (b as int) <= 0xffff_ffff * 0xffff_ffff) by (nonlinear_arith)
        requires
            0 <= a as int <= 0xffff_ffff,
            0 <= b as int <= 0xffff_ffff,
    ;
    if a > 0 && b > 0 {
        assert((a as int) * (b as int) > 0) by (nonlinear_arith)
            requires
                a as int > 0,
                b as int > 0,
        ;
    }
}

/// A list has at most one reference.
pub proof fn lemma_reference_unique(monitors: Seq<Monitor>, r1: int, r2: int)
    requires
        is_reference(monitors, r1),
        is_reference(monitors, r2),
    ensures
        r1 == r2,
        reference_index(monitors) == r1,
{
    lemma_reference_order(monitors, r1, r2);
    lemma_reference_order(monitors, r1, reference_index(monitors));
}

proof fn lemma_reference_order(monitors: Seq<Monitor>, r1: int, r2: int)
    requires
        is_reference(monitors, r1),
        is_reference(monitors, r2),
    ensures
        r1 == r2,
{
    if r1 < r2 {
        assert(!monitors[r1].spec_dpi().le(monitors[r2].spec_dpi()));
    } else if r2 < r1 {
        assert(!monitors[r2].spec_dpi().le(monitors[r1].spec_dpi()));
    }
}

/// Two normalisations of the same monitors name the same reference, the same
/// density and the same factors.
pub proof fn lemma_normalization_determined(
    monitors: Seq<Monitor>,
    a: Normalization,
    b: Normalization,
)
    requires
        a.describes(monitors),
        b.describes(monitors),
    ensures
        a.reference == b.reference,
        a.reference_dpi == b.reference_dpi,
        a.factors@ == b.factors@,
{
    lemma_reference_unique(monitors, a.reference as int, b.reference as int);
}

/// Every scaling factor of a list of valid monitors is a number and at least
/// one, and the reference's own factor is exactly one.
pub proof fn lemma_factors_at_least_one(monitors: Seq<Monitor>, r: int, i: int)
    requires
        all_valid(monitors),
        is_reference(monitors, r),
        0 <= i < monitors.len(),
    ensures
        factor_of(monitors[i], monitors[r]).wf(),
        factor_of(monitors[i], monitors[r]).at_least_one(),
        factor_of(monitors[r], monitors[r]).is_one(),
        factor_of(monitors[i], monitors[r]).is_one() <==> monitors[i].spec_dpi().same_number(
            monitors[r].spec_dpi(),
        ),
{
    let m = monitors[i];
    let reference = monitors[r];
    assert(m.spec_valid());
    assert(reference.spec_valid());
    lemma_product_fits_u64(m.pixel_height, reference.physical_height);
    lemma_product_fits_u64(m.physical_height, reference.pixel_height);
    lemma_product_fits_u64(reference.pixel_height, reference.physical_height);
    lemma_product_fits_u64(reference.physical_height, reference.pixel_height);
    assert(reference.spec_dpi().le(m.spec_dpi()));
    assert(reference.pixel_height * m.physical_height == m.physical_height
        * reference.pixel_height) by (nonlinear_arith);
    assert(reference.pixel_height * reference.physical_height == reference.physical_height
        * reference.pixel_height) by (nonlinear_arith);
}

/// With a single valid monitor, that monitor is the reference and its factor
/// is exactly one.
pub proof fn lemma_single_monitor(monitors: Seq<Monitor>)
    requires
        monitors.len() == 1,
        all_valid(monitors),
    ensures
        is_reference(monitors, 0),
        factor_of(monitors[0], monitors[0]).is_one(),
{
    let m = monitors[0];
    assert(m.spec_valid());
    assert(m.pixel_height * m.physical_height == m.physical_height * m.pixel_height)
        by (nonlinear_arith);
    lemma_product_fits_u64(m.pixel_height, m.physical_height);
    lemma_product_fits_u64(m.physical_height, m.pixel_height);
}

/// Whether every monitor of the list has a resolution and a physical height.
pub fn check_monitors(monitors: &Vec<Monitor>) -> (valid: bool)
    ensures
        valid == all_valid(monitors@),
{
    let mut i: usize = 0;
    while i < monitors.len()
        invariant
            i <= monitors@.len(),
            forall|j: int| 0 <= j < i ==> (#[trigger] monitors@[j]).spec_valid(),
        decreases monitors@.len() - i,
    {
        if !monitors[i].is_valid() {
            return false;
        }
        i += 1;
    }
    true
}

/// Finds the reference monitor of a list of valid monitors.
pub fn reference_monitor(monitors: &Vec<Monitor>) -> (r: usize)
    requires
        monitors@.len() > 0,
        all_valid(monitors@),
    ensures
        is_reference(monitors@, r as int),
{
    let mut best: usize = 0;
    let mut i: usize = 1;
    while i < monitors.len()
        invariant
            monitors@.len() > 0,
            all_valid(monitors@),
            1 <= i <= monitors@.len(),
            best < i,
            forall|j: int|
                0 <= j < i ==> monitors@[best as int].spec_dpi().le(
                    #[trigger] monitors@[j].spec_dpi(),
                ),
            forall|j: int|
                0 <= j < best ==> !(#[trigger] monitors@[j].spec_dpi()).le(
                    monitors@[best as int].spec_dpi(),
                ),
        decreases monitors@.len() - i,
    {
        let here = monitors[i].dpi();
        let least = monitors[best].dpi();
        if !least.is_le(&here) {
            proof {
                let least_at = best as int;
                assert(monitors@[i as int].spec_valid());
                assert(monitors@[least_at].spec_valid());
                assert(here.le(least)) by (nonlinear_arith)
                    requires
                        !least.le(here),
                ;
                assert forall|j: int| 0 <= j < i + 1 implies here.le(
                    #[trigger] monitors@[j].spec_dpi(),
                ) by {
                    if j < i {
                        assert(monitors@[j].spec_valid());
                        lemma_le_transitive(here, least, monitors@[j].spec_dpi());
                    }
                }
                assert forall|j: int| 0 <= j < i implies !(#[trigger] monitors@[j].spec_dpi()).le(
                    here,
                ) by {
                    assert(monitors@[j].spec_valid());
                    lemma_le_transitive(here, least, monitors@[j].spec_dpi());
                }
            }
            best = i;
        }
        i += 1;
    }
    best
}

/// Normalises the densities of a list of monitors: finds the reference, the
/// first of the least dense monitors, and gives every monitor its density
/// divided by the reference's.
///
/// Fails with `EmptyMonitorSet` on an empty list, and else with
/// `InvalidMonitor` where a monitor has no physical height or no resolution.
pub fn normalize(monitors: &Vec<Monitor>) -> (out: Result<Normalization, DomainError>)
    ensures
        monitors@.len() == 0 ==> out == Err::<Normalization, DomainError>(
            DomainError::EmptyMonitorSet,
        ),
        monitors@.len() > 0 && !all_valid(monitors@) ==> out == Err::<Normalization, DomainError>(
            DomainError::InvalidMonitor,
        ),
        monitors@.len() > 0 && all_valid(monitors@) ==> out.is_ok(),
        out.is_ok() ==> out.unwrap().describes(monitors@),
        out.is_ok() ==> forall|i: int|
            0 <= i < monitors@.len() ==> (#[trigger] out.unwrap().factors@[i]).wf()
                && out.unwrap().factors@[i].at_least_one(),
        out.is_ok() ==> out.unwrap().factors@[out.unwrap().reference as int].is_one(),
{
    if monitors.len() == 0 {
        return Err(DomainError::EmptyMonitorSet);
    }
    if !check_monitors(monitors) {
        return Err(DomainError::InvalidMonitor);
    }
    let reference = reference_monitor(monitors);
    let base = &monitors[reference];
    let mut factors: Vec<Ratio> = Vec::new();
    let mut i: usize = 0;
    while i < monitors.len()
        invariant
            all_valid(monitors@),
            is_reference(monitors@, reference as int),
            *base == monitors@[reference as int],
            i <= monitors@.len(),
            factors@.len() == i,
            forall|j: int|
                0 <= j < i ==> #[trigger] factors@[j] == factor_of(
                    monitors@[j],
                    monitors@[reference as int],
                ),
        decreases monitors@.len() - i,
    {
        let m = &monitors[i];
        proof {
            lemma_product_fits_u64(m.pixel_height, base.physical_height);
            lemma_product_fits_u64(m.physical_height, base.pixel_height);
        }
        let factor = Ratio {
            num: (m.pixel_height as u64) * (base.physical_height as u64),
            den: (m.physical_height as u64) * (base.pixel_height as u64),
        };
        factors.push(factor);
        i += 1;
    }
    proof {
        assert forall|k: int| 0 <= k < monitors@.len() implies (#[trigger] factors@[k]).wf()
            && factors@[k].at_least_one() by {
            lemma_factors_at_least_one(monitors@, reference as int, k);
        }
        lemma_factors_at_least_one(monitors@, reference as int, reference as int);
        lemma_reference_unique(monitors@, reference as int, reference as int);
        assert(factors@ =~= scaling_factors(monitors@));
    }
    Ok(Normalization { reference, reference_dpi: base.dpi(), factors })
}

} // verus!
