//! Queue families: which family index serves graphics commands and which one
//! can present to the window surface.
use vstd::prelude::*;
use crate::vulkan::{has_graphics_bit, queue_flags_contain_graphics};

verus! {

/// The queue family indices chosen for a physical device. Support for
/// drawing commands and for presentation may or may not be in one family.
#[derive(Clone, Copy, Debug, PartialEq, Eq)]
pub struct QueueFamilyIndices {
    /// Family that supports graphics commands.
    pub graphics_family: Option<u32>,
    /// Family that can present to the surface.
    pub present_family: Option<u32>,
}

impl QueueFamilyIndices {
    /// Both families have been found.
    pub open spec fn complete(self) -> bool {
        self.graphics_family is Some && self.present_family is Some
    }

    pub fn is_complete(&self) -> (r: bool)
        ensures
            r == self.complete(),
    {
        self.graphics_family.is_some() && self.present_family.is_some()
    }
}

/// What the driver reports about one queue family of a physical device.
#[derive(Clone, Copy, Debug, PartialEq, Eq)]
pub struct QueueFamily {
    /// Raw `VkQueueFlags` of the family.
    pub queue_flags: u32,
    /// Whether the family can present to the window surface.
    pub present_support: bool,
}

impl Default for QueueFamilyIndices {
    fn default() -> (r: Self)
        ensures
            r.graphics_family is None,
            r.present_family is None,
    {
        QueueFamilyIndices { graphics_family: None, present_family: None }
    }
}

/// The indices after looking at family `index`: a family with the graphics
/// bit becomes the graphics family, one with present support the present
/// family; a later such family replaces an earlier one.
pub open spec fn record_family(
    indices: QueueFamilyIndices,
    index: int,
    family: QueueFamily,
) -> QueueFamilyIndices {
    QueueFamilyIndices {
        graphics_family: if has_graphics_bit(family.queue_flags) {
            Some(index as u32)
        } else {
            indices.graphics_family
        },
        present_family: if family.present_support {
            Some(index as u32)
        } else {
            indices.present_family
        },
    }
}

/// The indices after scanning the first `n` families in order, stopping as
/// soon as both a graphics and a present family are known.
pub open spec fn scan_families(families: Seq<QueueFamily>, n: nat) -> QueueFamilyIndices
    decreases n,
{
    if n == 0 {
        QueueFamilyIndices { graphics_family: None, present_family: None }
    } else {
        let before = scan_families(families, (n - 1) as nat);
        if before.complete() {
            before
        } else {
            record_family(before, n - 1, families[n - 1])
        }
    }
}

/// Records what the driver reports about family `index`: a family with the
/// graphics bit becomes the graphics family, one that can present becomes
/// the present family.
pub fn record_queue_family(indices: &mut QueueFamilyIndices, index: u32, family: QueueFamily)
    ensures
        *final(indices) == record_family(*old(indices), index as int, family),
{
    if queue_flags_contain_graphics(family.queue_flags) {
        indices.graphics_family = Some(index);
    }
    if family.present_support {
        indices.present_family = Some(index);
    }
}

/// Picks the graphics and present queue families of a device from what the
/// driver reports about each of its families, in the driver's order.
pub fn find_queue_families(families: &Vec<QueueFamily>) -> (r: QueueFamilyIndices)
    requires
        families@.len() <= u32::MAX,
    ensures
        r == scan_families(families@, families@.len()),
{
    let mut indices = QueueFamilyIndices::default();
    let mut i: usize = 0;
    while i < families.len()
        invariant
            i <= families@.len() <= u32::MAX,
            indices == scan_families(families@, i as nat),
            !indices.complete(),
        decreases families@.len() - i,
    {
        let family = families[i];
        let ghost before = indices;
        record_queue_family(&mut indices, i as u32, family);
        assert(indices == record_family(before, i as int, families@[i as int]));
        if indices.is_complete() {
            proof {
                lemma_scan_stays_complete(families@, (i + 1) as nat, families@.len());
            }
            return indices;
        }
        i = i + 1;
    }
    indices
}

/// Once the scan has found both families it no longer changes.
proof fn lemma_scan_stays_complete(families: Seq<QueueFamily>, n: nat, m: nat)
    requires
        n <= m,
        scan_families(families, n).complete(),
    ensures
        scan_families(families, m) == scan_families(families, n),
    decreases m - n,
{
    if n < m {
        lemma_scan_stays_complete(families, n, (m - 1) as nat);
    }
}

/// A family index that the scan of the first `n` families reports stands
/// for one of those families, and that family has the required capability.
proof fn lemma_scan_qualifies(families: Seq<QueueFamily>, n: nat)
    requires
        n <= families.len() <= u32::MAX,
    ensures
        scan_families(families, n).graphics_family matches Some(g) ==> g < n
            && has_graphics_bit(families[g as int].queue_flags),
        scan_families(families, n).present_family matches Some(p) ==> p < n
            && families[p as int].present_support,
    decreases n,
{
    if n > 0 {
        lemma_scan_qualifies(families, (n - 1) as nat);
    }
}

/// The scan of the first `n` families finds both families exactly when some
/// of them has the graphics bit and some of them can present.
proof fn lemma_scan_complete_iff(families: Seq<QueueFamily>, n: nat)
    requires
        n <= families.len() <= u32::MAX,
    ensures
        scan_families(families, n).complete() <==> (exists|g: int|
            0 <= g < n && has_graphics_bit(#[trigger] families[g].queue_flags)) && (exists|p: int|
            0 <= p < n && #[trigger] families[p].present_support),
        scan_families(families, n).graphics_family is None ==> forall|g: int|
            0 <= g < n ==> !has_graphics_bit(#[trigger] families[g].queue_flags),
        scan_families(families, n).present_family is None ==> forall|p: int|
            0 <= p < n ==> !(#[trigger] families[p].present_support),
    decreases n,
{
    if n > 0 {
        lemma_scan_complete_iff(families, (n - 1) as nat);
        lemma_scan_qualifies(families, n);
        lemma_scan_qualifies(families, (n - 1) as nat);
        let last = n - 1;
        if has_graphics_bit(families[last].queue_flags) {
            assert(exists|g: int| 0 <= g < n && has_graphics_bit(#[trigger] families[g].queue_flags));
        }
        if families[last].present_support {
            assert(exists|p: int| 0 <= p < n && #[trigger] families[p].present_support);
        }
    }
}

/// The families chosen depend on nothing but what the driver reported:
/// equal reports give equal indices.
pub proof fn lemma_find_queue_families_deterministic(a: Seq<QueueFamily>, b: Seq<QueueFamily>)
    requires
        a == b,
    ensures
        scan_families(a, a.len()) == scan_families(b, b.len()),
{
}

/// Among the first `j` families, some has the graphics bit and some can
/// present.
pub open spec fn seen_both(families: Seq<QueueFamily>, j: int) -> bool {
    &&& exists|g: int| 0 <= g < j && has_graphics_bit(#[trigger] families[g].queue_flags)
    &&& exists|p: int| 0 <= p < j && #[trigger] families[p].present_support
}

proof fn lemma_scan_picks_last_before_stop(families: Seq<QueueFamily>, n: nat)
    requires
        n <= families.len() <= u32::MAX,
    ensures
        scan_families(families, n).graphics_family matches Some(g) ==> g < n && has_graphics_bit(
            families[g as int].queue_flags,
        ) && !seen_both(families, g as int) && forall|j: int|
            g < j < n && has_graphics_bit(#[trigger] families[j].queue_flags) ==> seen_both(
                families,
                j,
            ),
        scan_families(families, n).present_family matches Some(p) ==> p < n
            && families[p as int].present_support && !seen_both(families, p as int) && forall|j: int|
            p < j < n && #[trigger] families[j].present_support ==> seen_both(families, j),
    decreases n,
{
    if n > 0 {
        let m = (n - 1) as nat;
        lemma_scan_picks_last_before_stop(families, m);
        lemma_scan_complete_iff(families, m);
        lemma_scan_qualifies(families, n);
        assert(scan_families(families, m).complete() <==> seen_both(families, m as int));
    }
}

/// Which families `find_queue_families` reports: families are looked at in
/// order until some earlier family has the graphics bit and some earlier
/// family can present. The graphics family is a family with the graphics
/// bit, looked at before that point, after which no family with the bit was
/// looked at; likewise the present family.
pub proof fn lemma_found_families_are_last_looked_at(families: Seq<QueueFamily>)
    requires
        families.len() <= u32::MAX,
    ensures
        scan_families(families, families.len()).graphics_family matches Some(g) ==> g
            < families.len() && has_graphics_bit(families[g as int].queue_flags) && !seen_both(
            families,
            g as int,
        ) && forall|j: int|
            g < j < families.len() && has_graphics_bit(#[trigger] families[j].queue_flags)
                ==> seen_both(families, j),
        scan_families(families, families.len()).present_family matches Some(p) ==> p
            < families.len() && families[p as int].present_support && !seen_both(families, p as int)
            && forall|j: int|
            p < j < families.len() && #[trigger] families[j].present_support ==> seen_both(
                families,
                j,
            ),
{
    lemma_scan_picks_last_before_stop(families, families.len());
}

/// Every family index that `find_queue_families` reports is an index of the
/// list whose family has the capability asked for: the graphics family has
/// the graphics bit, the present family can present.
pub proof fn lemma_found_families_qualify(families: Seq<QueueFamily>)
    requires
        families.len() <= u32::MAX,
    ensures
        scan_families(families, families.len()).graphics_family matches Some(g) ==> g
            < families.len() && has_graphics_bit(families[g as int].queue_flags),
        scan_families(families, families.len()).present_family matches Some(p) ==> p
            < families.len() && families[p as int].present_support,
{
    lemma_scan_qualifies(families, families.len());
}

/// `find_queue_families` returns complete indices exactly when some family
/// supports graphics and some family (maybe another one) can present; a
/// family kind it leaves unset is missing from every family of the list.
pub proof fn lemma_complete_iff_supported(families: Seq<QueueFamily>)
    requires
        families.len() <= u32::MAX,
    ensures
        scan_families(families, families.len()).complete() <==> (exists|g: int|
            0 <= g < families.len() && has_graphics_bit(#[trigger] families[g].queue_flags)) && (
        exists|p: int| 0 <= p < families.len() && #[trigger] families[p].present_support),
        scan_families(families, families.len()).graphics_family is None ==> forall|g: int|
            0 <= g < families.len() ==> !has_graphics_bit(#[trigger] families[g].queue_flags),
        scan_families(families, families.len()).present_family is None ==> forall|p: int|
            0 <= p < families.len() ==> !(#[trigger] families[p].present_support),
{
    lemma_scan_complete_iff(families, families.len());
}

/// The distinct queue families of complete indices: the graphics family,
/// then the present family unless it is the same one.
pub open spec fn distinct_families(indices: QueueFamilyIndices) -> Seq<u32> {
    if indices.graphics_family->0 == indices.present_family->0 {
        seq![indices.graphics_family->0]
    } else {
        seq![indices.graphics_family->0, indices.present_family->0]
    }
}

/// The distinct queue families for which the logical device asks for a
/// queue: the graphics family, then the present family unless it is the
/// same one.
pub fn unique_queue_families(indices: &QueueFamilyIndices) -> (r: Vec<u32>)
    requires
        indices.complete(),
    ensures
        r@ == distinct_families(*indices),
        r@.no_duplicates(),
        r@.contains(indices.graphics_family->0),
        r@.contains(indices.present_family->0),
        forall|x: u32| #[trigger] r@.contains(x) ==> x == indices.graphics_family->0 || x
            == indices.present_family->0,
        r@.len() == (if indices.graphics_family->0 == indices.present_family->0 {
            1int
        } else {
            2int
        }),
{
    let graphics = indices.graphics_family.unwrap();
    let present = indices.present_family.unwrap();
    let mut families: Vec<u32> = Vec::new();
    if graphics == present {
        families.push(graphics);
    } else {
        families.push(graphics);
        families.push(present);
    }
    assert(families@[0] == graphics);
    assert(families@.len() == 2 ==> families@[1] == present);
    families
}

} // verus!
