use vstd::prelude::*;
use crate::rk_devices::{
    classify, header, location_label, matched_view, qualifies, scan_views, DescriptorView,
    LOADER, MASK_ROM, USB_VENDOR_ID,
};
use crate::text::dec_rep;
use crate::version::version_value;

verus! {

/// Law: a scan never yields a record for a device of another vendor; every
/// record it yields carries the Rockchip vendor identifier.
pub proof fn lemma_scan_excludes_foreign_vendor(ds: Seq<DescriptorView>)
    ensures
        forall|j: int|
            0 <= j < scan_views(ds).len() ==> (#[trigger] scan_views(ds)[j]).vendor_id
                == USB_VENDOR_ID,
    decreases ds.len(),
{
    if ds.len() > 0 {
        lemma_scan_excludes_foreign_vendor(ds.drop_last());
        let rest = scan_views(ds.drop_last());
        assert forall|j: int| 0 <= j < scan_views(ds).len() implies (
        #[trigger] scan_views(ds)[j]).vendor_id == USB_VENDOR_ID by {
            if j < rest.len() {
                assert(scan_views(ds)[j] == rest[j]);
            }
        }
    }
}

/// Law: a scan never yields a record for a device whose product identifier
/// has a zero upper byte; every record it yields has a non-zero one.
pub proof fn lemma_scan_excludes_plain_product(ds: Seq<DescriptorView>)
    ensures
        forall|j: int|
            0 <= j < scan_views(ds).len() ==> (#[trigger] scan_views(ds)[j]).product_id >> 8 > 0,
    decreases ds.len(),
{
    if ds.len() > 0 {
        lemma_scan_excludes_plain_product(ds.drop_last());
        let rest = scan_views(ds.drop_last());
        assert forall|j: int| 0 <= j < scan_views(ds).len() implies (
        #[trigger] scan_views(ds)[j]).product_id >> 8 > 0 by {
            if j < rest.len() {
                assert(scan_views(ds)[j] == rest[j]);
            }
        }
    }
}

/// Law: the classification of a version string is the bootROM-only code
/// exactly when the number its digits denote is even, and the recovery
/// bootloader code exactly when it is odd; the label follows the code.
pub proof fn lemma_classification_parity(version: Seq<char>)
    ensures
        classify(version) == MASK_ROM <==> version_value(version) % 2 == 0,
        classify(version) == LOADER <==> version_value(version) % 2 != 0,
        location_label(classify(version)) == if version_value(version) % 2 == 0 {
            "Mask-ROM mode"@
        } else {
            "Loader mode"@
        },
{
}

/// Law: every qualifying descriptor appears in the scan's yield, classified
/// by the parity of its version digits.
pub proof fn lemma_scan_classifies_qualifying(ds: Seq<DescriptorView>, i: int)
    requires
        0 <= i < ds.len(),
        qualifies(ds[i].vendor_id, ds[i].product_id),
    ensures
        exists|j: int|
            0 <= j < scan_views(ds).len() && #[trigger] scan_views(ds)[j] == matched_view(ds[i]),
    decreases ds.len(),
{
    if i == ds.len() - 1 {
        assert(ds.last() == ds[i]);
        assert(scan_views(ds)[scan_views(ds).len() - 1] == matched_view(ds[i]));
    } else {
        lemma_scan_classifies_qualifying(ds.drop_last(), i);
        let rest = scan_views(ds.drop_last());
        let j = choose|j: int| 0 <= j < rest.len() && #[trigger] rest[j] == matched_view(
            ds.drop_last()[i],
        );
        assert(ds.drop_last()[i] == ds[i]);
        assert(scan_views(ds)[j] == matched_view(ds[i]));
    }
}

/// Law: a report for exactly one match says "device" in the singular; for
/// any other count the count line says "devices".
pub proof fn lemma_pluralization(n: nat)
    ensures
        n == 1 ==> header(n) == "Found 1 connected Rockchip USB device"@,
        n != 1 ==> header(n) == "Found "@ + dec_rep(n) + " connected Rockchip USB "@
            + "devices"@,
{
    if n == 1 {
        reveal_strlit("Found ");
        reveal_strlit(" connected Rockchip USB ");
        reveal_strlit("device");
        reveal_strlit("Found 1 connected Rockchip USB device");
        assert(dec_rep(1) =~= seq!['1']);
        assert(header(n) =~= "Found 1 connected Rockchip USB device"@);
    }
}

} // verus!
