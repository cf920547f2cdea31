//! Load requests projected from a capsule-composed boot envelope.
use vstd::prelude::*;

verus! {

/// One content-addressed item of a bundle's load plan.
#[derive(Clone, Debug, PartialEq, Eq)]
pub struct BundleContent {
    /// Application or library identity.
    pub id: String,
    /// Exact content required by the bundle.
    pub content_digest: String,
}

/// The load plan of a boot envelope: the application, then its libraries.
#[derive(Clone, Debug, PartialEq, Eq)]
pub struct LibraryLoadPlan {
    pub application: BundleContent,
    pub libraries: Vec<BundleContent>,
}

/// One content-addressed request projected from the shared boot envelope.
#[derive(Clone, Debug, PartialEq, Eq)]
pub struct BootLoadRequest {
    /// Application or library identity.
    pub id: String,
    /// Exact content required by the bundle.
    pub content_digest: String,
}

/// Projects a load plan into the bootloader's ordered load requests: the
/// application first, then each library in plan order. No item is
/// selected, dropped or substituted.
pub fn boot_load_requests(plan: &LibraryLoadPlan) -> (r: Vec<BootLoadRequest>)
    ensures
        r@.len() == plan.libraries@.len() + 1,
        r@[0].id@ == plan.application.id@,
        r@[0].content_digest@ == plan.application.content_digest@,
        forall|k: int|
            0 <= k < plan.libraries@.len() ==> #[trigger] r@[k + 1].id@ == plan.libraries@[k].id@
                && r@[k + 1].content_digest@ == plan.libraries@[k].content_digest@,
{
    let mut r: Vec<BootLoadRequest> = Vec::new();
    r.push(BootLoadRequest {
        id: plan.application.id.clone(),
        content_digest: plan.application.content_digest.clone(),
    });
    let mut k: usize = 0;
    while k < plan.libraries.len()
        invariant
            k <= plan.libraries@.len(),
            r@.len() == k + 1,
            r@[0].id@ == plan.application.id@,
            r@[0].content_digest@ == plan.application.content_digest@,
            forall|j: int|
                0 <= j < k ==> #[trigger] r@[j + 1].id@ == plan.libraries@[j].id@ && r@[j
                    + 1].content_digest@ == plan.libraries@[j].content_digest@,
        decreases plan.libraries@.len() - k,
    {
        let c = &plan.libraries[k];
        r.push(BootLoadRequest { id: c.id.clone(), content_digest: c.content_digest.clone() });
        k = k + 1;
    }
    r
}

} // verus!
