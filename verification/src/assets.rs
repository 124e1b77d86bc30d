//! The asset copier's planning: mirroring a source directory into a
//! destination means copying every regular file under it to the same
//! relative path under the destination. An absent source directory yields
//! an empty plan: the destination is left untouched and the operation
//! counts as a success.

use vstd::prelude::*;

verus! {

use crate::config::{spec_join_path, join_path};

/// What a walk of one directory found: whether it exists, and the relative
/// paths of the regular files under it.
#[derive(Debug)]
pub struct DirListing {
    pub exists: bool,
    pub files: Vec<String>,
}

/// One file copy: an absolute source path and an absolute destination path.
#[derive(Debug)]
pub struct CopyOp {
    pub source: String,
    pub dest: String,
}

/// Plans the mirroring of `source_root` into `dest_root`: one copy per
/// listed file, relative structure preserved; an absent source plans
/// nothing.
pub fn plan_mirror(source_root: &str, listing: &DirListing, dest_root: &str) -> (plan: Vec<CopyOp>)
    ensures
        !listing.exists ==> plan@.len() == 0,
        listing.exists ==> plan@.len() == listing.files@.len(),
        listing.exists ==> forall|i: int|
            0 <= i < plan@.len() ==> (#[trigger] plan@[i]).source@ == spec_join_path(
                source_root@,
                listing.files@[i]@,
            ) && plan@[i].dest@ == spec_join_path(dest_root@, listing.files@[i]@),
{
    let mut plan: Vec<CopyOp> = Vec::new();
    if !listing.exists {
        return plan;
    }
    let mut i: usize = 0;
    while i < listing.files.len()
        invariant
            i <= listing.files@.len(),
            plan@.len() == i,
            forall|j: int|
                0 <= j < i ==> (#[trigger] plan@[j]).source@ == spec_join_path(
                    source_root@,
                    listing.files@[j]@,
                ) && plan@[j].dest@ == spec_join_path(dest_root@, listing.files@[j]@),
        decreases listing.files@.len() - i,
    {
        let rel = &listing.files[i];
        plan.push(
            CopyOp {
                source: join_path(source_root, rel.as_str()),
                dest: join_path(dest_root, rel.as_str()),
            },
        );
        i = i + 1;
    }
    plan
}

} // verus!
