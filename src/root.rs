use vstd::prelude::*;

verus! {

/// How many directories are checked, the starting one included.
pub const MAX_ROOT_HOPS: usize = 5;

/// The subdirectory whose presence marks the application root.
pub const MARKER_DIR: &'static str = "garrysmod";

/// One directory on the walk upward from the working directory, and whether
/// it holds the marker subdirectory.
#[derive(Clone, Debug)]
pub struct Probe {
    pub dir: String,
    pub has_marker: bool,
}

#[derive(Clone, Copy, Debug, PartialEq, Eq, Structural)]
pub enum RootError {
    NotFound,
}

impl RootError {
    pub fn message(&self) -> (r: String)
        ensures
            r@ == "Garry's Mod root directory not found"@,
    {
        proof {
            reveal_strlit("Garry's Mod root directory not found");
        }
        String::from_str("Garry's Mod root directory not found")
    }
}

/// How many of the probes fall within the hop bound.
pub open spec fn checked(probes: Seq<Probe>) -> int {
    if probes.len() < MAX_ROOT_HOPS {
        probes.len() as int
    } else {
        MAX_ROOT_HOPS as int
    }
}

/// Picks the root from the probes, nearest first: the first directory within
/// the hop bound that holds the marker, or `NotFound` where none does.
pub fn select_root(probes: &Vec<Probe>) -> (r: Result<String, RootError>)
    ensures
        r is Err <==> forall|i: int| 0 <= i < checked(probes@) ==> !probes@[i].has_marker,
        r matches Ok(root) ==> exists|i: int|
            0 <= i < checked(probes@) && probes@[i].has_marker && root@ == probes@[i].dir@
                && forall|j: int| 0 <= j < i ==> !probes@[j].has_marker,
{
    let mut i: usize = 0;
    while i < probes.len() && i < MAX_ROOT_HOPS
        invariant
            i <= checked(probes@),
            forall|j: int| 0 <= j < i ==> !probes@[j].has_marker,
        decreases probes.len() - i,
    {
        if probes[i].has_marker {
            return Ok(probes[i].dir.clone());
        }
        i = i + 1;
    }
    Err(RootError::NotFound)
}

} // verus!
