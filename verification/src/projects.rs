//! Projects that checkpoints can be tagged with.

use vstd::prelude::*;

verus! {

/// A project: an opaque identifier, a display name, and the palette index
/// the rendering layer draws it with.
pub struct Project {
    pub id: String,
    pub name: String,
    pub color: u8,
}

/// The first project carrying the given identifier, or nothing when no
/// project does.
pub fn find_by_id<'a>(projects: &'a Vec<Project>, id: &String) -> (r: Option<&'a Project>)
    ensures
        (match r {
            Some(p) => exists|i: int|
                0 <= i < projects@.len() && *p == projects@[i] && (#[trigger] projects@[i]).id@
                    == id@ && (forall|j: int| 0 <= j < i ==> projects@[j].id@ != id@),
            None => forall|i: int| 0 <= i < projects@.len() ==> (#[trigger] projects@[i]).id@
                != id@,
        }),
{
    let mut i: usize = 0;
    while i < projects.len()
        invariant
            i <= projects@.len(),
            forall|j: int| 0 <= j < i ==> (#[trigger] projects@[j]).id@ != id@,
        decreases projects@.len() - i,
    {
        if projects[i].id == *id {
            return Some(&projects[i]);
        }
        i = i + 1;
    }
    None
}

} // verus!
