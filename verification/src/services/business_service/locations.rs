//! Locations: the places an account manages.

use vstd::prelude::*;

verus! {

/// One location, as far as this client reads it: the fields that identify
/// it.
#[derive(Debug, Clone, PartialEq, Eq, Default)]
pub struct Location {
    /// The resource name, by which the service knows the location.
    pub name: String,
    pub title: String,
    pub store_code: String,
}

/// The locations of one listing, in the order in which the pages held them.
#[derive(Debug, Clone, PartialEq, Eq, Default)]
pub struct Locations {
    pub locations: Vec<Location>,
}

/// The texts of a field mask, each as a sequence of characters.
pub open spec fn mask_model(mask: Seq<String>) -> Seq<Seq<char>> {
    Seq::new(mask.len(), |i: int| mask[i]@)
}

/// The field names joined by commas: nothing for no names, and no comma
/// before the first or after the last.
pub open spec fn joined(names: Seq<Seq<char>>) -> Seq<char>
    decreases names.len(),
{
    if names.len() == 0 {
        Seq::empty()
    } else if names.len() == 1 {
        names[0]
    } else {
        joined(names.drop_last()) + seq![','] + names.last()
    }
}

/// Joins the names of a field mask into the one value that the query string
/// carries, in the order given.
pub fn join_field_mask(read_mask: &Vec<String>) -> (mask: String)
    ensures
        mask@ == joined(mask_model(read_mask@)),
{
    let mut mask = String::new();
    let mut i: usize = 0;
    while i < read_mask.len()
        invariant
            i <= read_mask.len(),
            mask@ == joined(mask_model(read_mask@).take(i as int)),
        decreases read_mask.len() - i,
    {
        let ghost names = mask_model(read_mask@);
        proof {
            reveal_strlit(",");
            assert(names.take(i + 1).drop_last() =~= names.take(i as int));
        }
        if i > 0 {
            mask.append(",");
        }
        mask.append(read_mask[i].as_str());
        i += 1;
    }
    proof {
        assert(mask_model(read_mask@).take(read_mask@.len() as int) =~= mask_model(read_mask@));
    }
    mask
}

} // verus!
