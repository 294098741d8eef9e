//! What a user asked to collect.

use crate::types::datatypes::{Datatype, MetaDatatype};
use crate::types::partitions::Dim;
use crate::types::schemas::Schemas;
use vstd::prelude::*;

verus! {

/// A request for datasets over a partitioned request space.
pub struct Query {
    /// The dataset types asked for
    pub datatypes: Vec<MetaDatatype>,
    /// Table metadata of the dataset types that can be resolved
    pub schemas: Schemas,
    /// The dimensions along which the request space was partitioned
    pub partitioned_by: Vec<Dim>,
}

/// The concrete dataset types behind a list of requested ones, each
/// requested type expanded in place.
pub open spec fn concrete_datatypes(requested: Seq<MetaDatatype>) -> Seq<Datatype>
    decreases requested.len(),
{
    if requested.len() == 0 {
        Seq::empty()
    } else {
        concrete_datatypes(requested.drop_last()) + requested.last().spec_datatypes()
    }
}

impl Query {
    /// The concrete dataset types that the query asks for, in order, with
    /// repetitions where two requested types share a table.
    pub open spec fn spec_concrete_datatypes(&self) -> Seq<Datatype> {
        concrete_datatypes(self.datatypes@)
    }

    /// The concrete dataset types that the query asks for, in order, with
    /// repetitions where two requested types share a table.
    pub fn concrete_datatypes(&self) -> (datatypes: Vec<Datatype>)
        ensures
            datatypes@ == self.spec_concrete_datatypes(),
    {
        let mut datatypes: Vec<Datatype> = Vec::new();
        let mut i: usize = 0;
        proof {
            assert(self.datatypes@.take(0) =~= Seq::<MetaDatatype>::empty());
        }
        while i < self.datatypes.len()
            invariant
                i <= self.datatypes.len(),
                datatypes@ == concrete_datatypes(self.datatypes@.take(i as int)),
            decreases self.datatypes.len() - i,
        {
            let mut expanded = self.datatypes[i].datatypes();
            proof {
                let upto = self.datatypes@.take(i + 1);
                assert(upto.drop_last() =~= self.datatypes@.take(i as int));
                assert(upto.last() == self.datatypes@[i as int]);
            }
            datatypes.append(&mut expanded);
            i += 1;
        }
        proof {
            assert(self.datatypes@.take(i as int) =~= self.datatypes@);
        }
        datatypes
    }
}

} // verus!
