//! The dataset types that can be requested, and the tables each stands for.

use vstd::prelude::*;

verus! {

/// A concrete dataset type: one output table.
#[derive(Clone, Copy, Debug, PartialEq, Eq, Hash, Structural)]
pub enum Datatype {
    /// Block headers
    Blocks,
    /// Transactions
    Transactions,
    /// Names and symbols of ERC-721 contracts
    Erc721Metadata,
}

impl Datatype {
    /// The name of the dataset type, as it appears in file names.
    pub open spec fn spec_name(self) -> Seq<char> {
        match self {
            Datatype::Blocks => "blocks"@,
            Datatype::Transactions => "transactions"@,
            Datatype::Erc721Metadata => "erc721_metadata"@,
        }
    }

    /// The name of the dataset type, as it appears in file names.
    pub fn name(&self) -> (name: &'static str)
        ensures
            name@ == self.spec_name(),
    {
        match *self {
            Datatype::Blocks => "blocks",
            Datatype::Transactions => "transactions",
            Datatype::Erc721Metadata => "erc721_metadata",
        }
    }
}

/// A dataset type that stands for several tables at once.
#[derive(Clone, Copy, Debug, PartialEq, Eq, Hash, Structural)]
pub enum MultiDatatype {
    /// Blocks together with their transactions
    BlocksAndTransactions,
}

impl MultiDatatype {
    /// The concrete dataset types that this one stands for, in order.
    pub open spec fn spec_datatypes(self) -> Seq<Datatype> {
        match self {
            MultiDatatype::BlocksAndTransactions => seq![Datatype::Blocks, Datatype::Transactions],
        }
    }

    /// The concrete dataset types that this one stands for, in order.
    pub fn datatypes(&self) -> (datatypes: Vec<Datatype>)
        ensures
            datatypes@ == self.spec_datatypes(),
    {
        match *self {
            MultiDatatype::BlocksAndTransactions => {
                let mut datatypes = Vec::new();
                datatypes.push(Datatype::Blocks);
                datatypes.push(Datatype::Transactions);
                assert(datatypes@ =~= self.spec_datatypes());
                datatypes
            },
        }
    }
}

/// A requested dataset type: either one table or several.
#[derive(Clone, Copy, Debug, PartialEq, Eq, Hash, Structural)]
pub enum MetaDatatype {
    /// A single concrete dataset type
    Scalar(Datatype),
    /// A dataset type that expands into several concrete ones
    Multi(MultiDatatype),
}

impl MetaDatatype {
    /// The concrete dataset types behind the requested one: exactly one for a
    /// scalar, the constituents in order for a multi-type.
    pub open spec fn spec_datatypes(self) -> Seq<Datatype> {
        match self {
            MetaDatatype::Scalar(datatype) => seq![datatype],
            MetaDatatype::Multi(multi) => multi.spec_datatypes(),
        }
    }

    /// The concrete dataset types behind the requested one.
    pub fn datatypes(&self) -> (datatypes: Vec<Datatype>)
        ensures
            datatypes@ == self.spec_datatypes(),
    {
        match *self {
            MetaDatatype::Scalar(datatype) => {
                let mut datatypes = Vec::new();
                datatypes.push(datatype);
                assert(datatypes@ =~= self.spec_datatypes());
                datatypes
            },
            MetaDatatype::Multi(multi) => multi.datatypes(),
        }
    }
}

} // verus!
