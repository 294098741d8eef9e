//! Partitions of the request space, the requests they expand into, and the
//! labels that name them in file names.

use crate::encoding::{
    decimal, decimal_text, encode_hex, hex_text, is_decimal_digit, is_plain,
    lemma_decimal_digits, lemma_decimal_injective, lemma_decimal_plain, lemma_hex_text_chars,
    lemma_hex_text_injective, lemma_hex_text_plain, lemma_plain_concat, lemma_split_unique,
};
use crate::types::errors::CollectError;
use vstd::prelude::*;

verus! {

/// An axis along which requests are parameterised and partitions are sliced.
#[derive(Clone, Copy, Debug, PartialEq, Eq, Hash, Structural)]
pub enum Dim {
    /// Block number
    BlockNumber,
    /// Contract or account address
    Address,
}

/// One fully resolved request.
#[derive(Clone, Debug, PartialEq, Eq)]
pub struct Params {
    /// The block to query
    pub block_number: Option<u64>,
    /// The address to query
    pub address: Option<Vec<u8>>,
}

/// A request as plain values.
pub struct ParamsView {
    pub block_number: Option<u64>,
    pub address: Option<Seq<u8>>,
}

impl View for Params {
    type V = ParamsView;

    open spec fn view(&self) -> ParamsView {
        ParamsView {
            block_number: self.block_number,
            address: match self.address {
                Some(address) => Some(address@),
                None => None,
            },
        }
    }
}

impl ParamsView {
    /// The request that fixes nothing.
    pub open spec fn unset() -> ParamsView {
        ParamsView { block_number: None, address: None }
    }

    /// Whether the request fixes a value along `dim`.
    pub open spec fn has_dim(self, dim: Dim) -> bool {
        match dim {
            Dim::BlockNumber => self.block_number is Some,
            Dim::Address => self.address is Some,
        }
    }
}

impl Default for Params {
    fn default() -> (params: Params)
        ensures
            params@ == ParamsView::unset(),
    {
        Params { block_number: None, address: None }
    }
}

/// The blocks from `start` to `end`, both included. A range whose `start`
/// lies after its `end` holds no block.
#[derive(Clone, Copy, Debug, PartialEq, Eq, Structural)]
pub struct BlockRange {
    /// First block of the range
    pub start: u64,
    /// Last block of the range
    pub end: u64,
}

impl BlockRange {
    /// How many blocks the range holds.
    pub open spec fn count(self) -> nat {
        if self.start <= self.end {
            (self.end - self.start + 1) as nat
        } else {
            0
        }
    }
}

/// A bounded slice of the request space, collected as one unit.
#[derive(Clone, Debug, PartialEq, Eq)]
pub struct Partition {
    /// The blocks of the partition, if it is bounded along blocks
    pub block_numbers: Option<BlockRange>,
    /// The addresses of the partition, if it is bounded along addresses
    pub addresses: Option<Vec<Vec<u8>>>,
}

/// The addresses of a list as plain values.
pub open spec fn address_views(addresses: Seq<Vec<u8>>) -> Seq<Seq<u8>> {
    addresses.map_values(|address: Vec<u8>| address@)
}

/// A partition as plain values.
pub struct PartitionView {
    pub block_numbers: Option<BlockRange>,
    pub addresses: Option<Seq<Seq<u8>>>,
}

impl View for Partition {
    type V = PartitionView;

    open spec fn view(&self) -> PartitionView {
        PartitionView {
            block_numbers: self.block_numbers,
            addresses: match self.addresses {
                Some(addresses) => Some(address_views(addresses@)),
                None => None,
            },
        }
    }
}

/// The label of a block range: `b`, the first block, `_to_`, the last block.
pub open spec fn block_label(range: BlockRange) -> Seq<char> {
    seq!['b'] + decimal(range.start as nat) + seq!['_', 't', 'o', '_'] + decimal(
        range.end as nat,
    )
}

/// Each address in hexadecimal, with `_` before it.
pub open spec fn address_items(addresses: Seq<Seq<u8>>) -> Seq<char>
    decreases addresses.len(),
{
    if addresses.len() == 0 {
        Seq::empty()
    } else {
        seq!['_'] + hex_text(addresses[0]) + address_items(addresses.skip(1))
    }
}

/// The label of a list of addresses: `a`, then each address in hexadecimal
/// with `_` before it.
pub open spec fn address_label(addresses: Seq<Seq<u8>>) -> Seq<char> {
    seq!['a'] + address_items(addresses)
}

impl PartitionView {
    /// Whether the partition is bounded along `dim`.
    pub open spec fn has_dim(self, dim: Dim) -> bool {
        match dim {
            Dim::BlockNumber => self.block_numbers is Some,
            Dim::Address => self.addresses is Some,
        }
    }

    /// Whether the partition is bounded along every dimension of `dims`.
    pub open spec fn covers(self, dims: Seq<Dim>) -> bool {
        forall|i: int| 0 <= i < dims.len() ==> self.has_dim(#[trigger] dims[i])
    }

    /// Whether `dims[k]` is the first dimension of `dims` along which the
    /// partition is not bounded.
    pub open spec fn first_missing(self, dims: Seq<Dim>, k: int) -> bool {
        &&& 0 <= k < dims.len()
        &&& !self.has_dim(dims[k])
        &&& forall|i: int| 0 <= i < k ==> self.has_dim(#[trigger] dims[i])
    }

    /// The first dimension of `dims` along which the partition is not
    /// bounded; meaningful where the partition does not cover `dims`.
    pub open spec fn missing_dim(self, dims: Seq<Dim>) -> Dim {
        dims[choose|k: int| self.first_missing(dims, k)]
    }

    /// The first unbounded dimension is found at one position only.
    pub proof fn lemma_missing_dim(self, dims: Seq<Dim>, k: int)
        requires
            self.first_missing(dims, k),
        ensures
            !self.covers(dims),
            self.missing_dim(dims) == dims[k],
    {
        let chosen = choose|j: int| self.first_missing(dims, j);
        assert(self.first_missing(dims, chosen));
        if chosen < k {
            assert(self.has_dim(dims[chosen]));
        }
        if k < chosen {
            assert(self.has_dim(dims[k]));
        }
    }

    /// The part of the label that names the partition's values along `dim`.
    pub open spec fn piece(self, dim: Dim) -> Seq<char> {
        match dim {
            Dim::BlockNumber => block_label(self.block_numbers->0),
            Dim::Address => address_label(self.addresses->0),
        }
    }

    /// The pieces of `dims` in order, each but a leading one with `__`
    /// before it.
    pub open spec fn pieces(self, dims: Seq<Dim>, leading: bool) -> Seq<char>
        decreases dims.len(),
    {
        if dims.len() == 0 {
            Seq::empty()
        } else {
            (if leading {
                Seq::empty()
            } else {
                seq!['_', '_']
            }) + self.piece(dims[0]) + self.pieces(dims.skip(1), false)
        }
    }

    /// The label of the partition along `dims`: the pieces of the dimensions
    /// in the order given, joined by `__`.
    pub open spec fn label(self, dims: Seq<Dim>) -> Seq<char> {
        self.pieces(dims, true)
    }

    /// The label along `dims`, or the failure to derive one: the first
    /// dimension along which the partition is not bounded.
    pub open spec fn label_result(self, dims: Seq<Dim>) -> Result<Seq<char>, CollectError> {
        if self.covers(dims) {
            Ok(self.label(dims))
        } else {
            Err(CollectError::MissingDimension(self.missing_dim(dims)))
        }
    }

    /// How many values the partition holds along `dim`.
    pub open spec fn dim_count(self, dim: Dim) -> nat {
        match dim {
            Dim::BlockNumber => match self.block_numbers {
                Some(range) => range.count(),
                None => 0,
            },
            Dim::Address => match self.addresses {
                Some(addresses) => addresses.len(),
                None => 0,
            },
        }
    }

    /// `params` with the partition's `k`-th value along `dim` filled in.
    pub open spec fn with_value(self, params: ParamsView, dim: Dim, k: int) -> ParamsView {
        match dim {
            Dim::BlockNumber => ParamsView {
                block_number: Some((self.block_numbers->0.start + k) as u64),
                ..params
            },
            Dim::Address => ParamsView { address: Some(self.addresses->0[k]), ..params },
        }
    }

    /// Every request of `outer` combined with every value of the partition
    /// along `dim`: the requests of `outer` in order, and for each of them the
    /// values in order.
    pub open spec fn cross(self, outer: Seq<ParamsView>, dim: Dim) -> Seq<ParamsView> {
        let n = self.dim_count(dim) as int;
        Seq::new((outer.len() * n) as nat, |i: int| self.with_value(outer[i / n], dim, i % n))
    }

    /// The requests of the partition along `dims`: every combination of one
    /// value for each dimension, the first dimension varying slowest.
    pub open spec fn expand(self, dims: Seq<Dim>) -> Seq<ParamsView>
        decreases dims.len(),
    {
        if dims.len() == 0 {
            seq![ParamsView::unset()]
        } else {
            self.cross(self.expand(dims.drop_last()), dims.last())
        }
    }

    /// Every request of an expansion is resolved along every dimension that
    /// was expanded along.
    pub proof fn expand_fixes_dims(self, dims: Seq<Dim>, i: int, k: int)
        requires
            0 <= i < self.expand(dims).len(),
            0 <= k < dims.len(),
        ensures
            self.expand(dims)[i].has_dim(dims[k]),
        decreases dims.len(),
    {
        let outer = self.expand(dims.drop_last());
        let n = self.dim_count(dims.last()) as int;
        assert(n > 0 && 0 <= i / n < outer.len()) by (nonlinear_arith)
            requires
                0 <= i < outer.len() * n,
                n >= 0,
        ;
        if k < dims.len() - 1 {
            self.expand_fixes_dims(dims.drop_last(), i / n, k);
            assert(dims.drop_last()[k] == dims[k]);
        }
    }

    /// The requests along `dims`, or the failure to expand: the first
    /// dimension along which the partition is not bounded.
    pub open spec fn expand_result(self, dims: Seq<Dim>) -> Result<Seq<ParamsView>, CollectError> {
        if self.covers(dims) {
            Ok(self.expand(dims))
        } else {
            Err(CollectError::MissingDimension(self.missing_dim(dims)))
        }
    }
}

/// The requests of a list as plain values.
pub open spec fn params_views(sets: Seq<Params>) -> Seq<ParamsView> {
    sets.map_values(|params: Params| params@)
}

fn copy_address(address: &Option<Vec<u8>>) -> (copy: Option<Vec<u8>>)
    ensures
        copy is Some <==> address is Some,
        copy matches Some(c) ==> c@ == address->0@,
{
    match address {
        Some(bytes) => {
            let copy = bytes.clone();
            assert(copy@ =~= bytes@);
            Some(copy)
        },
        None => None,
    }
}

fn block_piece(range: BlockRange) -> (text: String)
    ensures
        text@ == block_label(range),
{
    let mut text = String::from_str("b");
    let start = decimal_text(range.start);
    text.append(start.as_str());
    text.append("_to_");
    let end = decimal_text(range.end);
    text.append(end.as_str());
    proof {
        reveal_strlit("b");
        reveal_strlit("_to_");
        assert(text@ =~= block_label(range));
    }
    text
}

fn address_piece(addresses: &Vec<Vec<u8>>) -> (text: String)
    ensures
        text@ == address_label(address_views(addresses@)),
{
    let ghost all = address_views(addresses@);
    let mut text = String::from_str("a");
    proof {
        reveal_strlit("a");
        assert(all.skip(0) =~= all);
        assert(text@ + address_items(all.skip(0)) =~= address_label(all));
    }
    let mut i: usize = 0;
    while i < addresses.len()
        invariant
            i <= addresses.len(),
            all == address_views(addresses@),
            text@ + address_items(all.skip(i as int)) == address_label(all),
        decreases addresses.len() - i,
    {
        let ghost before = text@;
        let hex = encode_hex(&addresses[i]);
        text.append("_");
        text.append(hex.as_str());
        proof {
            reveal_strlit("_");
            let rest = all.skip(i as int);
            assert(rest[0] == addresses[i as int]@);
            assert(rest.skip(1) =~= all.skip(i + 1));
            assert(text@ + address_items(all.skip(i + 1)) =~= before + address_items(rest));
        }
        i += 1;
    }
    proof {
        assert(address_items(all.skip(i as int)) =~= Seq::<char>::empty());
        assert(text@ =~= address_label(all));
    }
    text
}

impl Partition {
    fn cross_blocks(&self, outer: &Vec<Params>, range: BlockRange) -> (sets: Vec<Params>)
        requires
            self.block_numbers == Some(range),
        ensures
            params_views(sets@) == self@.cross(params_views(outer@), Dim::BlockNumber),
    {
        let ghost n = range.count() as int;
        let ghost outer_views = params_views(outer@);
        let mut sets: Vec<Params> = Vec::new();
        if range.start > range.end {
            assert(outer.len() * n == 0) by (nonlinear_arith)
                requires
                    n == 0,
            ;
            assert(params_views(sets@) =~= self@.cross(outer_views, Dim::BlockNumber));
            return sets;
        }
        let mut i: usize = 0;
        while i < outer.len()
            invariant
                i <= outer.len(),
                range.start <= range.end,
                n == range.count(),
                self.block_numbers == Some(range),
                outer_views == params_views(outer@),
                sets@.len() == i * n,
                forall|k: int|
                    0 <= k < sets@.len() ==> (#[trigger] sets@[k])@ == self@.with_value(
                        outer_views[k / n],
                        Dim::BlockNumber,
                        k % n,
                    ),
            decreases outer.len() - i,
        {
            let mut block = range.start;
            loop
                invariant_except_break
                    sets@.len() == i * n + (block - range.start),
                invariant
                    i < outer.len(),
                    range.start <= block <= range.end,
                    n == range.count(),
                    self.block_numbers == Some(range),
                    outer_views == params_views(outer@),
                    forall|k: int|
                        0 <= k < sets@.len() ==> (#[trigger] sets@[k])@ == self@.with_value(
                            outer_views[k / n],
                            Dim::BlockNumber,
                            k % n,
                        ),
                ensures
                    sets@.len() == (i + 1) * n,
                    forall|k: int|
                        0 <= k < sets@.len() ==> (#[trigger] sets@[k])@ == self@.with_value(
                            outer_views[k / n],
                            Dim::BlockNumber,
                            k % n,
                        ),
                decreases range.end - block,
            {
                let params = Params {
                    block_number: Some(block),
                    address: copy_address(&outer[i].address),
                };
                proof {
                    let at = sets@.len() as int;
                    vstd::arithmetic::div_mod::lemma_fundamental_div_mod_converse(
                        at,
                        n,
                        i as int,
                        block - range.start,
                    );
                    assert(params@ == self@.with_value(
                        outer_views[at / n],
                        Dim::BlockNumber,
                        at % n,
                    ));
                }
                sets.push(params);
                if block == range.end {
                    assert((i + 1) * n == i * n + n) by (nonlinear_arith);
                    break ;
                }
                block += 1;
            }
            i += 1;
        }
        assert(params_views(sets@) =~= self@.cross(outer_views, Dim::BlockNumber));
        sets
    }

    fn cross_addresses(&self, outer: &Vec<Params>, addresses: &Vec<Vec<u8>>) -> (sets: Vec<
        Params,
    >)
        requires
            self.addresses == Some(*addresses),
        ensures
            params_views(sets@) == self@.cross(params_views(outer@), Dim::Address),
    {
        let ghost n = addresses.len() as int;
        let ghost outer_views = params_views(outer@);
        let mut sets: Vec<Params> = Vec::new();
        let mut i: usize = 0;
        while i < outer.len()
            invariant
                i <= outer.len(),
                n == addresses.len(),
                self.addresses == Some(*addresses),
                outer_views == params_views(outer@),
                sets@.len() == i * n,
                forall|k: int|
                    0 <= k < sets@.len() ==> (#[trigger] sets@[k])@ == self@.with_value(
                        outer_views[k / n],
                        Dim::Address,
                        k % n,
                    ),
            decreases outer.len() - i,
        {
            let mut j: usize = 0;
            while j < addresses.len()
                invariant
                    i < outer.len(),
                    j <= addresses.len(),
                    n == addresses.len(),
                    self.addresses == Some(*addresses),
                    outer_views == params_views(outer@),
                    sets@.len() == i * n + j,
                    forall|k: int|
                        0 <= k < sets@.len() ==> (#[trigger] sets@[k])@ == self@.with_value(
                            outer_views[k / n],
                            Dim::Address,
                            k % n,
                        ),
                decreases addresses.len() - j,
            {
                let address = addresses[j].clone();
                assert(address@ =~= addresses[j as int]@);
                let params = Params {
                    block_number: outer[i].block_number,
                    address: Some(address),
                };
                proof {
                    let at = sets@.len() as int;
                    vstd::arithmetic::div_mod::lemma_fundamental_div_mod_converse(
                        at,
                        n,
                        i as int,
                        j as int,
                    );
                    assert(params@ == self@.with_value(outer_views[at / n], Dim::Address, at % n));
                }
                sets.push(params);
                j += 1;
            }
            assert((i + 1) * n == i * n + n) by (nonlinear_arith);
            i += 1;
        }
        assert(params_views(sets@) =~= self@.cross(outer_views, Dim::Address));
        sets
    }

    /// Checks that the partition is bounded along every dimension of `dims`.
    /// Fails on the first dimension along which it is not.
    pub fn check_dims(&self, dims: &[Dim]) -> (r: Result<(), CollectError>)
        ensures
            match r {
                Ok(_) => self@.covers(dims@),
                Err(e) => !self@.covers(dims@) && e == CollectError::MissingDimension(
                    self@.missing_dim(dims@),
                ),
            },
    {
        let mut i: usize = 0;
        while i < dims.len()
            invariant
                i <= dims.len(),
                forall|j: int| 0 <= j < i ==> self@.has_dim(#[trigger] dims@[j]),
            decreases dims.len() - i,
        {
            let dim = dims[i];
            let bounded = match dim {
                Dim::BlockNumber => self.block_numbers.is_some(),
                Dim::Address => self.addresses.is_some(),
            };
            if !bounded {
                proof {
                    self@.lemma_missing_dim(dims@, i as int);
                }
                return Err(CollectError::MissingDimension(dim));
            }
            i += 1;
        }
        Ok(())
    }

    /// The requests that the partition expands into along `dims`: every
    /// combination of one value for each dimension, the first dimension
    /// varying slowest. Fails on the first dimension along which the
    /// partition is not bounded.
    pub fn param_sets(&self, dims: Vec<Dim>) -> (r: Result<Vec<Params>, CollectError>)
        ensures
            match r {
                Ok(sets) => self@.expand_result(dims@) == Ok::<_, CollectError>(
                    params_views(sets@),
                ),
                Err(e) => self@.expand_result(dims@) == Err::<Seq<ParamsView>, _>(e),
            },
    {
        let mut sets: Vec<Params> = Vec::new();
        sets.push(Params::default());
        proof {
            assert(dims@.take(0) =~= Seq::<Dim>::empty());
            assert(params_views(sets@) =~= self@.expand(dims@.take(0)));
        }
        let mut d: usize = 0;
        while d < dims.len()
            invariant
                d <= dims.len(),
                forall|j: int| 0 <= j < d ==> self@.has_dim(#[trigger] dims@[j]),
                params_views(sets@) == self@.expand(dims@.take(d as int)),
            decreases dims.len() - d,
        {
            let dim = dims[d];
            let next = match dim {
                Dim::BlockNumber => match self.block_numbers {
                    Some(range) => self.cross_blocks(&sets, range),
                    None => {
                        proof {
                            self@.lemma_missing_dim(dims@, d as int);
                        }
                        return Err(CollectError::MissingDimension(dim));
                    },
                },
                Dim::Address => match &self.addresses {
                    Some(addresses) => self.cross_addresses(&sets, addresses),
                    None => {
                        proof {
                            self@.lemma_missing_dim(dims@, d as int);
                        }
                        return Err(CollectError::MissingDimension(dim));
                    },
                },
            };
            proof {
                let upto = dims@.take(d + 1);
                assert(upto.drop_last() =~= dims@.take(d as int));
                assert(upto.last() == dim);
            }
            sets = next;
            d += 1;
        }
        proof {
            assert(dims@.take(d as int) =~= dims@);
        }
        Ok(sets)
    }

    /// The label of the partition along the dimensions that the request
    /// space was partitioned by: one piece for each dimension, in the order
    /// given, joined by `__`. A block range reads `b<first>_to_<last>`, a list
    /// of addresses `a_<0x..>_<0x..>`. Fails on the first dimension along
    /// which the partition is not bounded.
    pub fn label(&self, partitioned_by: &[Dim]) -> (r: Result<String, CollectError>)
        ensures
            match r {
                Ok(text) => self@.label_result(partitioned_by@) == Ok::<_, CollectError>(text@),
                Err(e) => self@.label_result(partitioned_by@) == Err::<Seq<char>, _>(e),
            },
    {
        let ghost dims = partitioned_by@;
        let mut text = String::new();
        proof {
            assert(dims.skip(0) =~= dims);
            assert(text@ + self@.pieces(dims.skip(0), true) =~= self@.label(dims));
        }
        let mut i: usize = 0;
        while i < partitioned_by.len()
            invariant
                i <= partitioned_by.len(),
                dims == partitioned_by@,
                forall|j: int| 0 <= j < i ==> self@.has_dim(#[trigger] dims[j]),
                text@ + self@.pieces(dims.skip(i as int), i == 0) == self@.label(dims),
            decreases partitioned_by.len() - i,
        {
            let ghost before = text@;
            let dim = partitioned_by[i];
            let piece = match dim {
                Dim::BlockNumber => match self.block_numbers {
                    Some(range) => block_piece(range),
                    None => {
                        proof {
                            self@.lemma_missing_dim(dims, i as int);
                        }
                        return Err(CollectError::MissingDimension(dim));
                    },
                },
                Dim::Address => match &self.addresses {
                    Some(addresses) => address_piece(addresses),
                    None => {
                        proof {
                            self@.lemma_missing_dim(dims, i as int);
                        }
                        return Err(CollectError::MissingDimension(dim));
                    },
                },
            };
            if i > 0 {
                text.append("__");
            }
            text.append(piece.as_str());
            proof {
                reveal_strlit("__");
                let rest = dims.skip(i as int);
                assert(rest[0] == dim);
                assert(rest.skip(1) =~= dims.skip(i + 1));
                assert(piece@ == self@.piece(dim));
                assert(text@ + self@.pieces(dims.skip(i + 1), false) =~= before + self@.pieces(
                    rest,
                    i == 0,
                ));
            }
            i += 1;
        }
        proof {
            assert(self@.pieces(dims.skip(i as int), i == 0) =~= Seq::<char>::empty());
            assert(text@ =~= self@.label(dims));
        }
        Ok(text)
    }
}

/// Whether a text is empty or starts with `_`.
pub open spec fn ends_or_underscore(text: Seq<char>) -> bool {
    text.len() == 0 || text[0] == '_'
}

/// Whether a text is empty or starts with `__`.
pub open spec fn ends_or_separator(text: Seq<char>) -> bool {
    text.len() == 0 || (text.len() >= 2 && text[0] == '_' && text[1] == '_')
}

proof fn lemma_block_label_prefix(
    range1: BlockRange,
    rest1: Seq<char>,
    range2: BlockRange,
    rest2: Seq<char>,
)
    requires
        block_label(range1) + rest1 == block_label(range2) + rest2,
        ends_or_underscore(rest1),
        ends_or_underscore(rest2),
    ensures
        range1 == range2,
        rest1 == rest2,
{
    let class = |c: char| is_decimal_digit(c);
    let to = seq!['_', 't', 'o', '_'];
    let start1 = decimal(range1.start as nat);
    let start2 = decimal(range2.start as nat);
    let end1 = decimal(range1.end as nat);
    let end2 = decimal(range2.end as nat);
    lemma_decimal_digits(range1.start as nat);
    lemma_decimal_digits(range2.start as nat);
    lemma_decimal_digits(range1.end as nat);
    lemma_decimal_digits(range2.end as nat);
    let whole1 = block_label(range1) + rest1;
    let whole2 = block_label(range2) + rest2;
    let after1 = to + end1 + rest1;
    let after2 = to + end2 + rest2;
    assert(whole1.skip(1) =~= start1 + after1);
    assert(whole2.skip(1) =~= start2 + after2);
    assert(after1[0] == '_');
    assert(after2[0] == '_');
    lemma_split_unique(start1, after1, start2, after2, class);
    lemma_decimal_injective(range1.start as nat, range2.start as nat);
    assert(after1.skip(4) =~= end1 + rest1);
    assert(after2.skip(4) =~= end2 + rest2);
    lemma_split_unique(end1, rest1, end2, rest2, class);
    lemma_decimal_injective(range1.end as nat, range2.end as nat);
}

proof fn lemma_address_items_start(addresses: Seq<Seq<u8>>)
    ensures
        addresses.len() == 0 ==> address_items(addresses).len() == 0,
        addresses.len() > 0 ==> address_items(addresses).len() >= 3 && address_items(
            addresses,
        )[0] == '_' && address_items(addresses)[1] == '0',
{
    if addresses.len() > 0 {
        lemma_hex_text_chars(addresses[0]);
    }
}

proof fn lemma_address_items_prefix(
    addresses1: Seq<Seq<u8>>,
    rest1: Seq<char>,
    addresses2: Seq<Seq<u8>>,
    rest2: Seq<char>,
)
    requires
        address_items(addresses1) + rest1 == address_items(addresses2) + rest2,
        ends_or_separator(rest1),
        ends_or_separator(rest2),
    ensures
        addresses1 == addresses2,
        rest1 == rest2,
    decreases addresses1.len(),
{
    lemma_address_items_start(addresses1);
    lemma_address_items_start(addresses2);
    let whole1 = address_items(addresses1) + rest1;
    let whole2 = address_items(addresses2) + rest2;
    if addresses1.len() == 0 && addresses2.len() == 0 {
        assert(whole1 =~= rest1);
        assert(whole2 =~= rest2);
        assert(addresses1 =~= addresses2);
    } else if addresses1.len() == 0 {
        assert(whole1 =~= rest1);
        assert(whole2[1] == '0');
        assert(false);
    } else if addresses2.len() == 0 {
        assert(whole2 =~= rest2);
        assert(whole1[1] == '0');
        assert(false);
    } else {
        let class = |c: char| c != '_';
        let hex1 = hex_text(addresses1[0]);
        let hex2 = hex_text(addresses2[0]);
        let tail1 = addresses1.skip(1);
        let tail2 = addresses2.skip(1);
        let after1 = address_items(tail1) + rest1;
        let after2 = address_items(tail2) + rest2;
        lemma_hex_text_chars(addresses1[0]);
        lemma_hex_text_chars(addresses2[0]);
        lemma_address_items_start(tail1);
        lemma_address_items_start(tail2);
        assert(whole1.skip(1) =~= hex1 + after1);
        assert(whole2.skip(1) =~= hex2 + after2);
        lemma_split_unique(hex1, after1, hex2, after2, class);
        lemma_hex_text_injective(addresses1[0], addresses2[0]);
        lemma_address_items_prefix(tail1, rest1, tail2, rest2);
        assert(addresses1 =~= seq![addresses1[0]] + tail1);
        assert(addresses2 =~= seq![addresses2[0]] + tail2);
    }
}

proof fn lemma_address_items_plain(addresses: Seq<Seq<u8>>)
    ensures
        is_plain(address_items(addresses)),
    decreases addresses.len(),
{
    if addresses.len() > 0 {
        lemma_hex_text_plain(addresses[0]);
        lemma_address_items_plain(addresses.skip(1));
        lemma_plain_concat(seq!['_'], hex_text(addresses[0]));
        lemma_plain_concat(
            seq!['_'] + hex_text(addresses[0]),
            address_items(addresses.skip(1)),
        );
    }
}

impl PartitionView {
    /// A label is safe in a file name: it is made of decimal digits,
    /// lower-case letters and `_` alone.
    pub proof fn label_is_plain(self, dims: Seq<Dim>)
        requires
            self.covers(dims),
        ensures
            is_plain(self.label(dims)),
    {
        self.lemma_pieces_plain(dims, true);
    }

    proof fn lemma_piece_plain(self, dim: Dim)
        requires
            self.has_dim(dim),
        ensures
            is_plain(self.piece(dim)),
    {
        match dim {
            Dim::BlockNumber => {
                let range = self.block_numbers->0;
                let to = seq!['_', 't', 'o', '_'];
                lemma_decimal_plain(range.start as nat);
                lemma_decimal_plain(range.end as nat);
                lemma_plain_concat(seq!['b'], decimal(range.start as nat));
                lemma_plain_concat(seq!['b'] + decimal(range.start as nat), to);
                lemma_plain_concat(
                    seq!['b'] + decimal(range.start as nat) + to,
                    decimal(range.end as nat),
                );
            },
            Dim::Address => {
                lemma_address_items_plain(self.addresses->0);
                lemma_plain_concat(seq!['a'], address_items(self.addresses->0));
            },
        }
    }

    proof fn lemma_pieces_plain(self, dims: Seq<Dim>, leading: bool)
        requires
            self.covers(dims),
        ensures
            is_plain(self.pieces(dims, leading)),
        decreases dims.len(),
    {
        if dims.len() > 0 {
            let tail = dims.skip(1);
            let lead: Seq<char> = if leading {
                Seq::empty()
            } else {
                seq!['_', '_']
            };
            assert(self.has_dim(dims[0]));
            assert forall|i: int| 0 <= i < tail.len() implies self.has_dim(#[trigger] tail[i]) by {
                assert(tail[i] == dims[i + 1]);
            }
            self.lemma_pieces_plain(tail, false);
            self.lemma_piece_plain(dims[0]);
            lemma_plain_concat(lead, self.piece(dims[0]));
            lemma_plain_concat(lead + self.piece(dims[0]), self.pieces(tail, false));
        }
    }

    /// Whether two partitions hold the same values along `dim`.
    pub open spec fn same_along(self, other: PartitionView, dim: Dim) -> bool {
        match dim {
            Dim::BlockNumber => self.block_numbers == other.block_numbers,
            Dim::Address => self.addresses == other.addresses,
        }
    }

    proof fn lemma_pieces_start(self, dims: Seq<Dim>)
        ensures
            ends_or_separator(self.pieces(dims, false)),
    {
    }

    proof fn lemma_pieces_injective(self, other: PartitionView, dims: Seq<Dim>, leading: bool)
        requires
            self.covers(dims),
            other.covers(dims),
            self.pieces(dims, leading) == other.pieces(dims, leading),
        ensures
            forall|i: int| 0 <= i < dims.len() ==> self.same_along(other, #[trigger] dims[i]),
        decreases dims.len(),
    {
        if dims.len() > 0 {
            let dim = dims[0];
            let tail = dims.skip(1);
            let rest1 = self.pieces(tail, false);
            let rest2 = other.pieces(tail, false);
            let lead: Seq<char> = if leading {
                Seq::empty()
            } else {
                seq!['_', '_']
            };
            self.lemma_pieces_start(tail);
            other.lemma_pieces_start(tail);
            assert(self.has_dim(dims[0]) && other.has_dim(dims[0]));
            let whole1 = self.pieces(dims, leading);
            let whole2 = other.pieces(dims, leading);
            assert(whole1.skip(lead.len() as int) =~= self.piece(dim) + rest1);
            assert(whole2.skip(lead.len() as int) =~= other.piece(dim) + rest2);
            match dim {
                Dim::BlockNumber => {
                    lemma_block_label_prefix(
                        self.block_numbers->0,
                        rest1,
                        other.block_numbers->0,
                        rest2,
                    );
                },
                Dim::Address => {
                    let items1 = address_items(self.addresses->0);
                    let items2 = address_items(other.addresses->0);
                    assert((self.piece(dim) + rest1).skip(1) =~= items1 + rest1);
                    assert((other.piece(dim) + rest2).skip(1) =~= items2 + rest2);
                    lemma_address_items_prefix(
                        self.addresses->0,
                        rest1,
                        other.addresses->0,
                        rest2,
                    );
                },
            }
            assert(self.same_along(other, dim));
            assert forall|i: int| 0 <= i < tail.len() implies self.has_dim(
                #[trigger] tail[i],
            ) && other.has_dim(tail[i]) by {
                assert(tail[i] == dims[i + 1]);
            }
            self.lemma_pieces_injective(other, tail, false);
            assert forall|i: int| 0 <= i < dims.len() implies self.same_along(
                other,
                #[trigger] dims[i],
            ) by {
                if i > 0 {
                    assert(dims[i] == tail[i - 1]);
                }
            }
        }
    }

    /// Labels tell partitions apart: two partitions that hold different
    /// values along some dimension of `dims`, and are both bounded along all
    /// of them, have different labels along `dims`.
    pub proof fn label_unique(self, other: PartitionView, dims: Seq<Dim>)
        requires
            self.covers(dims),
            other.covers(dims),
            exists|i: int| 0 <= i < dims.len() && !self.same_along(other, #[trigger] dims[i]),
        ensures
            self.label(dims) != other.label(dims),
    {
        if self.label(dims) == other.label(dims) {
            self.lemma_pieces_injective(other, dims, true);
        }
    }
}

} // verus!
