//! Contract identification by address, and the offset indices of known contracts.

use vstd::prelude::*;

use crate::arena::Address;
use crate::offsets::{decode, latest_table, OffsetIndex};

verus! {

/// A contract whose name is known, at the address it runs at.
pub struct IdentifiedContract {
    pub address: Address,
    pub name: String,
}

/// The contracts identified in a trace; an address not listed is unidentified.
pub struct ContractRegistry {
    pub contracts: Vec<IdentifiedContract>,
}

/// Entry `i` is the first entry of `contracts` listed for `address`.
pub open spec fn first_listed(contracts: Seq<IdentifiedContract>, address: Address, i: int) -> bool {
    &&& 0 <= i < contracts.len()
    &&& contracts[i].address == address
    &&& forall|k: int| 0 <= k < i ==> (#[trigger] contracts[k]).address != address
}

/// `ix` is the index of the contract named `name`, for the variant chosen by
/// `is_create`, in the table `maps`.
pub open spec fn listed_index(
    maps: Seq<ContractOffsets>,
    name: Seq<char>,
    is_create: bool,
    ix: OffsetIndex,
) -> bool {
    exists|k: int|
        0 <= k < maps.len() && maps[k].name@ == name && (if is_create {
            maps[k].creation == Some(ix)
        } else {
            maps[k].deployed == Some(ix)
        })
}

/// The table `maps` holds no index of the contract named `name` for the
/// variant chosen by `is_create`.
pub open spec fn no_index(maps: Seq<ContractOffsets>, name: Seq<char>, is_create: bool) -> bool {
    forall|k: int|
        0 <= k < maps.len() && (#[trigger] maps[k]).name@ == name ==> (if is_create {
            maps[k].creation.is_none()
        } else {
            maps[k].deployed.is_none()
        })
}

impl ContractRegistry {
    /// A registry that identifies no address.
    pub fn new() -> (r: ContractRegistry)
        ensures
            r.contracts@.len() == 0,
    {
        ContractRegistry { contracts: Vec::new() }
    }

    /// Identifies the contract at `address` as `name`.
    pub fn insert(&mut self, address: Address, name: String)
        ensures
            final(self).contracts@ == old(self).contracts@.push(IdentifiedContract { address, name }),
    {
        self.contracts.push(IdentifiedContract { address, name });
    }

    /// The name of the contract at `address`: the first one listed for it, or
    /// `None` when the address is unidentified.
    pub fn contract_name(&self, address: Address) -> (r: Option<&String>)
        ensures
            match r {
                Some(n) => exists|i: int|
                    first_listed(self.contracts@, address, i) && self.contracts@[i].name == *n,
                None => forall|i: int|
                    0 <= i < self.contracts@.len() ==> (#[trigger] self.contracts@[i]).address
                        != address,
            },
    {
        let mut i: usize = 0;
        while i < self.contracts.len()
            invariant
                i <= self.contracts@.len(),
                forall|k: int| 0 <= k < i ==> (#[trigger] self.contracts@[k]).address != address,
            decreases self.contracts@.len() - i,
        {
            if self.contracts[i].address == address {
                assert(first_listed(self.contracts@, address, i as int));
                return Some(&self.contracts[i].name);
            }
            i += 1;
        }
        None
    }
}

/// The bytecode of one contract, keyed by its name; either variant may be
/// unavailable.
pub struct ContractSource {
    pub name: String,
    pub creation_code: Option<Vec<u8>>,
    pub deployed_code: Option<Vec<u8>>,
}

/// The offset indices of one contract, one per available bytecode variant.
pub struct ContractOffsets {
    pub name: String,
    pub creation: Option<OffsetIndex>,
    pub deployed: Option<OffsetIndex>,
}

/// `ix` is the index of `code` under the latest semantics, present exactly
/// when `code` is.
pub open spec fn indexes(ix: Option<OffsetIndex>, code: Option<Vec<u8>>) -> bool {
    match code {
        Some(c) => ix.is_some() && ix.unwrap()@ == decode(c@, latest_table()),
        None => ix.is_none(),
    }
}

/// A source with at least one bytecode variant available.
pub open spec fn has_code(s: ContractSource) -> bool {
    s.creation_code.is_some() || s.deployed_code.is_some()
}

/// `o` holds the offset indices of source `s`.
pub open spec fn offsets_of(o: ContractOffsets, s: ContractSource) -> bool {
    &&& o.name@ == s.name@
    &&& indexes(o.creation, s.creation_code)
    &&& indexes(o.deployed, s.deployed_code)
}

/// `o` holds the offset indices of one of the first `n` sources, one with
/// available bytecode.
pub open spec fn built_from(o: ContractOffsets, sources: Seq<ContractSource>, n: int) -> bool {
    exists|j: int| 0 <= j < n && has_code(sources[j]) && offsets_of(o, sources[j])
}

fn index_variant(code: &Option<Vec<u8>>) -> (r: Option<OffsetIndex>)
    ensures
        indexes(r, *code),
{
    match code {
        Some(c) => Some(OffsetIndex::new(c.as_slice())),
        None => None,
    }
}

/// Builds the offset indices of every source with available bytecode, in
/// the order of `sources`; sources with no bytecode at all are left out.
pub fn build_offset_indexes(sources: &Vec<ContractSource>) -> (r: Vec<ContractOffsets>)
    ensures
        r@.len() <= sources@.len(),
        forall|k: int| 0 <= k < r@.len() ==> built_from(#[trigger] r@[k], sources@, sources@.len() as int),
        forall|i: int|
            0 <= i < sources@.len() && has_code(#[trigger] sources@[i]) ==> exists|k: int|
                0 <= k < r@.len() && offsets_of(r@[k], sources@[i]),
{
    let mut r: Vec<ContractOffsets> = Vec::new();
    let mut i: usize = 0;
    while i < sources.len()
        invariant
            i <= sources@.len(),
            r@.len() <= i,
            forall|k: int| 0 <= k < r@.len() ==> built_from(#[trigger] r@[k], sources@, i as int),
            forall|j: int|
                0 <= j < i && has_code(#[trigger] sources@[j]) ==> exists|k: int|
                    0 <= k < r@.len() && offsets_of(r@[k], sources@[j]),
        decreases sources@.len() - i,
    {
        let s = &sources[i];
        let ghost prev = r@;
        if s.creation_code.is_some() || s.deployed_code.is_some() {
            let o = ContractOffsets {
                name: s.name.clone(),
                creation: index_variant(&s.creation_code),
                deployed: index_variant(&s.deployed_code),
            };
            let ghost before = r@;
            r.push(o);
            assert(offsets_of(r@[r@.len() - 1], sources@[i as int]));
            assert forall|k: int| 0 <= k < r@.len() implies built_from(#[trigger] r@[k], sources@, i + 1) by {
                if k < before.len() {
                    assert(r@[k] == before[k]);
                    assert(built_from(before[k], sources@, i as int));
                    let j = choose|j: int| 0 <= j < i && has_code(sources@[j]) && offsets_of(before[k], sources@[j]);
                    assert(0 <= j < i + 1 && has_code(sources@[j]) && offsets_of(r@[k], sources@[j]));
                } else {
                    assert(0 <= i < i + 1 && has_code(sources@[i as int]) && offsets_of(r@[k], sources@[i as int]));
                }
            }
            assert forall|j: int| 0 <= j < i + 1 && has_code(#[trigger] sources@[j]) implies exists|k: int|
                0 <= k < r@.len() && offsets_of(r@[k], sources@[j]) by {
                if j < i {
                    let k = choose|k: int| 0 <= k < before.len() && offsets_of(before[k], sources@[j]);
                    assert(r@[k] == before[k]);
                } else {
                    assert(offsets_of(r@[r@.len() - 1], sources@[j]));
                }
            }
        }
        assert forall|k: int| 0 <= k < r@.len() implies built_from(#[trigger] r@[k], sources@, i + 1) by {
            if r@ == prev {
                let j = choose|j: int| 0 <= j < i && has_code(sources@[j]) && offsets_of(r@[k], sources@[j]);
                assert(0 <= j < i + 1 && has_code(sources@[j]) && offsets_of(r@[k], sources@[j]));
            }
        }
        i += 1;
    }
    r
}

/// The offset index of the contract named `name`, for its creation bytecode
/// when `is_create` holds and its deployed bytecode otherwise.
pub fn offsets_for<'a>(maps: &'a Vec<ContractOffsets>, name: &String, is_create: bool) -> (r:
    Option<&'a OffsetIndex>)
    ensures
        match r {
            Some(ix) => listed_index(maps@, name@, is_create, *ix),
            None => no_index(maps@, name@, is_create),
        },
{
    let mut k: usize = 0;
    while k < maps.len()
        invariant
            k <= maps@.len(),
            forall|m: int|
                0 <= m < k && (#[trigger] maps@[m]).name@ == name@ ==> (if is_create {
                    maps@[m].creation.is_none()
                } else {
                    maps@[m].deployed.is_none()
                }),
        decreases maps@.len() - k,
    {
        if maps[k].name == *name {
            let found = if is_create {
                maps[k].creation.as_ref()
            } else {
                maps[k].deployed.as_ref()
            };
            if found.is_some() {
                assert(listed_index(maps@, name@, is_create, *found.unwrap()));
                return found;
            }
        }
        k += 1;
    }
    None
}

} // verus!
