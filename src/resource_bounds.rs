use vstd::prelude::*;

use crate::felt::{be_value, field_order, Felt};
use crate::native::EntryPointExecutionError;

verus! {

/// Tag of the L1 gas resource: the ASCII text "L1_GAS" as a hex field element.
pub const L1_GAS: &'static str = "0x00000000000000000000000000000000000000000000000000004c315f474153";

/// Tag of the L2 gas resource: "L2_GAS".
pub const L2_GAS: &'static str = "0x00000000000000000000000000000000000000000000000000004c325f474153";

/// Tag of the L1 data gas resource: "L1_DATA".
pub const L1_DATA_GAS: &'static str = "0x000000000000000000000000000000000000000000000000004c315f44415441";

pub open spec fn is_hex_digit(c: char) -> bool {
    ('0' <= c && c <= '9') || ('a' <= c && c <= 'f') || ('A' <= c && c <= 'F')
}

pub open spec fn hex_digit_value(c: char) -> nat {
    if '0' <= c && c <= '9' {
        (c as nat - '0' as nat) as nat
    } else if 'a' <= c && c <= 'f' {
        (c as nat - 'a' as nat + 10) as nat
    } else {
        (c as nat - 'A' as nat + 10) as nat
    }
}

/// The value of a sequence of hex digits, most significant first.
pub open spec fn hex_value(d: Seq<char>) -> nat
    decreases d.len(),
{
    if d.len() == 0 {
        0
    } else {
        hex_value(d.drop_last()) * 16 + hex_digit_value(d.last())
    }
}

/// The digits of a hex string: without a leading `0x` where more follows it.
pub open spec fn hex_body(s: Seq<char>) -> Seq<char> {
    if s.len() > 2 && s[0] == '0' && s[1] == 'x' {
        s.skip(2)
    } else {
        s
    }
}

/// Whether a string is a hex field element: 1 to 64 hex digits after an
/// optional `0x`.
pub open spec fn parses_as_felt_hex(s: Seq<char>) -> bool {
    let d = hex_body(s);
    &&& 1 <= d.len() <= 64
    &&& forall|i: int| 0 <= i < d.len() ==> is_hex_digit(#[trigger] d[i])
}

/// The element of a hex string: its value reduced modulo the field order.
pub open spec fn hex_felt_value(s: Seq<char>) -> nat {
    hex_value(hex_body(s)) % field_order()
}

/// Relies on starknet_types_core's `Felt::from_hex`, which calls lambdaworks'
/// `UnsignedInteger::from_hex`: an optional `0x`, then 1 to 64 hex digits, give
/// the value reduced modulo the field order, returned in canonical form by
/// `Felt::to_bytes_be`; any other string is an error.
#[verifier::external_body]
fn felt_from_hex(s: &str) -> (r: Option<Felt>)
    ensures
        r is Some <==> parses_as_felt_hex(s@),
        r matches Some(f) ==> be_value(f@) == hex_felt_value(s@) && f.wf(),
{
    match starknet_types_core::felt::Felt::from_hex(s) {
        Ok(f) => Some(Felt { bytes: f.to_bytes_be() }),
        Err(_) => None,
    }
}

proof fn lemma_tags_parse()
    ensures
        parses_as_felt_hex(L1_GAS@),
        parses_as_felt_hex(L2_GAS@),
        parses_as_felt_hex(L1_DATA_GAS@),
{
    reveal_strlit("0x00000000000000000000000000000000000000000000000000004c315f474153");
    reveal_strlit("0x00000000000000000000000000000000000000000000000000004c325f474153");
    reveal_strlit("0x000000000000000000000000000000000000000000000000004c315f44415441");
    assert(parses_as_felt_hex(L1_GAS@));
    assert(parses_as_felt_hex(L2_GAS@));
    assert(parses_as_felt_hex(L1_DATA_GAS@));
}

/// The most of one resource that a transaction may use, and its highest price.
#[derive(Clone, Copy, Debug, PartialEq, Eq, Structural)]
pub struct ResourceBounds {
    pub max_amount: u64,
    pub max_price_per_unit: u128,
}

/// Bounds on all three resources.
#[derive(Clone, Copy, Debug, PartialEq, Eq, Structural)]
pub struct AllResourceBounds {
    pub l1_gas: ResourceBounds,
    pub l2_gas: ResourceBounds,
    pub l1_data_gas: ResourceBounds,
}

/// A transaction's resource bounds: on L1 and L2 gas, or on all three resources.
#[derive(Clone, Copy, Debug, PartialEq, Eq, Structural)]
pub enum ValidResourceBounds {
    L1AndL2 { l1_gas: ResourceBounds, l2_gas: ResourceBounds },
    AllResources(AllResourceBounds),
}

impl ValidResourceBounds {
    pub open spec fn l1_spec(&self) -> ResourceBounds {
        match self {
            ValidResourceBounds::L1AndL2 { l1_gas, .. } => *l1_gas,
            ValidResourceBounds::AllResources(a) => a.l1_gas,
        }
    }

    pub open spec fn l2_spec(&self) -> ResourceBounds {
        match self {
            ValidResourceBounds::L1AndL2 { l2_gas, .. } => *l2_gas,
            ValidResourceBounds::AllResources(a) => a.l2_gas,
        }
    }

    /// The bounds on L1 gas.
    pub fn get_l1_bounds(&self) -> (r: ResourceBounds)
        ensures
            r == self.l1_spec(),
    {
        match self {
            ValidResourceBounds::L1AndL2 { l1_gas, .. } => *l1_gas,
            ValidResourceBounds::AllResources(a) => a.l1_gas,
        }
    }

    /// The bounds on L2 gas.
    pub fn get_l2_bounds(&self) -> (r: ResourceBounds)
        ensures
            r == self.l2_spec(),
    {
        match self {
            ValidResourceBounds::L1AndL2 { l2_gas, .. } => *l2_gas,
            ValidResourceBounds::AllResources(a) => a.l2_gas,
        }
    }
}

/// One entry of the bounds exposed to contract code: a resource tag and its bounds.
#[derive(Clone, Copy, Debug)]
pub struct ResourceBoundsEntry {
    pub resource: Felt,
    pub max_amount: u64,
    pub max_price_per_unit: u128,
}

pub open spec fn entry_is(e: ResourceBoundsEntry, tag: &'static str, b: ResourceBounds) -> bool {
    &&& be_value(e.resource@) == hex_felt_value(tag@)
    &&& e.resource.wf()
    &&& e.max_amount == b.max_amount
    &&& e.max_price_per_unit == b.max_price_per_unit
}

/// The bounds exposed to contract code: L1 gas, then L2 gas, then L1 data gas
/// only for bounds on all three resources.
pub fn calculate_resource_bounds(bounds: &ValidResourceBounds) -> (r: Result<
    Vec<ResourceBoundsEntry>,
    EntryPointExecutionError,
>)
    ensures
        r is Ok,
        r matches Ok(v) ==> {
            &&& v@.len() == (if bounds is AllResources { 3int } else { 2int })
            &&& entry_is(v@[0], L1_GAS, bounds.l1_spec())
            &&& entry_is(v@[1], L2_GAS, bounds.l2_spec())
            &&& bounds matches ValidResourceBounds::AllResources(a) ==> entry_is(
                v@[2],
                L1_DATA_GAS,
                a.l1_data_gas,
            )
        },
{
    proof {
        lemma_tags_parse();
    }
    let l1_gas_felt = match felt_from_hex(L1_GAS) {
        Some(f) => f,
        None => return Err(EntryPointExecutionError::EncodingFault),
    };
    let l2_gas_felt = match felt_from_hex(L2_GAS) {
        Some(f) => f,
        None => return Err(EntryPointExecutionError::EncodingFault),
    };
    let l1_data_gas_felt = match felt_from_hex(L1_DATA_GAS) {
        Some(f) => f,
        None => return Err(EntryPointExecutionError::EncodingFault),
    };
    let l1 = bounds.get_l1_bounds();
    let l2 = bounds.get_l2_bounds();
    let mut v: Vec<ResourceBoundsEntry> = Vec::new();
    v.push(
        ResourceBoundsEntry {
            resource: l1_gas_felt,
            max_amount: l1.max_amount,
            max_price_per_unit: l1.max_price_per_unit,
        },
    );
    v.push(
        ResourceBoundsEntry {
            resource: l2_gas_felt,
            max_amount: l2.max_amount,
            max_price_per_unit: l2.max_price_per_unit,
        },
    );
    if let ValidResourceBounds::AllResources(a) = bounds {
        v.push(
            ResourceBoundsEntry {
                resource: l1_data_gas_felt,
                max_amount: a.l1_data_gas.max_amount,
                max_price_per_unit: a.l1_data_gas.max_price_per_unit,
            },
        );
    }
    Ok(v)
}

} // verus!
