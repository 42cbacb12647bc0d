//! Chain-wide protocol parameters and their documented defaults.

use vstd::prelude::*;
use crate::address::{Address, parse_hex_address, hex_decode, all_hex_digits};
use cfx_types::U256;

verus! {

#[verifier::external_type_specification]
#[verifier::external_body]
pub struct ExU256(U256);

/// The 256-bit unsigned integer whose value is `v`.
pub uninterp spec fn u256_of(v: u64) -> U256;

/// Relies on `From<u64>` for `cfx_types::U256` (uint 0.8): the value is carried
/// over unchanged.
#[verifier::external_body]
fn u256_from(v: u64) -> (r: U256)
    ensures
        r == u256_of(v),
{
    U256::from(v)
}

/// Ordinal position of a block or epoch.
pub type CardinalNumber = u64;

/// Chain-wide constants, fixed for the lifetime of a machine.
#[derive(Debug, PartialEq, Default)]
pub struct CommonParams {
    /// Account start nonce.
    pub account_start_nonce: U256,
    /// Maximum size of extra data.
    pub maximum_extra_data_size: usize,
    /// Network id.
    pub network_id: u64,
    /// Chain id.
    pub chain_id: u64,
    /// Main subprotocol name.
    pub subprotocol_name: String,
    /// Minimum gas limit.
    pub min_gas_limit: U256,
    /// Gas limit bound divisor (how much gas limit can change per block).
    pub gas_limit_bound_divisor: U256,
    /// Registrar contract address.
    pub registrar: Address,
    /// Node permission managing contract address.
    pub node_permission_contract: Option<Address>,
    /// Maximum contract code size that can be deployed.
    pub max_code_size: u64,
    /// Number of the first block where the max code size limit is active.
    pub max_code_size_transition: CardinalNumber,
    /// Maximum size of a transaction's RLP payload.
    pub max_transaction_size: usize,
}

/// The registrar contract address of the default parameters, byte by byte.
pub open spec fn default_registrar() -> Seq<u8> {
    seq![
        0xc6u8, 0xd9, 0xd2, 0xcd, 0x44, 0x9a, 0x75, 0x4c, 0x49, 0x42,
        0x64, 0xe1, 0x80, 0x9c, 0x50, 0xe3, 0x4d, 0x64, 0x56, 0x2b,
    ]
}

impl CommonParams {
    /// Whether these are the documented default parameters.
    pub open spec fn is_default(&self) -> bool {
        &&& self.account_start_nonce == u256_of(0)
        &&& self.maximum_extra_data_size == 0x20
        &&& self.network_id == 1
        &&& self.chain_id == 1
        &&& self.subprotocol_name@ == seq!['c', 'f', 'x']
        &&& self.min_gas_limit == u256_of(0x1387)
        &&& self.gas_limit_bound_divisor == u256_of(0x0400)
        &&& self.registrar@ == default_registrar()
        &&& self.node_permission_contract is None
        &&& self.max_code_size == 24576
        &&& self.max_code_size_transition == 0
        &&& self.max_transaction_size == 300 * 1024
    }

    /// The documented default parameters.
    pub fn common_params() -> (r: Self)
        ensures
            r.is_default(),
    {
        let registrar_hex = "c6d9d2cd449a754c494264e1809c50e34d64562b";
        proof {
            reveal_strlit("c6d9d2cd449a754c494264e1809c50e34d64562b");
            assert(all_hex_digits(registrar_hex@));
            assert(hex_decode(registrar_hex@) =~= default_registrar());
        }
        // Forty hex digits always parse, so the fallback is never taken.
        let registrar = match parse_hex_address(registrar_hex) {
            Some(a) => a,
            None => Address([0u8; 20]),
        };
        let name = String::from_str("cfx");
        proof {
            reveal_strlit("cfx");
            assert(name@ == seq!['c', 'f', 'x']);
            assert(registrar@ == default_registrar());
        }
        CommonParams {
            account_start_nonce: u256_from(0x00),
            maximum_extra_data_size: 0x20,
            network_id: 0x1,
            chain_id: 0x1,
            subprotocol_name: name,
            min_gas_limit: u256_from(0x1387),
            gas_limit_bound_divisor: u256_from(0x0400),
            registrar,
            node_permission_contract: None,
            max_code_size: 24576,
            max_code_size_transition: 0,
            max_transaction_size: 300 * 1024,
        }
    }
}

} // verus!
