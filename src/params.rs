//! Transaction and call parameters with their defaults.
use vstd::prelude::*;

verus! {

pub const DEFAULT_GAS_LIMIT: u64 = 1_000_000;

pub const DEFAULT_GAS_PRICE: u64 = 0;

pub const DEFAULT_BYTE_PRICE: u64 = 0;

pub const DEFAULT_MATURITY: u32 = 0;

/// The size of a VM word in bytes.
pub const WORD_SIZE: usize = 8;

/// The number of words an enum's discriminant takes.
pub const ENUM_DISCRIMINANT_WORD_WIDTH: usize = 1;

/// The gas forwarded to a contract call by default.
pub const DEFAULT_FORWARDED_GAS: u64 = 1_000_000;

/// The lower limit when querying spendable coins.
pub const DEFAULT_SPENDABLE_COIN_AMOUNT: u64 = 1_000_000;

pub const CONTRACT_ID_SWAY_NATIVE_TYPE: &'static str = "ContractId";

pub const ADDRESS_SWAY_NATIVE_TYPE: &'static str = "Address";

/// The parameters of a transaction.
#[derive(Debug)]
pub struct TxParameters {
    pub gas_price: u64,
    pub gas_limit: u64,
    pub byte_price: u64,
    pub maturity: u32,
}

/// The parameters of one contract call; an asset is identified by its 32 bytes.
#[derive(Debug)]
pub struct CallParameters {
    pub gas_to_forward: Option<u64>,
    pub amount: u64,
    pub asset_id: [u8; 32],
}

/// The asset id of the base asset: 32 zero bytes.
pub open spec fn is_base_asset(a: [u8; 32]) -> bool {
    forall|i: int| 0 <= i < 32 ==> #[trigger] a[i] == 0u8
}

impl TxParameters {
    /// Each parameter as given, or its default where it is `None`.
    pub fn new(
        gas_price: Option<u64>,
        gas_limit: Option<u64>,
        byte_price: Option<u64>,
        maturity: Option<u32>,
    ) -> (r: Self)
        ensures
            r.gas_price == (match gas_price {
                Some(v) => v,
                None => DEFAULT_GAS_PRICE,
            }),
            r.gas_limit == (match gas_limit {
                Some(v) => v,
                None => DEFAULT_GAS_LIMIT,
            }),
            r.byte_price == (match byte_price {
                Some(v) => v,
                None => DEFAULT_BYTE_PRICE,
            }),
            r.maturity == (match maturity {
                Some(v) => v,
                None => DEFAULT_MATURITY,
            }),
    {
        TxParameters {
            gas_price: match gas_price {
                Some(v) => v,
                None => DEFAULT_GAS_PRICE,
            },
            gas_limit: match gas_limit {
                Some(v) => v,
                None => DEFAULT_GAS_LIMIT,
            },
            byte_price: match byte_price {
                Some(v) => v,
                None => DEFAULT_BYTE_PRICE,
            },
            maturity: match maturity {
                Some(v) => v,
                None => DEFAULT_MATURITY,
            },
        }
    }
}

impl Default for TxParameters {
    /// Every parameter at its default; the transaction is valid at once.
    fn default() -> (r: Self)
        ensures
            r.gas_price == DEFAULT_GAS_PRICE,
            r.gas_limit == DEFAULT_GAS_LIMIT,
            r.byte_price == DEFAULT_BYTE_PRICE,
            r.maturity == DEFAULT_MATURITY,
    {
        TxParameters {
            gas_price: DEFAULT_GAS_PRICE,
            gas_limit: DEFAULT_GAS_LIMIT,
            byte_price: DEFAULT_BYTE_PRICE,
            maturity: DEFAULT_MATURITY,
        }
    }
}

impl CallParameters {
    /// The gas to forward as given; the amount, or zero; the asset, or the
    /// base asset.
    pub fn new(gas_to_forward: Option<u64>, amount: Option<u64>, asset_id: Option<[u8; 32]>) -> (r: Self)
        ensures
            r.gas_to_forward == gas_to_forward,
            r.amount == (match amount {
                Some(v) => v,
                None => 0,
            }),
            asset_id is Some ==> r.asset_id == asset_id->Some_0,
            asset_id is None ==> is_base_asset(r.asset_id),
    {
        CallParameters {
            gas_to_forward,
            amount: match amount {
                Some(v) => v,
                None => 0,
            },
            asset_id: match asset_id {
                Some(a) => a,
                None => [0u8; 32],
            },
        }
    }
}

impl Default for CallParameters {
    /// No gas limit of its own, no amount, the base asset.
    fn default() -> (r: Self)
        ensures
            r.gas_to_forward is None,
            r.amount == 0,
            is_base_asset(r.asset_id),
    {
        CallParameters { gas_to_forward: None, amount: 0, asset_id: [0u8; 32] }
    }
}

/// A compiled script and the network it targets.
#[derive(Debug, Clone)]
pub struct CompiledScript {
    pub raw: Vec<u8>,
    pub target_network_url: String,
}

} // verus!
