//! The YieldLadder savings protocol: tier vaults, a router in front of them, a
//! strategy vault that deploys their capital, timelocked governance with a
//! multisig guardian, and transferable position receipts.  Each contract is a
//! state type here whose operations return what the ledger must authorise,
//! transfer and call, with contracts that say exactly what every operation does.

pub mod address;
pub mod arith;
pub mod effects;
pub mod governance;
pub mod guardian_multisig;
pub mod keyed_map;
pub mod position_token;
pub mod strategy_vault;
pub mod vault_l3;
pub mod vault_router;
