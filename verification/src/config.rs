//! Configuration and request payloads handed across the unverified
//! boundary.  The values are read from the environment and from HTTP
//! bodies outside the library; here they are plain data.

use vstd::prelude::*;

verus! {

/// The backend's runtime configuration.
pub struct AppConfig {
    pub rpc_url: String,
    pub program_id: String,
    pub admin_keypair: String,
    pub backend_port: u16,
}

/// The body of a claim-record request: after the wallet signs and
/// submits the on-chain claim, the backend records the payout and marks
/// the bet claimed.
pub struct ClaimRecordBody {
    pub market_id: i64,
    pub wallet: String,
    pub tx_sig: String,
}

/// The body of a treasury-funding request.
pub struct FundBody {
    pub lamports: u64,
}

} // verus!
