//! Request shapes handed in by the excluded transport layer, carried here
//! as plain data. The transport layer keeps its own serializable copies
//! and converts.

use vstd::prelude::*;

verus! {

/// Paging options of list requests.
#[derive(Clone, Debug, Default)]
pub struct FilterOptions {
    pub page: Option<usize>,
    pub limit: Option<usize>,
}

/// Fields of a new dog record.
#[derive(Clone, Debug)]
pub struct CreateDogSchema {
    pub name: String,
    pub breed: String,
    pub color: String,
    pub location: String,
    pub prooflevel: i32,
}

/// Partial update of a dog record.
#[derive(Clone, Debug)]
pub struct UpdateDogSchema {
    pub name: Option<String>,
    pub breed: Option<String>,
    pub color: Option<String>,
    pub location: Option<String>,
    pub prooflevel: Option<i32>,
}

/// Fields of a new merchant record.
#[derive(Clone, Debug)]
pub struct CreateMerchantSchema {
    pub last_data_hash: String,
}

/// Partial update of a merchant record.
#[derive(Clone, Debug)]
pub struct UpdateMerchantSchema {
    pub last_data_hash: Option<String>,
}

/// Input of an authentication attempt: the hex-encoded hash of the
/// identifying data and the numeric identifier of the microchip.
#[derive(Clone, Debug)]
pub struct ZkpSignInSchema {
    pub embedding_hash: String,
    pub microchip_id: u128,
}

} // verus!
