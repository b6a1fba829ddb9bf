//! Outbound notification side channel.
//!
//! Persistence produces an ordered list of notification requests; delivering
//! them is a best-effort concern of the surrounding process and can never
//! affect the materialization result.  The request shapes and target paths
//! are fixed here; the transport and its credentials are injected by the
//! caller.

use vstd::prelude::*;

use crate::accounts::Spin;
use crate::numeric::dec_digits_of_i64;
use crate::numeric::i64_to_dec;

verus! {

/// One outbound notification request, in the order it is to be attempted.
#[derive(Clone, Debug, PartialEq)]
pub enum Notification {
    /// A token was created; carries the token's pre-graduation address.
    TokenCreated { addr: String },
    /// A trade was executed; carries its transaction version.
    TokenTraded { txn_version: i64 },
    /// A spin outcome; carries the whole merge record.
    SpinWin { spin: Spin },
}

/// Body of the spin-outcome request as the collaborating backend expects it.
#[derive(Clone, Debug, PartialEq)]
pub struct SpinWinRequest {
    pub user: String,
    pub amount: i64,
    pub win_type: i32,
}

impl SpinWinRequest {
    /// The request body for one spin merge record.
    pub fn from_spin(spin: &Spin) -> (r: SpinWinRequest)
        ensures
            r.user == spin.claimer,
            r.amount == spin.amount,
            r.win_type == spin.win_type,
    {
        SpinWinRequest {
            user: spin.claimer.clone(),
            amount: spin.amount,
            win_type: spin.win_type,
        }
    }
}

/// The notifier's explicit configuration, injected at construction: the
/// collaborating backend's base URL and the access token sent with each
/// request.
pub struct NotifierConfig {
    pub base_url: String,
    pub access_token: String,
}

impl NotifierConfig {
    pub fn new(base_url: String, access_token: String) -> (r: NotifierConfig)
        ensures
            r.base_url == base_url,
            r.access_token == access_token,
    {
        NotifierConfig { base_url, access_token }
    }

    /// Target URL of a token-creation notification.
    pub fn token_created_url(&self, addr: &str) -> (r: String)
        ensures
            r@ == self.base_url@ + "/api/indexer/created/"@ + addr@,
    {
        let mut s = self.base_url.clone();
        s.append("/api/indexer/created/");
        s.append(addr);
        proof {
            assert(s@ =~= self.base_url@ + "/api/indexer/created/"@ + addr@);
        }
        s
    }

    /// Target URL of a trade notification, carrying the transaction version
    /// as its canonical decimal numeral.
    pub fn token_traded_url(&self, txn_version: i64) -> (r: String)
        ensures
            r@ == self.base_url@ + "/api/indexer/traded/"@ + dec_digits_of_i64(
                txn_version as int,
            ),
    {
        let mut s = self.base_url.clone();
        s.append("/api/indexer/traded/");
        let digits = i64_to_dec(txn_version);
        s.append(digits.as_str());
        proof {
            assert(s@ =~= self.base_url@ + "/api/indexer/traded/"@ + dec_digits_of_i64(
                txn_version as int,
            ));
        }
        s
    }

    /// Target URL of a spin-outcome notification; its payload is the
    /// `SpinWinRequest` body.
    pub fn spin_url(&self) -> (r: String)
        ensures
            r@ == self.base_url@ + "/api/indexer/spin"@,
    {
        let mut s = self.base_url.clone();
        s.append("/api/indexer/spin");
        s
    }
}

} // verus!
