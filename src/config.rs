//! Default trading limits of the agent that drives the client.

use vstd::prelude::*;

verus! {

/// Highest price, in cents, at which the agent buys.
pub const MAX_PRICE_CENTS: u32 = 10;

/// Most positions held open at once.
pub const MAX_OPEN_POSITIONS: usize = 50;

/// Seconds between scans for new markets.
pub const SCAN_INTERVAL_SECS: u64 = 30;

/// Seconds between full scans for long-shot markets.
pub const LONGSHOT_INTERVAL_SECS: u64 = 300;

/// Default highest buying price, in cents.
pub fn default_max_price_cents() -> (r: u32)
    ensures
        r == MAX_PRICE_CENTS,
{
    MAX_PRICE_CENTS
}

/// Default limit on open positions.
pub fn default_max_open_positions() -> (r: usize)
    ensures
        r == MAX_OPEN_POSITIONS,
{
    MAX_OPEN_POSITIONS
}

/// Default interval between scans for new markets.
pub fn default_scan_interval() -> (r: u64)
    ensures
        r == SCAN_INTERVAL_SECS,
{
    SCAN_INTERVAL_SECS
}

/// Default interval between full long-shot scans.
pub fn default_longshot_interval() -> (r: u64)
    ensures
        r == LONGSHOT_INTERVAL_SECS,
{
    LONGSHOT_INTERVAL_SECS
}

/// Paper trading (no real orders) is on unless switched off.
pub fn default_paper_trading() -> (r: bool)
    ensures
        r,
{
    true
}

} // verus!
