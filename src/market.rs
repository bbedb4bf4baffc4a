//! Kinds that the agent around the client records and reports: how a
//! market was found, how a trade stands, how a position is left.

use vstd::prelude::*;
use vstd::string::StringExecFns;

verus! {

/// How a market opportunity was discovered.
#[derive(Debug, Clone, Copy, PartialEq, Eq)]
pub enum DiscoveryType {
    NewMarket,
    Longshot,
    VolumeSurge,
    Mispriced,
}

/// Where a trade stands.
#[derive(Debug, Clone, Copy, PartialEq, Eq)]
pub enum TradeStatus {
    Pending,
    Filled,
    PartialFill,
    Cancelled,
    Failed,
    PaperTrade,
}

/// How much of a position an exit signal sells.
#[derive(Debug, Clone, Copy, PartialEq, Eq)]
pub enum ExitType {
    FullExit,
    PartialExit,
}

/// An event a market belongs to, as the market listing gives it.
pub struct GammaEvent {
    pub slug: Option<String>,
    pub title: Option<String>,
}

/// The display label of a discovery type.
pub open spec fn discovery_label(d: DiscoveryType) -> Seq<char> {
    match d {
        DiscoveryType::NewMarket => "🆕 New Market"@,
        DiscoveryType::Longshot => "🎯 Longshot"@,
        DiscoveryType::VolumeSurge => "📈 Volume Surge"@,
        DiscoveryType::Mispriced => "⚡ Mispriced"@,
    }
}

/// The display label of a trade status.
pub open spec fn trade_status_label(s: TradeStatus) -> Seq<char> {
    match s {
        TradeStatus::Pending => "⏳ Pending"@,
        TradeStatus::Filled => "✅ Filled"@,
        TradeStatus::PartialFill => "🔄 Partial"@,
        TradeStatus::Cancelled => "❌ Cancelled"@,
        TradeStatus::Failed => "💀 Failed"@,
        TradeStatus::PaperTrade => "📝 Paper"@,
    }
}

/// The display label of an exit type.
pub open spec fn exit_label(e: ExitType) -> Seq<char> {
    match e {
        ExitType::FullExit => "🎯 Full Exit"@,
        ExitType::PartialExit => "🔄 Partial Exit (50%)"@,
    }
}

impl DiscoveryType {
    /// The label shown for this discovery type.
    pub fn label(&self) -> (r: String)
        ensures
            r@ == discovery_label(*self),
    {
        match self {
            DiscoveryType::NewMarket => String::from_str("🆕 New Market"),
            DiscoveryType::Longshot => String::from_str("🎯 Longshot"),
            DiscoveryType::VolumeSurge => String::from_str("📈 Volume Surge"),
            DiscoveryType::Mispriced => String::from_str("⚡ Mispriced"),
        }
    }
}

impl TradeStatus {
    /// The label shown for this status.
    pub fn label(&self) -> (r: String)
        ensures
            r@ == trade_status_label(*self),
    {
        match self {
            TradeStatus::Pending => String::from_str("⏳ Pending"),
            TradeStatus::Filled => String::from_str("✅ Filled"),
            TradeStatus::PartialFill => String::from_str("🔄 Partial"),
            TradeStatus::Cancelled => String::from_str("❌ Cancelled"),
            TradeStatus::Failed => String::from_str("💀 Failed"),
            TradeStatus::PaperTrade => String::from_str("📝 Paper"),
        }
    }
}

impl ExitType {
    /// The label shown for this exit type.
    pub fn label(&self) -> (r: String)
        ensures
            r@ == exit_label(*self),
    {
        match self {
            ExitType::FullExit => String::from_str("🎯 Full Exit"),
            ExitType::PartialExit => String::from_str("🔄 Partial Exit (50%)"),
        }
    }
}

} // verus!
