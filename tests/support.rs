use clob_signer::config::{
    default_longshot_interval, default_max_open_positions, default_max_price_cents,
    default_paper_trading, default_scan_interval,
};
use clob_signer::market::{DiscoveryType, ExitType, TradeStatus};
use clob_signer::strategy::{category_keywords, same_text};
use clob_signer::text::truncate;

#[test]
fn config_defaults() {
    assert_eq!(default_max_price_cents(), 10);
    assert_eq!(default_max_open_positions(), 50);
    assert_eq!(default_scan_interval(), 30);
    assert_eq!(default_longshot_interval(), 300);
    assert!(default_paper_trading());
}

#[test]
fn keywords_by_category() {
    assert_eq!(category_keywords("POLITICS")[0], "president");
    assert_eq!(category_keywords("crypto").len(), 12);
    assert_eq!(category_keywords("Economy"), category_keywords("economics"));
    assert_eq!(category_keywords("ai"), category_keywords("tech"));
    assert_eq!(category_keywords("sports")[10], "super bowl");
    assert!(category_keywords("weather").is_empty());
}

#[test]
fn text_comparison() {
    assert!(same_text("abc", "abc"));
    assert!(!same_text("abc", "abd"));
    assert!(!same_text("abc", "ab"));
}

#[test]
fn truncation() {
    assert_eq!(truncate("hello", 10), "hello");
    assert_eq!(truncate("hello", 5), "hello");
    assert_eq!(truncate("hello world", 5), "hello...");
}

#[test]
fn labels() {
    assert_eq!(DiscoveryType::Longshot.label(), "🎯 Longshot");
    assert_eq!(TradeStatus::PaperTrade.label(), "📝 Paper");
    assert_eq!(TradeStatus::Pending.label(), "⏳ Pending");
    assert_eq!(ExitType::PartialExit.label(), "🔄 Partial Exit (50%)");
}
