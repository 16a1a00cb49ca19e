//! The structured configuration the core is handed: the feed to
//! subscribe to and the strategy's parameters. Loading and default-file
//! creation are an outside collaborator's job; the core only defines the
//! shape and its built-in default.

use vstd::prelude::*;

verus! {

/// Where the market-data feed lives and which symbols interest us.
#[derive(Debug, Clone)]
pub struct MarketDataConfig {
    pub websocket_url: String,
    pub symbols: Vec<String>,
}

/// The strategy's live-reloadable parameters. The threshold is a
/// relative band width scaled by [`crate::fixed::PRICE_SCALE`].
#[derive(Debug, Clone)]
pub struct StrategyConfig {
    pub enabled: bool,
    pub name: String,
    pub mean_reversion_threshold: i64,
}

/// The whole configuration document.
#[derive(Debug, Clone)]
pub struct AppConfig {
    pub market_data: MarketDataConfig,
    pub strategy: StrategyConfig,
}

impl AppConfig {
    /// The built-in default: the public trade stream, two majors, and
    /// the mean-reversion strategy enabled with a half-percent band.
    pub fn default() -> (r: AppConfig)
        ensures
            r.market_data.websocket_url@ == "wss://stream.binance.com:9443/ws/btcusdt@trade"@,
            r.market_data.symbols@.len() == 2,
            r.market_data.symbols@[0]@ == "BTCUSD"@,
            r.market_data.symbols@[1]@ == "ETHUSD"@,
            r.strategy.enabled == true,
            r.strategy.name@ == "MeanReversion"@,
            r.strategy.mean_reversion_threshold == 500_000,
    {
        let mut symbols: Vec<String> = Vec::new();
        symbols.push("BTCUSD".to_owned());
        symbols.push("ETHUSD".to_owned());
        AppConfig {
            market_data: MarketDataConfig {
                websocket_url: "wss://stream.binance.com:9443/ws/btcusdt@trade".to_owned(),
                symbols,
            },
            strategy: StrategyConfig {
                enabled: true,
                name: "MeanReversion".to_owned(),
                mean_reversion_threshold: 500_000,
            },
        }
    }
}

} // verus!
