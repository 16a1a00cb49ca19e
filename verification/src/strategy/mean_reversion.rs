//! The reference mean-reversion policy: compare the last traded price
//! against two static bands and emit at most one opposing limit order
//! per update.

use vstd::prelude::*;
use crate::config::StrategyConfig;
use crate::data_model::{MarketDataUpdate, Order, OrderType, Side, TimeInForce};
use crate::oms::order::OrderState;

verus! {

/// The band above which an update triggers a sell, unless reconfigured
/// (25 000 whole units).
pub const DEFAULT_UPPER_BAND: i64 = 2_500_000_000_000;

/// The band below which an update triggers a buy, unless reconfigured
/// (19 000 whole units).
pub const DEFAULT_LOWER_BAND: i64 = 1_900_000_000_000;

/// The fixed quantity of every emitted order (0.0001 whole units).
pub const DEFAULT_ORDER_SIZE: i64 = 10_000;

/// The mean-reversion policy and its parameters. Evaluation is a pure
/// function of this state and the incoming update, so the policy can be
/// swapped without touching the engine loop.
pub struct MeanReversionStrategy {
    pub config: StrategyConfig,
    pub upper_band: i64,
    pub lower_band: i64,
    pub order_size: i64,
}

/// What the policy emits for `update` in state `s`: a sell limit order
/// at the last price when it is above the upper band, a buy when it is
/// below the lower band, nothing inside the band, nothing when the
/// policy is disabled or not selected, and never more than one order.
pub open spec fn emitted_signal(
    s: MeanReversionStrategy,
    update: MarketDataUpdate,
    r: Option<Order>,
) -> bool {
    match update.last_price {
        None => r is None,
        Some(p) => {
            let active = s.config.enabled && s.config.name@ == "MeanReversion"@;
            if p > s.upper_band && active {
                r matches Some(o) && o.symbol == update.symbol && o.side == Side::Sell
                    && o.order_type == OrderType::Limit && o.quantity == s.order_size && o.price
                    == Some(p) && o.tif == TimeInForce::GTC && o.state == OrderState::New
            } else if p < s.lower_band && active {
                r matches Some(o) && o.symbol == update.symbol && o.side == Side::Buy
                    && o.order_type == OrderType::Limit && o.quantity == s.order_size && o.price
                    == Some(p) && o.tif == TimeInForce::GTC && o.state == OrderState::New
            } else {
                r is None
            }
        },
    }
}

impl MeanReversionStrategy {
    /// A policy over the given configuration, with the default bands and
    /// order size.
    pub fn new(config: StrategyConfig) -> (r: MeanReversionStrategy)
        ensures
            r.config == config,
            r.upper_band == DEFAULT_UPPER_BAND,
            r.lower_band == DEFAULT_LOWER_BAND,
            r.order_size == DEFAULT_ORDER_SIZE,
    {
        MeanReversionStrategy {
            config,
            upper_band: DEFAULT_UPPER_BAND,
            lower_band: DEFAULT_LOWER_BAND,
            order_size: DEFAULT_ORDER_SIZE,
        }
    }

    /// Evaluates the policy on one update. The state is left untouched;
    /// the emitted order, if any, is exactly what [`emitted_signal`]
    /// prescribes.
    pub fn process_market_data(&mut self, update: &MarketDataUpdate) -> (r: Option<Order>)
        ensures
            *final(self) == *old(self),
            emitted_signal(*old(self), *update, r),
    {
        let selected: String = "MeanReversion".to_owned();
        match update.last_price {
            None => None,
            Some(p) => {
                let active = self.config.enabled && self.config.name == selected;
                if p > self.upper_band && active {
                    Some(
                        Order::new(
                            update.symbol.clone(),
                            Side::Sell,
                            OrderType::Limit,
                            self.order_size,
                            Some(p),
                            TimeInForce::GTC,
                        ),
                    )
                } else if p < self.lower_band && active {
                    Some(
                        Order::new(
                            update.symbol.clone(),
                            Side::Buy,
                            OrderType::Limit,
                            self.order_size,
                            Some(p),
                            TimeInForce::GTC,
                        ),
                    )
                } else {
                    None
                }
            },
        }
    }

    /// Replaces the held configuration; the next evaluation uses the new
    /// parameters.
    pub fn update_config(&mut self, new_config: StrategyConfig)
        ensures
            final(self).config == new_config,
            final(self).upper_band == old(self).upper_band,
            final(self).lower_band == old(self).lower_band,
            final(self).order_size == old(self).order_size,
    {
        self.config = new_config;
    }

    /// Reconfigures the two bands and the emitted order size.
    pub fn set_bands(&mut self, upper_band: i64, lower_band: i64, order_size: i64)
        ensures
            final(self).config == old(self).config,
            final(self).upper_band == upper_band,
            final(self).lower_band == lower_band,
            final(self).order_size == order_size,
    {
        self.upper_band = upper_band;
        self.lower_band = lower_band;
        self.order_size = order_size;
    }
}

} // verus!
