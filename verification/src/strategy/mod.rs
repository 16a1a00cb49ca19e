//! The strategy engine: a reactive core driven by control commands and
//! market-data updates. The scheduling loop that feeds it lives outside
//! the library; every decision it takes is a function here.

pub mod mean_reversion;

use vstd::prelude::*;
use crate::config::StrategyConfig;
use crate::data_model::{MarketDataUpdate, Order};
use mean_reversion::{emitted_signal, MeanReversionStrategy};

verus! {

/// A control command for the strategy engine.
#[derive(Debug, Clone)]
pub enum StrategyControl {
    Start,
    Stop,
    UpdateParams(StrategyConfig),
}

/// The engine's state: a mutable enabled flag and the held policy.
pub struct StrategyEngine {
    pub enabled: bool,
    pub strategy: MeanReversionStrategy,
}

impl StrategyEngine {
    /// An engine over the given configuration, initially running exactly
    /// when the configuration says so.
    pub fn new(config: StrategyConfig) -> (r: StrategyEngine)
        ensures
            r.enabled == config.enabled,
            r.strategy.config == config,
            r.strategy.upper_band == mean_reversion::DEFAULT_UPPER_BAND,
            r.strategy.lower_band == mean_reversion::DEFAULT_LOWER_BAND,
            r.strategy.order_size == mean_reversion::DEFAULT_ORDER_SIZE,
    {
        let enabled = config.enabled;
        StrategyEngine { enabled, strategy: MeanReversionStrategy::new(config) }
    }

    /// Applies one control command: start and stop flip the enabled
    /// flag, a parameter update replaces the held configuration
    /// immediately and leaves the flag alone.
    pub fn handle_control(&mut self, msg: StrategyControl)
        ensures
            match msg {
                StrategyControl::Start => final(self).enabled == true && final(self).strategy
                    == old(self).strategy,
                StrategyControl::Stop => final(self).enabled == false && final(self).strategy
                    == old(self).strategy,
                StrategyControl::UpdateParams(c) => {
                    &&& final(self).enabled == old(self).enabled
                    &&& final(self).strategy.config == c
                    &&& final(self).strategy.upper_band == old(self).strategy.upper_band
                    &&& final(self).strategy.lower_band == old(self).strategy.lower_band
                    &&& final(self).strategy.order_size == old(self).strategy.order_size
                },
            },
    {
        match msg {
            StrategyControl::Start => {
                self.enabled = true;
            },
            StrategyControl::Stop => {
                self.enabled = false;
            },
            StrategyControl::UpdateParams(c) => {
                self.strategy.update_config(c);
            },
        }
    }

    /// Feeds one market-data update to the policy: ignored while the
    /// engine is disabled, otherwise evaluated exactly as
    /// [`emitted_signal`] prescribes.
    pub fn handle_market_data(&mut self, update: &MarketDataUpdate) -> (r: Option<Order>)
        ensures
            final(self).enabled == old(self).enabled,
            final(self).strategy == old(self).strategy,
            !old(self).enabled ==> r is None,
            old(self).enabled ==> emitted_signal(old(self).strategy, *update, r),
    {
        if !self.enabled {
            None
        } else {
            self.strategy.process_market_data(update)
        }
    }
}

} // verus!
