use vstd::prelude::*;

verus! {

#[derive(Debug, Clone, PartialEq, Eq)]
pub enum DomainError {
    InvalidMarketData(String),
    StrategyError(String),
    PortfolioError(String),
    RiskLimitExceeded(String),
    InsufficientFunds(String),
    InvalidOrder(String),
}

#[derive(Debug, Clone, Copy, PartialEq, Eq, Structural, Hash)]
pub enum EventType {
    MarketDataUpdated,
    PriceAlert,
    OrderPlaced,
    OrderFilled,
    OrderCancelled,
    PositionOpened,
    PositionClosed,
    PortfolioRebalanced,
    SignalGenerated,
    StrategyActivated,
    StrategyDeactivated,
    RiskLimitTriggered,
    StopLossTriggered,
}

#[derive(Debug, Clone, Copy, PartialEq, Eq, Structural)]
pub enum OrderType {
    Market,
    Limit,
    StopLoss,
    TakeProfit,
}

#[derive(Debug, Clone, Copy, PartialEq, Eq, Structural)]
pub enum OrderSide {
    Buy,
    Sell,
}

#[derive(Debug, Clone, Copy, PartialEq, Eq, Structural)]
pub enum OrderStatus {
    Pending,
    Open,
    PartiallyFilled,
    Filled,
    Cancelled,
    Rejected,
}

#[derive(Debug, Clone, Copy, PartialEq, Eq, Structural)]
pub enum SignalAction {
    Buy,
    Sell,
    Hold,
}

#[derive(Debug, Clone, Copy, PartialEq, Eq, Structural)]
pub enum RiskLevel {
    Low,
    Medium,
    High,
}

/// The backtest engine; it holds no state yet.
pub struct BacktestEngine {}

impl BacktestEngine {
    pub fn new() -> (r: BacktestEngine) {
        BacktestEngine {  }
    }
}

/// The trading engine; it holds no state yet.
pub struct TradingEngine {}

impl TradingEngine {
    pub fn new() -> (r: TradingEngine) {
        TradingEngine {  }
    }
}

/// The mail notifier; it holds no configuration yet.
pub struct EmailNotificationService {}

impl EmailNotificationService {
    pub fn new() -> (r: EmailNotificationService) {
        EmailNotificationService {  }
    }
}

/// The HTTP interface; it holds no services yet.
pub struct ApiServer {}

impl ApiServer {
    pub fn new() -> (r: ApiServer) {
        ApiServer {  }
    }
}

} // verus!
