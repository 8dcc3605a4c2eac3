//! The in-memory core of a position-management engine for leveraged
//! trading: the quote cache, the stores of active positions and pending
//! orders with their indices, the pricing of a position, and what a quote or
//! a command does to them.
//!
//! Prices and amounts are fixed-point numbers (see [`amounts`]); times are
//! microseconds since the Unix epoch. Nothing here reads a clock or
//! publishes anything: every function takes the time as an argument and hands
//! the events to publish back to its caller, which holds the stores for as
//! long as the change and its events belong together. A command that comes
//! without an id gets a fresh one from the `uuid` crate.

pub mod active_positions_cache;
pub mod active_positions_store;
pub mod active_prices_cache;
pub mod amounts;
pub mod bid_ask;
pub mod bid_ask_subscriber;
pub mod cancel_pending;
pub mod close_position;
pub mod commands;
pub mod dto;
pub mod engine_model;
pub mod events;
pub mod execute_pending_positions;
pub mod handle_position_margin_call;
pub mod id_order;
pub mod laws;
pub mod open_pending;
pub mod open_position;
pub mod pending;
pub mod pending_positions_cache;
pub mod position;
pub mod position_impl;
pub mod positions_store_index;
pub mod process_topping_up_refund;
pub mod query;
pub mod startup;
pub mod string_map;
pub mod update_position;

pub use crate::active_positions_cache::{update_position_case, ActivePositionsCache};
pub use crate::active_positions_store::ActivePositionsStore;
pub use crate::active_prices_cache::ActivePricesCache;
pub use crate::amounts::{
    compute_profit, is_loss_reached, is_volume_within, Conversion, HUNDRED_PERCENT, MAX_PRICE,
    MAX_PROFIT, MAX_VOLUME, SCALE,
};
pub use crate::bid_ask::{get_close_price, get_open_price, EngineBidAsk};
pub use crate::bid_ask_subscriber::{
    handle_active_positions_update_bid_ask, handle_bid_ask_message,
    handle_pending_positions_update, handle_prices_update_bid_ask,
};
pub use crate::cancel_pending::{cancel_pending, cancel_pending_with_process_id};
pub use crate::close_position::{close_position, close_position_background};
pub use crate::commands::{PositionOpenCommand, PositionOpenPendingCommand};
pub use crate::dto::{
    EngineError, ExecutionClosePositionReason, ExecutionPendingOrderType, PositionSide,
};
pub use crate::events::{
    Applied, EngineEvent, PositionManagerPositionMarginCallHit, PositionsReturnToppingUp,
    PositionsToCloseDto, UpdatePositionCase,
};
pub use crate::execute_pending_positions::{
    confirm_pending_execution, confirm_pending_execution_with_process_id,
    execute_pending, execute_pending_position, handle_pending_rdy_to_execute,
};
pub use crate::handle_position_margin_call::handle_position_margin_call;
pub use crate::open_pending::{create_pending_position, open_pending, open_pending_with_id};
pub use crate::open_position::{make_active_position, open_position, open_position_with_id};
pub use crate::pending::{get_pending_position_type, is_ready_to_execute_pending_position};
pub use crate::pending_positions_cache::PendingPositionsCache;
pub use crate::position::{
    ActivePositionState, ClosedPositionStates, EnginePosition, EnginePositionBase,
    EnginePositionState, EnginePositionSwap, EnginePositionSwaps, PendingPositionState,
};
pub use crate::positions_store_index::{PositionsStoreIndex, PositionsStoreIndexAccessor};
pub use crate::process_topping_up_refund::process_topping_up_refund;
pub use crate::query::EngineCacheQueryBuilder;
pub use crate::startup::{
    get_active_prices, load_prices_cache, restore_active_position, restore_pending_position,
};
pub use crate::update_position::{
    charge_swaps, sanitize_sl_tp, top_up_position, update_sl_tp, update_topping_up_settings,
};
