pub mod item;
pub mod liquidity;
pub mod pool;
pub mod swap;

pub use item::AnySwapItem;
pub use item::Pubkey;
pub use liquidity::AddLiquidityResult;
pub use liquidity::RemoveLiquidityResult;
pub use pool::AnySwapPool;
pub use pool::MAX_TOKENS;
pub use swap::SwapResult;
