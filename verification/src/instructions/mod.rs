pub mod accounts;
pub mod add_liquidity;
pub mod add_token;
pub mod create_pool;
pub mod modify_fee;
pub mod modify_weight;
pub mod remove_liquidity;
pub mod remove_token;
pub mod swap;

pub use accounts::TokenAccount;
pub use add_liquidity::add_liquidity;
pub use add_token::add_token_to_pool;
pub use create_pool::create_pool;
pub use modify_fee::modify_fee;
pub use modify_weight::modify_token_weight;
pub use remove_liquidity::remove_liquidity;
pub use remove_token::remove_token_from_pool;
pub use swap::swap_anyswap;
