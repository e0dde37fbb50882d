//! Verified core of a micropayment-channel payment controller.
//!
//! The controller applies payments against a local balance, keeps the
//! registry of counterparties, plans one reconciliation per counterparty on
//! every tick and credits withdrawn channel funds. Channel managers and the
//! network are driven from outside: every handler that needs one of them
//! returns the request to make, and a second function takes the answer.

pub mod address;
pub mod balance;
pub mod counterparty;
pub mod error;
pub mod identity;
pub mod network_request;
pub mod payment_controller;
pub mod uint256;

pub use address::{new_addr, Address};
pub use balance::{BalanceStore, Direction};
pub use counterparty::{ChannelManager, Counterparty, CounterpartyStore, Entry};
pub use error::Error;
pub use identity::{new_identity, Identity, MeshIp, PaymentTx};
pub use network_request::NetworkRequest;
pub use payment_controller::{
    GetOwnBalance, LogLevel, MakePayment, PayCall, PaymentController, Register, Tick, TickReport,
    Withdraw, WithdrawCall,
};
pub use uint256::Uint256;
