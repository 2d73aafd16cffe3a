//! The client side: connectivity states, name-resolution data, the
//! load-balancing framework, and the channel's own state machines.

pub mod channel;
pub mod connectivity;
pub mod load_balancing;
pub mod name_resolution;
pub mod subchannel;

pub use channel::{Channel, ChannelOptions};
pub use connectivity::ConnectivityState;
