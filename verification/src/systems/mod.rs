//! What runs on the host's tick, apart from the connections themselves.

pub mod messaging;
