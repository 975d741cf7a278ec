//! Core of a peer-to-peer LAN file-transfer system: the wire records of the
//! transfer and discovery protocols, the per-transfer state machines, the
//! peer table, the outbound scheduler and the command router.

pub mod behaviour;
pub mod codec;
pub mod discovery;
pub mod driver;
pub mod inbound;
pub mod outbound;
pub mod peer;
pub mod progress;
pub mod router;
pub mod uri;
pub mod util;
