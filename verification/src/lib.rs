pub mod events;
pub mod gauge;
pub mod invariants;
pub mod key;
pub mod lemmas;
pub mod mempool;
pub mod model;
pub mod ordered;
pub mod properties;
pub mod stream;
pub mod stream_laws;
pub mod table;

pub use mempool::Mempool;
pub use model::{Transaction, MAX_BACKLOG, MAX_TRANSACTIONS};
pub use key::Key;
