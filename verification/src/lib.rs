//! A scriptable agent core: runs a script extracted from a chat prompt,
//! bridges the script's synchronous primitive calls (`say`, `write_file`,
//! tool listing and invocation) to an asynchronous host, and converts
//! between the script's dynamic values and a language-neutral structured
//! wire format.
//!
//! The crate verifies the decision logic of that bridge: value conversion,
//! script extraction from prompts, tool-server resolution, session
//! bookkeeping, and the shape of every notification the host emits.
//! Transport, process management and the script engine itself live outside
//! the library and interact with it through plain values.

pub mod bridge;
pub mod hostloop;
pub mod prompt;
pub mod session;
pub mod text;
pub mod value;
