//! A single-host service manager core: the control-protocol codec, the
//! unit registry, the process-supervision table, the singleton guard's
//! decision rule, and the server loop's dispatch, each with verified
//! contracts. The embedding application supplies the operating-system
//! pieces — the transport endpoint, process launching and polling, the
//! on-disk unit-file format — and reports their outcomes back to the
//! library, which decides everything else.

pub mod client;
pub mod config;
pub mod process;
pub mod protocol;
pub mod server;
pub mod singleton;
pub mod text;
