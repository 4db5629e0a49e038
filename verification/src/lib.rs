//! SAM (System Application Manager): the authority for system mode and
//! overall health across a set of local applications.
//!
//! The library holds the verified parts of SAM: the wire vocabulary shared
//! with applications (`types`, `messages`), the registry of known
//! applications (`registry`), health aggregation (`health`), the two-phase
//! mode transition state machine (`mode`), the service that ties them to
//! live connections (`service`), the framing rules of the local transport
//! (`transport`), the decisions an application runtime makes on SAM's
//! messages (`runtime`), and the small demonstration policies (`demo`,
//! `auto_demo`). Text helpers used by several of them live in `text`.

pub mod text;
pub mod types;
pub mod participants;
pub mod table;
pub mod messages;
pub mod registry;
pub mod health;
pub mod state;
pub mod mode;
pub mod service;
pub mod transport;
pub mod runtime;
pub mod demo;
pub mod auto_demo;
