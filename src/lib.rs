pub mod classify;
pub mod error;
pub mod parse;
pub mod text;
pub mod wifi;

pub use classify::{classify, Category, Outcome};
pub use error::{CreateStep, WFError, WFResult};
pub use parse::{parse_listing, parse_networks, Network};
pub use wifi::{Action, Reply, Session, WiFi};
