//! The import surface for everyday use.
pub use crate::blocks::{Badge, Banner, Callout, List, Panel, Rule, Table};
pub use crate::caps::{Capability, ColorLevel};
pub use crate::ir::CalloutSeverity;
pub use crate::render::Print;
pub use crate::theme::{Role, Theme};
pub use crate::{
    badge, banner, callout, debug, error, info, list, note, ok, panel, rule, rule_labelled, warn,
};
