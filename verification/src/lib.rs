//! Desktop input-action binding library.
//!
//! Applications declare logical, typed actions and bind them to physical
//! input sources named by interned path strings.  A session owns the device
//! registry; each synchronization tick resets transient device state and
//! drains a queue of hardware events into it, and typed action-state queries
//! resolve an action's bound sources against the active interaction profile.

mod action;
mod device;
mod error;
mod handle;
mod instance;
mod intern;
mod session;

pub use action::Action;
pub use action::ActionSet;
pub use action::ActionState;
pub use action::ActionStateBoolean;
pub use action::ActionStateFloat;
pub use action::ActionSuggestedBinding;
pub use action::ActionType;
pub use device::ActionValue;
pub use device::Device;
pub use device::DeviceState;
pub use device::MappingKind;
pub use device::Mouse;
pub use error::Error;
pub use handle::Handle;
pub use instance::Instance;
pub use instance::Profiles;
pub use intern::Interner;
pub use intern::Path;
pub use session::Event;
pub use session::FormFactor;
pub use session::Session;
pub use session::System;
pub use session::UserPaths;
