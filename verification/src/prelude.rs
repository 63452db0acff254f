//! The items that most users of the library need.
pub use crate::commands::ParallaxDespawnCommands;
pub use crate::components::{ParallaxCamera, ParallaxLayer};
pub use crate::flags::ParallaxFlags;
pub use crate::plugin::ParallaxPlugin;
