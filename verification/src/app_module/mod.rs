//! What a plugin's script may call: the host's side of each capability, as far
//! as it is a decision and not a step on disk or on the network.
pub mod env;
pub mod modify;
pub mod post_install;
pub mod sources;
pub mod strings;
pub mod versions;
