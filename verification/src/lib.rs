//! Verified core of the squeak runtime and its booter: the tagged-word object
//! walker, a task executor's bookkeeping, poll-closure futures, the compositor's
//! window-stack decisions and the boot-argument builder.
pub mod executor;
pub mod future;
pub mod lifetime;
pub mod squeak_object;
pub mod sandbox;
pub mod secure;
pub mod morph;
pub mod compositor;
pub mod boot;
pub mod catch_panics;
