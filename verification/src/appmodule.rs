//! The traits by which a module tells the application what it takes part in.

use vstd::prelude::*;

verus! {

/// Marks a type of which an application holds one per module.
pub trait OnePerModuleType {

}

/// A module of the application.
pub trait AppModule: OnePerModuleType {

}

/// A module that registers services.
pub trait HasServices: AppModule {

}

/// A module that acts before the check state is prepared.
pub trait HasPrepareCheckState: AppModule {

}

/// A module that acts before a block is committed.
pub trait HasPrecommit: AppModule {

}

/// A module that acts at the beginning of a block.
pub trait HasBeginBlocker: AppModule {

}

/// A module that acts at the end of a block.
pub trait HasEndBlocker: AppModule {

}

} // verus!
