//! The contexts that handlers are called with, one for each shape of call.
//! A context only carries what the host hands over: the dependencies, the
//! environment and, where there is one, the information on the message. The
//! types of these are the host's, and are left open here.

use vstd::prelude::*;
use vstd::std_specs::convert::FromSpecImpl;

verus! {

/// The context of a migration: mutable dependencies and the environment.
pub struct MigrateCtx<D, E> {
    pub deps: D,
    pub env: E,
}

/// The context of an instantiation: mutable dependencies, the environment
/// and the information on the message.
pub struct InstantiateCtx<D, E, I> {
    pub deps: D,
    pub env: E,
    pub info: I,
}

/// The context of an execution: mutable dependencies, the environment and
/// the information on the message.
pub struct ExecCtx<D, E, I> {
    pub deps: D,
    pub env: E,
    pub info: I,
}

/// The context of a query: read-only dependencies and the environment.
pub struct QueryCtx<D, E> {
    pub deps: D,
    pub env: E,
}

impl<D, E> From<(D, E)> for MigrateCtx<D, E> {
    fn from(parts: (D, E)) -> (ctx: Self) {
        let (deps, env) = parts;
        Self { deps, env }
    }
}

impl<D, E> FromSpecImpl<(D, E)> for MigrateCtx<D, E> {
    open spec fn obeys_from_spec() -> bool {
        true
    }

    open spec fn from_spec(parts: (D, E)) -> Self {
        MigrateCtx { deps: parts.0, env: parts.1 }
    }
}

impl<D, E, I> From<(D, E, I)> for InstantiateCtx<D, E, I> {
    fn from(parts: (D, E, I)) -> (ctx: Self) {
        let (deps, env, info) = parts;
        Self { deps, env, info }
    }
}

impl<D, E, I> FromSpecImpl<(D, E, I)> for InstantiateCtx<D, E, I> {
    open spec fn obeys_from_spec() -> bool {
        true
    }

    open spec fn from_spec(parts: (D, E, I)) -> Self {
        InstantiateCtx { deps: parts.0, env: parts.1, info: parts.2 }
    }
}

impl<D, E, I> From<(D, E, I)> for ExecCtx<D, E, I> {
    fn from(parts: (D, E, I)) -> (ctx: Self) {
        let (deps, env, info) = parts;
        Self { deps, env, info }
    }
}

impl<D, E, I> FromSpecImpl<(D, E, I)> for ExecCtx<D, E, I> {
    open spec fn obeys_from_spec() -> bool {
        true
    }

    open spec fn from_spec(parts: (D, E, I)) -> Self {
        ExecCtx { deps: parts.0, env: parts.1, info: parts.2 }
    }
}

impl<D, E> From<(D, E)> for QueryCtx<D, E> {
    fn from(parts: (D, E)) -> (ctx: Self) {
        let (deps, env) = parts;
        Self { deps, env }
    }
}

impl<D, E> FromSpecImpl<(D, E)> for QueryCtx<D, E> {
    open spec fn obeys_from_spec() -> bool {
        true
    }

    open spec fn from_spec(parts: (D, E)) -> Self {
        QueryCtx { deps: parts.0, env: parts.1 }
    }
}

} // verus!
