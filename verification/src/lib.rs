//! The logic of a logic-gate simulator: bit-packed simulation nodes, a
//! synchronous simulation step driven by truth tables, scenes of devices and
//! wires, chips packed from scenes, the chip library of a project, and the
//! state and decisions of the program's pages, input and platforms.

pub mod atlas;
pub mod geom;
pub mod graphics;
pub mod input;
pub mod keymap;
pub mod pages;
pub mod platform;
pub mod save;
pub mod scene;
pub mod sim;
pub mod storage;

use std::collections::hash_map::DefaultHasher;
use std::hash::Hasher;
use vstd::prelude::*;
use vstd::std_specs::hash::DefaultHasherAdditionalSpecFns;

verus! {

/// The state of a `DefaultHasher` after hashing a `u32` into a hasher whose
/// written chunks were `before`.
pub uninterp spec fn hashed_u32(before: Seq<Seq<u8>>, v: u32) -> Seq<Seq<u8>>;

/// Feeds `v` to `hasher` through `<u32 as std::hash::Hash>::hash`.
///
/// Trusted: the hasher's written chunks after the call are named
/// `hashed_u32` of the chunks before and of `v`; what they are is not stated.
#[verifier::external_body]
fn hash_u32_into(hasher: &mut DefaultHasher, v: u32)
    ensures
        final(hasher)@ == hashed_u32(old(hasher)@, v),
{
    std::hash::Hash::hash(&v, hasher);
}

/// An identifier: the hash of some value.
#[derive(Clone, Copy, PartialEq, Eq, Debug, Hash, Structural)]
pub struct Id(pub u64);

impl Default for Id {
    fn default() -> (r: Id)
        ensures
            r.0 == 0,
    {
        Id(0)
    }
}

impl Id {
    /// The identifier of `v`: the `DefaultHasher` hash of `v`.
    pub open spec fn spec_new(v: u32) -> u64 {
        DefaultHasher::spec_finish(hashed_u32(Seq::empty(), v))
    }

    /// The identifier of `v`: the `DefaultHasher` hash of `v`.
    pub fn new(v: u32) -> (r: Id)
        ensures
            r.0 == Id::spec_new(v),
    {
        let mut hasher = DefaultHasher::new();
        hash_u32_into(&mut hasher, v);
        Id(hasher.finish())
    }
}

/// The colour theme of the user interface.
#[derive(Clone, Copy, PartialEq, Eq, Debug, Structural)]
pub enum UiTheme {
    Light,
    Dark,
    Night,
}

} // verus!
