//! The generic state-machine interface and the keystroke digest.

use std::collections::hash_map::DefaultHasher;
use std::hash::Hasher;
use vstd::prelude::*;
use vstd::std_specs::hash::DefaultHasherAdditionalSpecFns;

use crate::atm::{key_code, Key};

verus! {

/// A machine whose behaviour is one pure function from a state and a
/// transition to the next state.
pub trait StateMachine {
    type State;

    type Transition;

    fn next_state(starting_state: &Self::State, t: &Self::Transition) -> Self::State;
}

/// What the hasher is fed for a sequence of keys: one write of one byte per
/// key, in order.
pub open spec fn key_writes(keys: Seq<Key>) -> Seq<Seq<u8>> {
    keys.map_values(|k: Key| seq![key_code(k)])
}

/// The digest of a keystroke sequence: a fresh `DefaultHasher` fed each key
/// in turn, then finished.
pub open spec fn digest(keys: Seq<Key>) -> u64 {
    DefaultHasher::spec_finish(key_writes(keys))
}

/// Digest of an ordered sequence of keys: each key is fed to a fresh
/// `DefaultHasher` as its own write, in order, so equal sequences give equal
/// digests and the position of every key is part of what is hashed.
pub fn hash(t: &[Key]) -> (r: u64)
    ensures
        r == digest(t@),
{
    let mut hasher = DefaultHasher::new();
    let n = t.len();
    for i in 0..n
        invariant
            n == t@.len(),
            hasher@ == key_writes(t@.take(i as int)),
    {
        let code: [u8; 1] = [t[i].code()];
        assert(code@ =~= seq![key_code(t@[i as int])]);
        hasher.write(&code);
        assert(t@.take(i + 1) == t@.take(i as int).push(t@[i as int]));
        assert(key_writes(t@.take(i + 1)) =~= key_writes(t@.take(i as int)).push(seq![key_code(t@[i as int])]));
    }
    assert(t@.take(n as int) == t@);
    hasher.finish()
}

} // verus!
