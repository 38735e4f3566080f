//! A tiny xorshift generator for the fireworks, seeded from the clock.

use std::time::{Duration, SystemTime};
use vstd::prelude::*;

verus! {

#[verifier::external_type_specification]
#[verifier::external_body]
pub struct ExSystemTime(std::time::SystemTime);

/// Calls `SystemTime::now`. The clock's reading is not stated.
#[verifier::external_body]
fn now() -> SystemTime {
    SystemTime::now()
}

/// Calls `SystemTime::duration_since(UNIX_EPOCH)`; `None` where `t` lies
/// before the epoch, which is the call's error. Nothing is stated of the
/// duration: it rests on the clock.
#[verifier::external_body]
fn since_epoch(t: SystemTime) -> Option<Duration> {
    match t.duration_since(std::time::UNIX_EPOCH) {
        Ok(d) => Some(d),
        Err(_) => None,
    }
}

/// Calls `Duration::as_nanos`. `Duration` is opaque here, so nothing is
/// stated of the result.
#[verifier::external_body]
fn duration_nanos(d: Duration) -> u128 {
    d.as_nanos()
}

/// One xorshift64 step (shifts 13, 7, 17).
pub open spec fn xorshift(x: u64) -> u64 {
    let a = x ^ ((x << 13u64) as u64);
    let b = a ^ (a >> 7u64);
    b ^ ((b << 17u64) as u64)
}

/// The generator; its state is never zero, the one state xorshift cannot leave.
pub struct Rng {
    state: u64,
}

impl Rng {
    #[verifier::type_invariant]
    spec fn nonzero(self) -> bool {
        self.state != 0
    }

    pub closed spec fn state(self) -> u64 {
        self.state
    }

    /// Seeds from nanoseconds: their low 64 bits with the lowest bit set.
    pub fn from_nanos(nanos: u128) -> (r: Rng)
        ensures
            r.state() == (nanos as u64) | 1u64,
    {
        let low = nanos as u64;
        let seed = low | 1;
        assert(seed != 0) by (bit_vector)
            requires
                seed == low | 1u64,
        ;
        Rng { state: seed }
    }

    /// Seeds from the system clock; `None` when the clock reads a time
    /// before the Unix epoch.
    pub fn new() -> (r: Option<Rng>)
        ensures
            r matches Some(g) ==> g.state() % 2 == 1,
    {
        match since_epoch(now()) {
            Some(d) => {
                let n = duration_nanos(d);
                let g = Rng::from_nanos(n);
                let s = g.state;
                assert(s % 2 == 1) by (bit_vector)
                    requires
                        s == (n as u64) | 1u64,
                ;
                Some(g)
            },
            None => None,
        }
    }

    /// Advances the state by one xorshift step and returns its top 53 bits.
    pub fn next_bits(&mut self) -> (bits: u64)
        ensures
            final(self).state() == xorshift(old(self).state()),
            bits == final(self).state() >> 11u64,
            bits < 0x20_0000_0000_0000,
    {
        proof {
            use_type_invariant(&*self);
        }
        let x = self.state;
        let a = x ^ (x << 13);
        let b = a ^ (a >> 7);
        let c = b ^ (b << 17);
        proof {
            lemma_xorshift_nonzero(x);
        }
        assert(c == xorshift(x));
        self.state = c;
        let bits = c >> 11;
        assert(bits < 0x20_0000_0000_0000) by (bit_vector)
            requires
                bits == c >> 11u64,
        ;
        bits
    }
}

/// Xorshift never maps a nonzero state to zero, so the generator never
/// gets stuck.
pub proof fn lemma_xorshift_nonzero(x: u64)
    requires
        x != 0,
    ensures
        xorshift(x) != 0,
{
    let a = x ^ ((x << 13u64) as u64);
    let b = a ^ (a >> 7u64);
    let c = b ^ ((b << 17u64) as u64);
    assert(c != 0) by (bit_vector)
        requires
            x != 0,
            a == x ^ (x << 13u64),
            b == a ^ (a >> 7u64),
            c == b ^ (b << 17u64),
    ;
}

} // verus!
