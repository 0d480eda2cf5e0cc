//! A span of time, as whole seconds and a sub-second count of nanoseconds.
use vstd::prelude::*;
use vstd::arithmetic::div_mod::lemma_fundamental_div_mod_converse;

verus! {

pub const NANOS_PER_SEC: u32 = 1_000_000_000;

pub const MILLIS_PER_SEC: u64 = 1_000;

pub const NANOS_PER_MILLI: u32 = 1_000_000;

/// A non-negative span of time. Its view is the whole span in nanoseconds.
#[derive(Clone, Copy, Debug, PartialEq, Eq, Structural)]
pub struct Delay {
    secs: u64,
    nanos: u32,
}

impl View for Delay {
    type V = nat;

    closed spec fn view(&self) -> nat {
        self.secs as nat * NANOS_PER_SEC as nat + self.nanos as nat
    }
}

impl Delay {
    #[verifier::type_invariant]
    closed spec fn wf(self) -> bool {
        self.nanos < NANOS_PER_SEC
    }

    /// `secs` seconds and `nanos` nanoseconds, the latter under one second.
    pub fn new(secs: u64, nanos: u32) -> (d: Delay)
        requires
            nanos < NANOS_PER_SEC,
        ensures
            d@ == secs as nat * NANOS_PER_SEC as nat + nanos as nat,
    {
        Delay { secs, nanos }
    }

    pub fn from_secs(secs: u64) -> (d: Delay)
        ensures
            d@ == secs as nat * NANOS_PER_SEC as nat,
    {
        Delay { secs, nanos: 0 }
    }

    pub fn from_millis(millis: u64) -> (d: Delay)
        ensures
            d@ == millis as nat * NANOS_PER_MILLI as nat,
    {
        let secs = millis / MILLIS_PER_SEC;
        let rest = millis % MILLIS_PER_SEC;
        let nanos = (rest as u32) * NANOS_PER_MILLI;
        let d = Delay { secs, nanos };
        proof {
            let m = millis as int;
            let s = secs as int;
            let r = rest as int;
            assert(m == 1000 * s + r);
            assert(d@ == s * 1_000_000_000 + r * 1_000_000);
            assert(s * 1_000_000_000 + r * 1_000_000 == (1000 * s + r) * 1_000_000)
                by (nonlinear_arith);
        }
        d
    }

    /// Whole seconds of the span.
    pub fn as_secs(&self) -> (r: u64)
        ensures
            r as nat == self@ / NANOS_PER_SEC as nat,
    {
        proof {
            use_type_invariant(self);
            lemma_fundamental_div_mod_converse(
                self@ as int,
                NANOS_PER_SEC as int,
                self.secs as int,
                self.nanos as int,
            );
        }
        self.secs
    }

    /// Nanoseconds of the span beyond its whole seconds.
    pub fn subsec_nanos(&self) -> (r: u32)
        ensures
            r as nat == self@ % NANOS_PER_SEC as nat,
            r < NANOS_PER_SEC,
    {
        proof {
            use_type_invariant(self);
            lemma_fundamental_div_mod_converse(
                self@ as int,
                NANOS_PER_SEC as int,
                self.secs as int,
                self.nanos as int,
            );
        }
        self.nanos
    }

    /// The whole span in nanoseconds.
    pub fn as_nanos(&self) -> (r: u128)
        ensures
            r as nat == self@,
    {
        proof {
            let s = self.secs as int;
            assert(s * 1_000_000_000 <= 0xffff_ffff_ffff_ffff * 1_000_000_000) by (nonlinear_arith)
                requires
                    0 <= s <= 0xffff_ffff_ffff_ffff,
            ;
        }
        self.secs as u128 * NANOS_PER_SEC as u128 + self.nanos as u128
    }
}

} // verus!
