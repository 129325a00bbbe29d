//! Shared application state: the counters the demo handlers read and
//! bump. The route table itself is immutable after startup; these
//! counters are the only mutable cross-request state, and every update
//! goes through `&mut`, the exclusive-access discipline, so no increment
//! can be lost.

use vstd::prelude::*;
use crate::text;

verus! {

/// A named application with a request counter.
pub struct AppStateWithCounter {
    pub app_name: Vec<u8>,
    pub counter: i32,
}

pub open spec fn greeting_prefix() -> Seq<u8> {
    seq!['H' as u8, 'e' as u8, 'l' as u8, 'l' as u8, 'o' as u8, ' ' as u8]
}

pub open spec fn greeting_middle() -> Seq<u8> {
    seq![
        ',' as u8,
        ' ' as u8,
        'R' as u8,
        'e' as u8,
        'q' as u8,
        'u' as u8,
        'e' as u8,
        's' as u8,
        't' as u8,
        ' ' as u8,
        'n' as u8,
        'u' as u8,
        'm' as u8,
        'b' as u8,
        'e' as u8,
        'r' as u8,
        ':' as u8,
        ' ' as u8,
    ]
}

/// The greeting the index handler returns after the `n`th request.
pub open spec fn greeting_text(name: Seq<u8>, n: int) -> Seq<u8> {
    greeting_prefix() + name + greeting_middle() + text::signed_dec_digits(n)
}

impl AppStateWithCounter {
    pub fn new(app_name: Vec<u8>) -> (r: AppStateWithCounter)
        ensures
            r.app_name@ == app_name@,
            r.counter == 0,
    {
        AppStateWithCounter { app_name, counter: 0 }
    }

    /// One visit: bumps the request counter and greets with the new
    /// count. No update is lost: the new counter is exactly one more.
    pub fn index(&mut self) -> (greeting: Vec<u8>)
        requires
            old(self).counter < i32::MAX,
        ensures
            final(self).counter == old(self).counter + 1,
            final(self).app_name@ == old(self).app_name@,
            greeting@ == greeting_text(old(self).app_name@, old(self).counter + 1),
    {
        self.counter = self.counter + 1;
        let mut out: Vec<u8> = Vec::new();
        out.push('H' as u8);
        out.push('e' as u8);
        out.push('l' as u8);
        out.push('l' as u8);
        out.push('o' as u8);
        out.push(' ' as u8);
        proof {
            assert(out@ =~= greeting_prefix());
        }
        text::append_bytes(&mut out, self.app_name.as_slice());
        out.push(',' as u8);
        out.push(' ' as u8);
        out.push('R' as u8);
        out.push('e' as u8);
        out.push('q' as u8);
        out.push('u' as u8);
        out.push('e' as u8);
        out.push('s' as u8);
        out.push('t' as u8);
        out.push(' ' as u8);
        out.push('n' as u8);
        out.push('u' as u8);
        out.push('m' as u8);
        out.push('b' as u8);
        out.push('e' as u8);
        out.push('r' as u8);
        out.push(':' as u8);
        out.push(' ' as u8);
        let digits = text::i64_to_dec(self.counter as i64);
        text::append_bytes(&mut out, digits.as_slice());
        proof {
            assert(out@ =~= greeting_text(old(self).app_name@, old(self).counter + 1));
        }
        out
    }
}

/// A local and a global visit counter.
pub struct StateStruct {
    pub local_count: usize,
    pub global_count: usize,
}

pub open spec fn count_upper_text(n: nat) -> Seq<u8> {
    seq!['C' as u8, 'o' as u8, 'u' as u8, 'n' as u8, 't' as u8, ':' as u8, ' ' as u8]
        + text::dec_digits(n)
}

pub open spec fn count_lower_text(n: nat) -> Seq<u8> {
    seq!['c' as u8, 'o' as u8, 'u' as u8, 'n' as u8, 't' as u8, ':' as u8, ' ' as u8]
        + text::dec_digits(n)
}

impl StateStruct {
    pub fn new() -> (r: StateStruct)
        ensures
            r.local_count == 0,
            r.global_count == 0,
    {
        StateStruct { local_count: 0, global_count: 0 }
    }

    /// Bumps both counters by exactly one and reports the new local
    /// count.
    pub fn add_one(&mut self) -> (msg: Vec<u8>)
        requires
            old(self).local_count < usize::MAX,
            old(self).global_count < usize::MAX,
        ensures
            final(self).local_count == old(self).local_count + 1,
            final(self).global_count == old(self).global_count + 1,
            msg@ == count_upper_text((old(self).local_count + 1) as nat),
    {
        self.global_count = self.global_count + 1;
        self.local_count = self.local_count + 1;
        let mut out: Vec<u8> = Vec::new();
        out.push('C' as u8);
        out.push('o' as u8);
        out.push('u' as u8);
        out.push('n' as u8);
        out.push('t' as u8);
        out.push(':' as u8);
        out.push(' ' as u8);
        let digits = text::u64_to_dec(self.local_count as u64);
        text::append_bytes(&mut out, digits.as_slice());
        proof {
            assert(out@ =~= count_upper_text((old(self).local_count + 1) as nat));
        }
        out
    }

    /// Reports the local count without changing anything.
    pub fn show_count(&self) -> (msg: Vec<u8>)
        ensures
            msg@ == count_lower_text(self.local_count as nat),
    {
        let mut out: Vec<u8> = Vec::new();
        out.push('c' as u8);
        out.push('o' as u8);
        out.push('u' as u8);
        out.push('n' as u8);
        out.push('t' as u8);
        out.push(':' as u8);
        out.push(' ' as u8);
        let digits = text::u64_to_dec(self.local_count as u64);
        text::append_bytes(&mut out, digits.as_slice());
        proof {
            assert(out@ =~= count_lower_text(self.local_count as nat));
        }
        out
    }
}

/// A bare counter state value.
pub struct AppState {
    pub counter: i32,
}

impl AppState {
    /// The state after one more request.
    pub fn next(&self) -> (r: AppState)
        requires
            self.counter < i32::MAX,
        ensures
            r.counter == self.counter + 1,
    {
        AppState { counter: self.counter + 1 }
    }
}

} // verus!
