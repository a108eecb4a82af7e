//! The hosts of the database, each described by a bag of options.

use crate::error::{HdbError, ProtocolError};
use crate::parts::option_part::{options_at, OptionPart, Options};
use crate::repeat::{
    lemma_repeat_failure, lemma_repeat_step, lemma_views_empty, lemma_views_push, repeat_at, views,
};
use crate::wire::{get_i16, take_i16};
use vstd::prelude::*;

verus! {

/// What the bytes at `pos` say of one host: the number of its options, and
/// the options.
pub open spec fn host_at(s: Seq<u8>, pos: int) -> Result<(Options, int), HdbError> {
    match get_i16(s, pos) {
        Err(e) => Err(e),
        Ok((n, p)) => if n < 0 {
            Err(HdbError::Protocol(ProtocolError::NegativeLength))
        } else {
            options_at(s, p, n as nat)
        },
    }
}

/// Reads the attributes of one host.
pub open spec fn host_reader() -> spec_fn(Seq<u8>, int) -> Result<(Options, int), HdbError> {
    |s: Seq<u8>, p: int| host_at(s, p)
}

/// What the bytes at `pos` say of `count` hosts.
pub open spec fn topology_at(s: Seq<u8>, pos: int, count: nat) -> Result<
    (Seq<Options>, int),
    HdbError,
> {
    repeat_at(host_reader(), s, pos, count)
}

/// The hosts of the database.
#[derive(Debug, PartialEq, Eq)]
pub struct Topology {
    hosts: Vec<OptionPart>,
}

impl View for Topology {
    type V = Seq<Options>;

    closed spec fn view(&self) -> Seq<Options> {
        views(self.hosts@)
    }
}

impl Topology {
    /// Number of hosts.
    pub fn len(&self) -> (r: usize)
        ensures
            r == self@.len(),
    {
        self.hosts.len()
    }

    /// The options of a host.
    pub fn host(&self, i: usize) -> (r: &OptionPart)
        requires
            i < self@.len(),
        ensures
            r@ == self@[i as int],
    {
        &self.hosts[i]
    }

    /// Reads `count` hosts.
    pub fn parse(count: usize, b: &[u8], pos: usize) -> (r: Result<(Topology, usize), HdbError>)
        ensures
            crate::wire::agrees_view(r, topology_at(b@, pos as int, count as nat)),
    {
        let mut hosts: Vec<OptionPart> = Vec::new();
        let mut p: usize = pos;
        let mut i: usize = 0;
        proof {
            lemma_views_empty(hosts@);
        }
        while i < count
            invariant
                i <= count,
                repeat_at(host_reader(), b@, pos as int, i as nat) == Ok::<_, HdbError>(
                    (views(hosts@), p as int),
                ),
            decreases count - i,
        {
            proof {
                lemma_repeat_step(host_reader(), b@, pos as int, i as nat);
                assert(host_reader()(b@, p as int) == host_at(b@, p as int));
            }
            let ghost next = repeat_at(host_reader(), b@, pos as int, (i + 1) as nat);
            let step: Result<(OptionPart, usize), HdbError> = match take_i16(b, p) {
                Err(e) => Err(e),
                Ok((n, q)) => if n < 0 {
                    Err(HdbError::Protocol(ProtocolError::NegativeLength))
                } else {
                    OptionPart::parse(n as usize, b, q)
                },
            };
            let (x, q) = match step {
                Ok(t) => t,
                Err(e) => {
                    proof {
                        assert(next == Err::<(Seq<Options>, int), _>(e));
                        lemma_repeat_failure(
                            host_reader(),
                            b@,
                            pos as int,
                            (i + 1) as nat,
                            count as nat,
                        );
                    }
                    return Err(e);
                },
            };
            proof {
                lemma_views_push(hosts@, x);
            }
            hosts.push(x);
            p = q;
            i = i + 1;
        }
        Ok((Topology { hosts }, p))
    }
}

} // verus!
