use vstd::prelude::*;

verus! {

/// Key-share data taken from a ServerHello: the group the server picked and
/// its public-key bytes, borrowed from the receive buffer.
#[derive(Clone, Copy, Debug)]
pub struct KeyShareEntry<'a> {
    pub group: u16,
    pub opaque: &'a [u8],
}

} // verus!
