use vstd::prelude::*;

verus! {

/// An already-authenticated caller identity, held as its raw bytes and
/// compared only for equality.
#[derive(Clone, Debug, PartialEq, Eq)]
pub struct Identity {
    pub bytes: Vec<u8>,
}

impl View for Identity {
    type V = Seq<u8>;

    open spec fn view(&self) -> Seq<u8> {
        self.bytes@
    }
}

impl Identity {
    pub fn from_bytes(bytes: Vec<u8>) -> (r: Identity)
        ensures
            r@ == bytes@,
    {
        Identity { bytes }
    }

    /// A copy with the same bytes.
    pub fn duplicate(&self) -> (r: Identity)
        ensures
            r@ == self@,
    {
        let mut out: Vec<u8> = Vec::new();
        let mut i: usize = 0;
        while i < self.bytes.len()
            invariant
                i <= self.bytes@.len(),
                out@ == self.bytes@.subrange(0, i as int),
            decreases self.bytes@.len() - i,
        {
            out.push(self.bytes[i]);
            i = i + 1;
            assert(out@ =~= self.bytes@.subrange(0, i as int));
        }
        assert(out@ =~= self.bytes@);
        Identity { bytes: out }
    }
}

/// Whether `caller` is the owner `owner` of a resource: equality of the
/// identity tokens, with no role hierarchy and no override.
pub fn is_owner(caller: &Identity, owner: &Identity) -> (r: bool)
    ensures
        r == (caller@ == owner@),
{
    let n = caller.bytes.len();
    if n != owner.bytes.len() {
        return false;
    }
    let mut i: usize = 0;
    while i < n
        invariant
            n == caller.bytes@.len(),
            n == owner.bytes@.len(),
            i <= n,
            caller.bytes@.subrange(0, i as int) == owner.bytes@.subrange(0, i as int),
        decreases n - i,
    {
        if caller.bytes[i] != owner.bytes[i] {
            assert(caller.bytes@[i as int] != owner.bytes@[i as int]);
            return false;
        }
        assert(caller.bytes@.subrange(0, i + 1) =~= caller.bytes@.subrange(0, i as int).push(
            caller.bytes@[i as int],
        ));
        assert(owner.bytes@.subrange(0, i + 1) =~= owner.bytes@.subrange(0, i as int).push(
            owner.bytes@[i as int],
        ));
        i = i + 1;
    }
    assert(caller.bytes@ =~= caller.bytes@.subrange(0, n as int));
    assert(owner.bytes@ =~= owner.bytes@.subrange(0, n as int));
    true
}

} // verus!
