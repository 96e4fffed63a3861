use vstd::prelude::*;

verus! {

/// A store of byte strings under byte-string keys. Keys are unique and carry
/// no order; the last value written under a key is the one it holds.
pub trait MemoryDatabase: Sync + Send {
    /// What the store holds.
    spec fn entries(&self) -> Map<Seq<u8>, Seq<u8>>;

    /// Writes `value` under `key`, over what the key held before.
    fn set(&mut self, key: &[u8], value: &[u8])
        ensures
            final(self).entries() == old(self).entries().insert(key@, value@),
    ;

    /// The value under `key`, where there is one.
    fn get(&self, key: &[u8]) -> (value: Option<Vec<u8>>)
        ensures
            match value {
                Some(bytes) => self.entries().contains_key(key@) && bytes@ == self.entries()[key@],
                None => !self.entries().contains_key(key@),
            },
    ;

    /// Removes `key`, and hands back the value it held, where it held one.
    fn del(&mut self, key: &[u8]) -> (previous: Option<Vec<u8>>)
        ensures
            final(self).entries() == old(self).entries().remove(key@),
            match previous {
                Some(bytes) => old(self).entries().contains_key(key@) && bytes@ == old(
                    self,
                ).entries()[key@],
                None => !old(self).entries().contains_key(key@),
            },
    ;
}

} // verus!
