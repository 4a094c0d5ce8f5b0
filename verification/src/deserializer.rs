//! How the byte fields of Raft messages are shown when a node is inspected:
//! as the list of their byte values, the way Rust's `Debug` shows a slice.
use crate::keys::{decimal, push_decimal};
use vstd::prelude::*;

verus! {

/// The byte values of `b`, in decimal, separated by `", "`.
pub open spec fn debug_items(b: Seq<u8>) -> Seq<char>
    decreases b.len(),
{
    if b.len() == 0 {
        Seq::empty()
    } else if b.len() == 1 {
        decimal(b[0] as nat)
    } else {
        debug_items(b.drop_last()) + ", "@ + decimal(b.last() as nat)
    }
}

/// The `Debug` text of a byte slice: `[1, 2, 3]`.
pub open spec fn debug_bytes(b: Seq<u8>) -> Seq<char> {
    "["@ + debug_items(b) + "]"@
}

/// The `Debug` text of a byte slice: its byte values in decimal, separated
/// by `", "`, between square brackets.
pub fn format_bytes(b: &[u8]) -> (r: String)
    ensures
        r@ == debug_bytes(b@),
{
    let mut r = String::new();
    r.append("[");
    let mut i: usize = 0;
    while i < b.len()
        invariant
            i <= b.len(),
            r@ == "["@ + debug_items(b@.take(i as int)),
        decreases b.len() - i,
    {
        let ghost prev = r@;
        assert(b@.take(i + 1).drop_last() =~= b@.take(i as int));
        if i > 0 {
            r.append(", ");
        }
        push_decimal(&mut r, b[i] as u64);
        proof {
            if i == 0 {
                assert(b@.take(1) =~= seq![b@[0]]);
                assert(r@ =~= "["@ + debug_items(b@.take(1)));
            } else {
                assert(r@ =~= prev + ", "@ + decimal(b@[i as int] as nat));
                assert(r@ =~= "["@ + debug_items(b@.take(i + 1)));
            }
        }
        i = i + 1;
    }
    r.append("]");
    assert(b@.take(b.len() as int) =~= b@);
    r
}

/// Shows the byte fields of Raft messages as the list of their byte values.
pub struct BincodeDeserializer;

impl BincodeDeserializer {
    pub fn entry_context_deserialize(&self, v: &[u8]) -> (r: String)
        ensures
            r@ == debug_bytes(v@),
    {
        format_bytes(v)
    }

    pub fn entry_data_deserialize(&self, v: &[u8]) -> (r: String)
        ensures
            r@ == debug_bytes(v@),
    {
        format_bytes(v)
    }

    pub fn confchangev2_context_deserialize(&self, v: &[u8]) -> (r: String)
        ensures
            r@ == debug_bytes(v@),
    {
        format_bytes(v)
    }

    pub fn confchange_context_deserialize(&self, v: &[u8]) -> (r: String)
        ensures
            r@ == debug_bytes(v@),
    {
        format_bytes(v)
    }

    pub fn message_context_deserializer(&self, v: &[u8]) -> (r: String)
        ensures
            r@ == debug_bytes(v@),
    {
        format_bytes(v)
    }

    pub fn snapshot_data_deserializer(&self, v: &[u8]) -> (r: String)
        ensures
            r@ == debug_bytes(v@),
    {
        format_bytes(v)
    }
}

} // verus!
