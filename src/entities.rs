//! Records read from storage, each belonging to exactly one block.
use crate::payload::Payload;
use vstd::prelude::*;

verus! {

/// A record that belongs to one block, named by the block's identifier.
pub trait BlockScoped: Sized {
    spec fn block_key(&self) -> Seq<char>;

    fn block_id(&self) -> (r: &String)
        ensures
            r@ == self.block_key(),
    ;
}

/// A block as the top-level range query returns it.
pub struct BlockHeader {
    pub id: String,
    pub height: u64,
    pub hash: String,
}

/// A submitted transaction of one block.
pub struct Extrinsic {
    pub id: String,
    pub block_id: String,
    pub payload: Payload,
}

/// An invocation inside an extrinsic.
pub struct Call {
    pub id: String,
    pub block_id: String,
    pub extrinsic_id: String,
    pub name: String,
    pub payload: Payload,
}

/// A side-effect record emitted while an extrinsic or a call ran.
pub struct Event {
    pub id: String,
    pub block_id: String,
    pub extrinsic_id: Option<String>,
    pub call_id: Option<String>,
    pub name: String,
    pub payload: Payload,
}

impl BlockScoped for Extrinsic {
    open spec fn block_key(&self) -> Seq<char> {
        self.block_id@
    }

    fn block_id(&self) -> (r: &String) {
        &self.block_id
    }
}

impl BlockScoped for Call {
    open spec fn block_key(&self) -> Seq<char> {
        self.block_id@
    }

    fn block_id(&self) -> (r: &String) {
        &self.block_id
    }
}

impl BlockScoped for Event {
    open spec fn block_key(&self) -> Seq<char> {
        self.block_id@
    }

    fn block_id(&self) -> (r: &String) {
        &self.block_id
    }
}

} // verus!
