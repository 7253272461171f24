//! The kinds of data that the archive persists.

use vstd::prelude::*;

verus! {

/// One block as the node reported it, with its header fields taken apart and
/// its digest and extrinsics already encoded.
#[derive(Debug, Clone, PartialEq, Eq)]
pub struct Block {
    pub parent_hash: Vec<u8>,
    pub hash: Vec<u8>,
    pub number: u32,
    pub state_root: Vec<u8>,
    pub extrinsics_root: Vec<u8>,
    pub digest: Vec<u8>,
    pub extrinsics: Vec<u8>,
    pub spec: u32,
}

/// What a [`Block`] stands for.
pub struct BlockView {
    pub parent_hash: Seq<u8>,
    pub hash: Seq<u8>,
    pub number: u32,
    pub state_root: Seq<u8>,
    pub extrinsics_root: Seq<u8>,
    pub digest: Seq<u8>,
    pub extrinsics: Seq<u8>,
    pub spec: u32,
}

impl View for Block {
    type V = BlockView;

    open spec fn view(&self) -> BlockView {
        BlockView {
            parent_hash: self.parent_hash@,
            hash: self.hash@,
            number: self.number,
            state_root: self.state_root@,
            extrinsics_root: self.extrinsics_root@,
            digest: self.digest@,
            extrinsics: self.extrinsics@,
            spec: self.spec,
        }
    }
}

/// The views of a sequence of blocks, one for one.
pub open spec fn blocks_view(blocks: Seq<Block>) -> Seq<BlockView> {
    Seq::new(blocks.len(), |i: int| blocks[i]@)
}

/// Blocks that go to the store in one multi-row statement.
#[derive(Debug, Clone, PartialEq, Eq)]
pub struct BatchBlock {
    pub inner: Vec<Block>,
}

impl View for BatchBlock {
    type V = Seq<BlockView>;

    open spec fn view(&self) -> Seq<BlockView> {
        blocks_view(self.inner@)
    }
}

impl BatchBlock {
    /// The batch of `blocks`, in their order.
    pub fn new(blocks: Vec<Block>) -> (batch: BatchBlock)
        ensures
            batch.inner == blocks,
    {
        BatchBlock { inner: blocks }
    }
}

/// One entry of state storage at one block. No `data` means that the key
/// was deleted there.
#[derive(Debug, Clone, PartialEq, Eq)]
pub struct StorageModel {
    pub block_num: u32,
    pub hash: Vec<u8>,
    pub full_storage: bool,
    pub key: Vec<u8>,
    pub data: Option<Vec<u8>>,
}

/// What a [`StorageModel`] stands for.
pub struct StorageView {
    pub block_num: u32,
    pub hash: Seq<u8>,
    pub full_storage: bool,
    pub key: Seq<u8>,
    pub data: Option<Seq<u8>>,
}

/// The bytes of an optional value.
pub open spec fn bytes_view(bytes: Option<Vec<u8>>) -> Option<Seq<u8>> {
    match bytes {
        Some(b) => Some(b@),
        None => None,
    }
}

/// The characters of an optional text.
pub open spec fn text_view(text: Option<String>) -> Option<Seq<char>> {
    match text {
        Some(t) => Some(t@),
        None => None,
    }
}

impl View for StorageModel {
    type V = StorageView;

    open spec fn view(&self) -> StorageView {
        StorageView {
            block_num: self.block_num,
            hash: self.hash@,
            full_storage: self.full_storage,
            key: self.key@,
            data: bytes_view(self.data),
        }
    }
}

/// The views of a sequence of storage entries, one for one.
pub open spec fn storage_view(entries: Seq<StorageModel>) -> Seq<StorageView> {
    Seq::new(entries.len(), |i: int| entries[i]@)
}

/// The runtime metadata of one spec version.
#[derive(Debug, Clone, PartialEq, Eq)]
pub struct Metadata {
    pub version: u32,
    pub meta: Vec<u8>,
}

/// What a [`Metadata`] stands for.
pub struct MetadataView {
    pub version: u32,
    pub meta: Seq<u8>,
}

impl View for Metadata {
    type V = MetadataView;

    open spec fn view(&self) -> MetadataView {
        MetadataView { version: self.version, meta: self.meta@ }
    }
}

} // verus!
