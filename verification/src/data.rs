//! Archives and the directory they come from, as the engine holds them in
//! memory.

use vstd::prelude::*;

verus! {

/// Why game data could not be used.
#[derive(Clone, Copy, Debug, PartialEq, Eq, Structural)]
pub enum DataError {
    /// The archive has no chunk of this number.
    ChunkMissing(usize),
    /// The chunk of this number does not decompress.
    ChunkCorrupt(usize),
    /// The saved game is shorter than its fixed part.
    SaveTooShort,
    /// The saved game could not be read.
    SaveUnreadable,
    /// The current scene is not in the tables, or its event objects are not.
    BadScene,
    /// The party has more members than the tables, or unknown roles.
    BadParty,
}

/// An archive of numbered chunks.
pub struct Mkf {
    /// The chunks as stored.
    pub chunks: Vec<Vec<u8>>,
    /// The decompressed contents of each chunk that holds compressed data.
    pub unpacked: Vec<Option<Vec<u8>>>,
}

impl Mkf {
    /// The archive has a chunk of this number.
    pub open spec fn has(&self, num: int) -> bool {
        0 <= num < self.chunks@.len()
    }

    /// The bytes of chunk `num`.
    pub open spec fn bytes(&self, num: int) -> Seq<u8> {
        self.chunks@[num]@
    }

    /// Chunk `num` holds data that decompresses.
    pub open spec fn has_unpacked(&self, num: int) -> bool {
        0 <= num < self.unpacked@.len() && self.unpacked@[num] is Some
    }

    /// The decompressed contents of chunk `num`.
    pub open spec fn unpacked_bytes(&self, num: int) -> Seq<u8> {
        self.unpacked@[num]->0@
    }

    /// The size of a chunk in bytes; 0 for one that is missing.
    pub open spec fn size(&self, num: int) -> nat {
        if self.has(num) {
            self.bytes(num).len()
        } else {
            0
        }
    }

    /// Size of a chunk in bytes; 0 for one that is missing.
    pub fn chunk_size(&self, num: usize) -> (n: usize)
        ensures
            n == self.size(num as int),
    {
        if num < self.chunks.len() {
            self.chunks[num].len()
        } else {
            0
        }
    }

    /// The bytes of a chunk.
    pub fn chunk(&self, num: usize) -> (r: Result<&[u8], DataError>)
        ensures
            r is Ok <==> self.has(num as int),
            r matches Ok(b) ==> b@ == self.bytes(num as int),
            r matches Err(e) ==> e == DataError::ChunkMissing(num),
    {
        if num < self.chunks.len() {
            Ok(self.chunks[num].as_slice())
        } else {
            Err(DataError::ChunkMissing(num))
        }
    }

    /// The decompressed contents of a chunk.
    pub fn chunk_decompressed(&self, num: usize) -> (r: Result<Vec<u8>, DataError>)
        ensures
            r is Ok <==> self.has_unpacked(num as int),
            r matches Ok(b) ==> b@ == self.unpacked_bytes(num as int),
            r matches Err(e) ==> e == DataError::ChunkCorrupt(num),
    {
        if num < self.unpacked.len() {
            match &self.unpacked[num] {
                Some(bytes) => Ok(vstd::slice::slice_to_vec(bytes.as_slice())),
                None => Err(DataError::ChunkCorrupt(num)),
            }
        } else {
            Err(DataError::ChunkCorrupt(num))
        }
    }
}

/// The game's data directory: where it is, and the archives that maps are
/// loaded from.
pub struct DataDir {
    pub root: String,
    pub map: Mkf,
    pub gop: Mkf,
}

/// The archives the engine keeps open.
pub struct GameFiles {
    pub fbp: Mkf,
    pub mgo: Mkf,
    pub ball: Mkf,
    pub data: Mkf,
    pub f: Mkf,
    pub fire: Mkf,
    pub rgm: Mkf,
    pub sss: Mkf,
}

} // verus!
