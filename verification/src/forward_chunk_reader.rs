//! Forward reads of a payload, with its nodes kept in memory.
//!
//! Nodes are expanded one record at a time, far slower than the drive turns.
//! They are read at once, and the drive is paused until something else is
//! needed.

use vstd::prelude::*;

use crate::storage::StorageError;

verus! {

/// Reads one payload from its front to its end.
pub struct ForwardChunkReader {
    pub len: u32,
    pub node_offset: u32,
    pub node_len: u32,
    pub node_cache: Vec<u8>,
    pub session_open: bool,
}

/// How a read is served.
#[derive(Copy, Clone, Debug, PartialEq, Eq)]
pub enum ForwardStep {
    /// Nothing was asked for.
    Nothing,
    /// The nodes are in memory; the read starts at this byte of them.
    Nodes { start: usize },
    /// All nodes are read first. A session is opened at the byte given, if
    /// none is open.
    FillNodes { open_at: Option<u32> },
    /// The session serves the read, opened at the byte given if none is open.
    Session { open_at: Option<u32> },
}

impl ForwardChunkReader {
    pub open spec fn valid(&self) -> bool {
        self.node_offset + self.node_len <= u32::MAX
    }

    pub open spec fn in_nodes(&self, offset: int, wanted: int) -> bool {
        self.node_offset <= offset && offset + wanted <= self.node_offset + self.node_len
    }

    /// Nothing is read before the first access to the payload.
    pub fn open(len: Result<u32, StorageError>, node_offset: u32, node_len: u32, node_cache: Vec<u8>) -> (reader:
        Result<ForwardChunkReader, StorageError>)
        requires
            node_offset + node_len <= u32::MAX,
        ensures
            match (len, reader) {
                (Ok(len), Ok(reader)) => {
                    &&& reader.valid()
                    &&& reader.len == len
                    &&& reader.node_offset == node_offset
                    &&& reader.node_len == node_len
                    &&& reader.node_cache == node_cache
                    &&& !reader.session_open
                },
                (Err(given), Err(error)) => given == error,
                _ => false,
            },
    {
        match len {
            Ok(len) => Ok(
                ForwardChunkReader { len, node_offset, node_len, node_cache, session_open: false },
            ),
            Err(error) => Err(error),
        }
    }

    pub fn len(&self) -> (len: u32)
        ensures
            len == self.len,
    {
        self.len
    }

    pub open spec fn opening(&self, offset: u32) -> Option<u32> {
        if self.session_open {
            None
        } else {
            Some(offset)
        }
    }

    /// How a read is served.
    pub open spec fn served(&self, offset: u32, wanted: usize) -> Result<ForwardStep, StorageError> {
        if wanted == 0 {
            Ok(ForwardStep::Nothing)
        } else if offset + wanted > u32::MAX {
            Err(StorageError::OutOfBounds)
        } else if !self.in_nodes(offset as int, wanted as int) {
            Ok(ForwardStep::Session { open_at: self.opening(offset) })
        } else if self.node_cache@.len() == 0 {
            Ok(ForwardStep::FillNodes { open_at: self.opening(offset) })
        } else if offset - self.node_offset + wanted <= self.node_cache@.len() {
            Ok(ForwardStep::Nodes { start: (offset - self.node_offset) as usize })
        } else {
            Err(StorageError::OutOfBounds)
        }
    }

    /// Decide how a read is served.
    pub fn read_exact_at(&self, offset: u32, wanted: usize) -> (step: Result<ForwardStep, StorageError>)
        requires
            self.valid(),
        ensures
            step == self.served(offset, wanted),
    {
        if wanted == 0 {
            return Ok(ForwardStep::Nothing);
        }
        if wanted > u32::MAX as usize {
            return Err(StorageError::OutOfBounds);
        }
        let end: u32 = match offset.checked_add(wanted as u32) {
            Some(end) => end,
            None => {
                return Err(StorageError::OutOfBounds);
            },
        };
        let open_at: Option<u32> = if self.session_open {
            None
        } else {
            Some(offset)
        };
        if offset >= self.node_offset && end <= self.node_offset + self.node_len {
            if self.node_cache.len() == 0 {
                return Ok(ForwardStep::FillNodes { open_at });
            }
            let start: usize = (offset - self.node_offset) as usize;
            if wanted > self.node_cache.len() || start > self.node_cache.len() - wanted {
                return Err(StorageError::OutOfBounds);
            }
            return Ok(ForwardStep::Nodes { start });
        }
        Ok(ForwardStep::Session { open_at })
    }

    /// A session was opened.
    pub fn opened(&mut self)
        ensures
            final(self).session_open,
            final(self).len == old(self).len,
            final(self).node_offset == old(self).node_offset,
            final(self).node_len == old(self).node_len,
            final(self).node_cache == old(self).node_cache,
    {
        self.session_open = true;
    }

    /// All nodes have been read. The session is closed, so that the drive does
    /// not run past what comes after them.
    pub fn nodes_read(&mut self, nodes: Vec<u8>)
        requires
            nodes@.len() == old(self).node_len,
        ensures
            final(self).node_cache == nodes,
            !final(self).session_open,
            final(self).len == old(self).len,
            final(self).node_offset == old(self).node_offset,
            final(self).node_len == old(self).node_len,
    {
        self.node_cache = nodes;
        self.session_open = false;
    }

    /// Hand out nodes from memory.
    pub fn copy_nodes(&self, start: usize, wanted: usize) -> (output: Vec<u8>)
        requires
            start + wanted <= self.node_cache@.len(),
        ensures
            output@ == self.node_cache@.subrange(start as int, start + wanted),
    {
        let mut output: Vec<u8> = Vec::new();
        let total: usize = self.node_cache.len();
        let mut index: usize = 0;
        assert(output@ =~= self.node_cache@.subrange(start as int, start as int));
        while index < wanted
            invariant
                index <= wanted,
                start + wanted <= total,
                total == self.node_cache@.len(),
                output@ == self.node_cache@.subrange(start as int, start + index),
            decreases wanted - index,
        {
            output.push(self.node_cache[start + index]);
            index += 1;
            assert(output@ =~= self.node_cache@.subrange(start as int, start + index));
        }
        output
    }
}

/// Once the nodes are in memory, every read among them is served from there:
/// the drive stays paused while they are expanded.
pub proof fn node_reads_leave_the_drive_alone(reader: ForwardChunkReader, offset: u32, wanted: usize)
    requires
        reader.valid(),
        wanted > 0,
        reader.in_nodes(offset as int, wanted as int),
        reader.node_cache@.len() == reader.node_len,
    ensures
        reader.served(offset, wanted) == Ok::<ForwardStep, StorageError>(
            ForwardStep::Nodes { start: (offset - reader.node_offset) as usize },
        ),
{
}

/// Reads within the nodes go to the nodes and no others do; a session is opened
/// just where the read begins, and only where none is open.
pub proof fn reads_go_where_their_bytes_are(reader: ForwardChunkReader, offset: u32, wanted: usize)
    requires
        wanted > 0,
        offset + wanted <= u32::MAX,
    ensures
        ({
            let step = reader.served(offset, wanted);
            let inside = reader.node_offset <= offset && offset + wanted <= reader.node_offset
                + reader.node_len;
            &&& !inside ==> (step matches Ok(ForwardStep::Session { open_at }) && (open_at is None
                <==> reader.session_open) && (open_at matches Some(at) ==> at == offset))
            &&& inside && reader.node_cache@.len() == 0 ==> (step matches Ok(
                ForwardStep::FillNodes { open_at },
            ) && (open_at is None <==> reader.session_open) && (open_at matches Some(at) ==> at
                == offset))
            &&& inside && reader.node_cache@.len() > 0 ==> (if offset + wanted <= reader.node_offset
                + reader.node_cache@.len() {
                step matches Ok(ForwardStep::Nodes { start }) && reader.node_offset + start == offset
            } else {
                step is Err
            })
        }),
{
}

} // verus!
