//! Reading chunks of the world pack, sector by sector.
//!
//! A chunk begins at a sector of its own. In contracts the disc, from that
//! sector on, is a sequence of bytes; a sector is 2048 of them.

use vstd::prelude::*;

verus! {

pub const SECTOR_BYTES: usize = 2048;

pub const ASSET_COUNT: usize = 12;

/// Two sectors keep small reads together. A read of half the cache lies across
/// two sectors at worst.
pub const STORAGE_CACHE_SECTORS: usize = 2;

pub const STORAGE_CACHE_BYTES: usize = 4096;

#[derive(Copy, Clone, Debug, PartialEq, Eq, Structural)]
pub enum StorageError {
    MissingChunk,
    OutOfBounds,
    ReadFailed,
}

/// Where a chunk lies in the pack.
#[derive(Copy, Clone, Debug, PartialEq, Eq, Structural)]
pub struct PackEntry {
    pub sector_offset: u32,
    pub byte_size: u32,
}

/// The place of a chunk in the table of entries: three small chunks, the
/// common graphics, then the eight maps of the episode.
pub open spec fn chunk_slot(chunk_id: u32) -> Option<usize> {
    if 1 <= chunk_id <= 3 {
        Some((chunk_id - 1) as usize)
    } else if 100 <= chunk_id <= 108 {
        Some((chunk_id - 97) as usize)
    } else {
        None
    }
}

pub fn cache_index(chunk_id: u32) -> (slot: Option<usize>)
    ensures
        slot == chunk_slot(chunk_id),
{
    if chunk_id >= 1 && chunk_id <= 3 {
        Some((chunk_id - 1) as usize)
    } else if chunk_id >= 100 && chunk_id <= 108 {
        Some((chunk_id - 97) as usize)
    } else {
        None
    }
}

/// Every known chunk has a place of its own in the table.
pub proof fn chunk_slots_are_distinct(left: u32, right: u32)
    ensures
        chunk_slot(left) is Some ==> chunk_slot(left)->0 < ASSET_COUNT,
        chunk_slot(left) is Some && chunk_slot(left) == chunk_slot(right) ==> left == right,
{
}

/// Entries that have been looked up.
pub struct EntryCache {
    pub entries: Vec<Option<PackEntry>>,
}

/// What to do for a chunk's entry.
#[derive(Copy, Clone, Debug, PartialEq, Eq, Structural)]
pub enum EntryLookup {
    Unknown,
    Cached(PackEntry),
    Search,
}

impl EntryCache {
    pub open spec fn valid(&self) -> bool {
        self.entries@.len() == ASSET_COUNT
    }

    pub fn new() -> (cache: Self)
        ensures
            cache.valid(),
            forall|i: int| 0 <= i < ASSET_COUNT ==> cache.entries@[i] is None,
    {
        let mut entries: Vec<Option<PackEntry>> = Vec::new();
        let mut index: usize = 0;
        while index < ASSET_COUNT
            invariant
                index <= ASSET_COUNT,
                entries@.len() == index,
                forall|i: int| 0 <= i < index ==> entries@[i] is None,
            decreases ASSET_COUNT - index,
        {
            entries.push(None);
            index += 1;
        }
        EntryCache { entries }
    }

    /// Chunks outside the table are unknown; the pack is searched only for an
    /// entry that has not been found before.
    pub fn entry_for(&self, chunk_id: u32) -> (lookup: EntryLookup)
        requires
            self.valid(),
        ensures
            lookup == match chunk_slot(chunk_id) {
                None => EntryLookup::Unknown,
                Some(slot) => match self.entries@[slot as int] {
                    Some(entry) => EntryLookup::Cached(entry),
                    None => EntryLookup::Search,
                },
            },
    {
        match cache_index(chunk_id) {
            None => EntryLookup::Unknown,
            Some(slot) => match self.entries[slot] {
                Some(entry) => EntryLookup::Cached(entry),
                None => EntryLookup::Search,
            },
        }
    }

    /// Keep an entry that was found.
    pub fn remember(&mut self, chunk_id: u32, entry: PackEntry)
        requires
            old(self).valid(),
            chunk_slot(chunk_id) is Some,
        ensures
            final(self).valid(),
            final(self).entries@ == old(self).entries@.update(
                chunk_slot(chunk_id)->0 as int,
                Some(entry),
            ),
    {
        if let Some(slot) = cache_index(chunk_id) {
            self.entries.set(slot, Some(entry));
        }
    }
}

/// Size of a chunk, if it has an entry.
pub fn chunk_size(entry: Option<PackEntry>) -> (size: Result<u32, StorageError>)
    ensures
        size == match entry {
            Some(known) => Ok::<u32, StorageError>(known.byte_size),
            None => Err(StorageError::MissingChunk),
        },
{
    match entry {
        Some(known) => Ok(known.byte_size),
        None => Err(StorageError::MissingChunk),
    }
}

/// Sector of the disc that holds a byte of a chunk.
pub fn absolute_sector(pack: u32, entry: PackEntry, offset: u32) -> (sector: u32)
    requires
        pack + entry.sector_offset + offset / 2048 <= u32::MAX,
    ensures
        sector == pack + entry.sector_offset + offset / 2048,
{
    pack + entry.sector_offset + offset / 2048
}

/// The disc, from a chunk's first sector on, holds all of the chunk in whole
/// sectors.
pub open spec fn disc_holds(disc: Seq<u8>, entry: PackEntry) -> bool {
    &&& disc.len() % 2048 == 0
    &&& disc.len() >= entry.byte_size
}

pub open spec fn sector_of(disc: Seq<u8>, index: int) -> Seq<u8> {
    disc.subrange(index * 2048, index * 2048 + 2048)
}

/// Append part of a sector.
fn append_part(output: &mut Vec<u8>, sector: &Vec<u8>, from: usize, count: usize)
    requires
        from + count <= sector@.len(),
        sector@.len() <= 0x10_0000,
    ensures
        final(output)@ == old(output)@ + sector@.subrange(from as int, from + count),
{
    let mut index: usize = 0;
    assert(output@ =~= old(output)@ + sector@.subrange(from as int, from as int));
    while index < count
        invariant
            index <= count,
            from + count <= sector@.len(),
            sector@.len() <= 0x10_0000,
            output@ == old(output)@ + sector@.subrange(from as int, from + index),
        decreases count - index,
    {
        output.push(sector[from + index]);
        index += 1;
        assert(output@ =~= old(output)@ + sector@.subrange(from as int, from + index));
    }
}

/// A forward-only session over a chunk. Large payloads are read in one
/// session, as starting and pausing the drive costs more than reading.
pub struct ChunkStream {
    pub entry: PackEntry,
    pub cursor: u32,
    pub sector_pos: usize,
    pub sector: Vec<u8>,
    pub sector_loaded: bool,
    pub active: bool,
}

/// A read under way.
pub struct StreamRead {
    pub offset: u32,
    pub wanted: usize,
    pub output: Vec<u8>,
}

#[derive(Copy, Clone, Debug, PartialEq, Eq, Structural)]
pub enum StreamStep {
    /// The next sector of the disc is needed.
    Sector,
    Done,
}

/// Whether a session may be opened, and at which sector of the chunk.
pub fn check_open(entry: Option<PackEntry>, offset: u32, busy: bool) -> (start: Result<u32, StorageError>)
    ensures
        start == match entry {
            None => Err::<u32, StorageError>(StorageError::MissingChunk),
            Some(known) => if offset >= known.byte_size {
                Err(StorageError::OutOfBounds)
            } else if busy {
                Err(StorageError::ReadFailed)
            } else {
                Ok((offset / 2048) as u32)
            },
        },
{
    match entry {
        None => Err(StorageError::MissingChunk),
        Some(known) => if offset >= known.byte_size {
            Err(StorageError::OutOfBounds)
        } else if busy {
            Err(StorageError::ReadFailed)
        } else {
            Ok(offset / 2048)
        },
    }
}

impl ChunkStream {
    pub open spec fn valid(&self) -> bool {
        &&& self.cursor <= self.entry.byte_size
        &&& self.sector_pos == self.cursor % 2048
        &&& self.sector_loaded ==> self.sector@.len() == 2048
    }

    /// The loaded sector is the one that the cursor is in.
    pub open spec fn tracks(&self, disc: Seq<u8>) -> bool {
        &&& disc_holds(disc, self.entry)
        &&& self.sector_loaded ==> {
            &&& self.cursor / 2048 * 2048 + 2048 <= disc.len()
            &&& self.sector@ == sector_of(disc, self.cursor as int / 2048)
        }
    }

    /// How far the loaded data goes.
    pub open spec fn reach(&self) -> int {
        if self.sector_loaded {
            self.cursor / 2048 * 2048 + 2048
        } else {
            self.cursor as int
        }
    }

    /// A session that starts at `offset`, once the drive has answered.
    pub fn open_at(entry: PackEntry, offset: u32, started: bool) -> (stream: Result<
        ChunkStream,
        StorageError,
    >)
        requires
            offset < entry.byte_size,
        ensures
            match stream {
                Ok(stream) => {
                    &&& started
                    &&& stream.valid()
                    &&& stream.entry == entry
                    &&& stream.cursor == offset
                    &&& !stream.sector_loaded
                    &&& stream.active
                },
                Err(error) => !started && error == StorageError::ReadFailed,
            },
    {
        if !started {
            return Err(StorageError::ReadFailed);
        }
        Ok(
            ChunkStream {
                entry,
                cursor: offset,
                sector_pos: (offset % 2048) as usize,
                sector: Vec::new(),
                sector_loaded: false,
                active: true,
            },
        )
    }

    /// The read can go on: what is behind the cursor has been skipped or
    /// handed over.
    pub open spec fn serves(&self, read: &StreamRead) -> bool {
        &&& self.valid()
        &&& read.offset + read.wanted <= self.entry.byte_size
        &&& read.output@.len() <= read.wanted
        &&& self.cursor < read.offset ==> read.output@.len() == 0
        &&& self.cursor >= read.offset ==> self.cursor == read.offset + read.output@.len()
    }

    /// Begin a read at the cursor or further on. The session does not go back.
    pub fn begin_read(&self, offset: u32, wanted: usize) -> (read: Result<StreamRead, StorageError>)
        requires
            self.valid(),
        ensures
            match read {
                Ok(read) => {
                    &&& self.cursor <= offset
                    &&& offset + wanted <= self.entry.byte_size
                    &&& self.serves(&read)
                    &&& read.offset == offset
                    &&& read.wanted == wanted
                    &&& read.output@.len() == 0
                },
                Err(error) => {
                    &&& error == StorageError::OutOfBounds
                    &&& (offset < self.cursor || offset + wanted > self.entry.byte_size)
                },
            },
    {
        if wanted > u32::MAX as usize {
            return Err(StorageError::OutOfBounds);
        }
        if offset < self.cursor || offset > self.entry.byte_size {
            return Err(StorageError::OutOfBounds);
        }
        if wanted as u32 > self.entry.byte_size - offset {
            return Err(StorageError::OutOfBounds);
        }
        Ok(StreamRead { offset, wanted, output: Vec::new() })
    }

    fn consume(&mut self, count: usize)
        requires
            old(self).valid(),
            old(self).sector_loaded,
            old(self).sector_pos + count <= 2048,
            old(self).cursor + count <= old(self).entry.byte_size,
        ensures
            final(self).valid(),
            final(self).cursor == old(self).cursor + count,
            final(self).sector_loaded == (old(self).sector_pos + count < 2048),
            final(self).sector@ == old(self).sector@,
            final(self).entry == old(self).entry,
            final(self).active == old(self).active,
            final(self).sector_loaded ==> final(self).cursor / 2048 == old(self).cursor / 2048,
            !final(self).sector_loaded ==> final(self).cursor == old(self).cursor / 2048 * 2048
                + 2048,
    {
        self.sector_pos += count;
        self.cursor += count as u32;
        if self.sector_pos == SECTOR_BYTES {
            self.sector_pos = 0;
            self.sector_loaded = false;
        }
    }

    /// Skip and copy as far as the loaded sector goes. When the read is done at
    /// the end of the chunk, the session ends.
    pub fn advance(&mut self, read: &mut StreamRead) -> (step: StreamStep)
        requires
            old(self).serves(&*old(read)),
        ensures
            ({
                let target = old(read).offset + old(read).wanted;
                let reach = old(self).reach();
                &&& final(self).serves(&*final(read))
                &&& final(read).offset == old(read).offset
                &&& final(read).wanted == old(read).wanted
                &&& final(self).entry == old(self).entry
                &&& final(self).sector@ == old(self).sector@
                &&& step == if target <= reach {
                    StreamStep::Done
                } else {
                    StreamStep::Sector
                }
                &&& final(self).cursor == if target <= reach {
                    target
                } else {
                    reach
                }
                &&& final(self).sector_loaded == (old(self).sector_loaded && target < reach)
                &&& final(self).active == (old(self).active && !(step == StreamStep::Done && target
                    == old(self).entry.byte_size))
            }),
            step == StreamStep::Done ==> final(read).output@.len() == old(read).wanted,
            forall|disc: Seq<u8>| #[trigger]
                old(self).tracks(disc) && read_so_far(*old(read), disc) ==> final(self).tracks(disc)
                    && read_so_far(*final(read), disc),
    {
        let ghost before = *self;
        let ghost target = read.offset + read.wanted;
        if self.sector_loaded && self.cursor < read.offset {
            let available: usize = SECTOR_BYTES - self.sector_pos;
            let ahead: u32 = read.offset - self.cursor;
            let skip: usize = if (available as u32) < ahead {
                available
            } else {
                ahead as usize
            };
            self.consume(skip);
        }
        assert(forall|disc: Seq<u8>| #[trigger] before.tracks(disc) ==> self.tracks(disc));
        if self.sector_loaded && self.cursor >= read.offset && read.output.len() < read.wanted {
            let ghost held = *self;
            let ghost got = *read;
            let available: usize = SECTOR_BYTES - self.sector_pos;
            let left: usize = read.wanted - read.output.len();
            let take: usize = if available < left {
                available
            } else {
                left
            };
            append_part(&mut read.output, &self.sector, self.sector_pos, take);
            self.consume(take);
            assert forall|disc: Seq<u8>|
                #![trigger held.tracks(disc)]
                held.tracks(disc) && read_so_far(got, disc) implies self.tracks(disc)
                && read_so_far(*read, disc) by {
                assert(held.sector@ == sector_of(disc, held.cursor as int / 2048));
                assert(held.cursor as int == held.cursor as int / 2048 * 2048 + held.sector_pos);
                assert(read.output@ =~= disc.subrange(
                    read.offset as int,
                    read.offset + read.output@.len(),
                ));
            }
        }
        if self.cursor >= read.offset && read.output.len() == read.wanted {
            if self.cursor == self.entry.byte_size {
                self.active = false;
            }
            return StreamStep::Done;
        }
        StreamStep::Sector
    }

    /// The next sector has been read.
    pub fn supply(&mut self, sector: Vec<u8>)
        requires
            old(self).valid(),
            !old(self).sector_loaded,
            sector@.len() == 2048,
        ensures
            final(self).valid(),
            final(self).sector_loaded,
            final(self).sector@ == sector@,
            final(self).cursor == old(self).cursor,
            final(self).entry == old(self).entry,
            final(self).active == old(self).active,
            forall|read: StreamRead| #[trigger]
                old(self).serves(&read) ==> final(self).serves(&read),
            forall|disc: Seq<u8>|
                disc_holds(disc, old(self).entry) && old(self).cursor / 2048 * 2048 + 2048
                    <= disc.len() && sector@ == sector_of(disc, old(self).cursor as int / 2048)
                    ==> #[trigger] final(self).tracks(disc),
    {
        self.sector = sector;
        self.sector_loaded = true;
    }

    /// The drive did not deliver. The session is over.
    pub fn fail(&mut self) -> (error: StorageError)
        ensures
            error == StorageError::ReadFailed,
            !final(self).active,
            final(self).cursor == old(self).cursor,
            final(self).entry == old(self).entry,
            final(self).sector_loaded == old(self).sector_loaded,
            final(self).sector == old(self).sector,
            final(self).sector_pos == old(self).sector_pos,
    {
        self.active = false;
        StorageError::ReadFailed
    }

    /// End the session; whether the drive has to be stopped.
    pub fn stop(&mut self) -> (stop_drive: bool)
        ensures
            stop_drive == old(self).active,
            !final(self).active,
            final(self).cursor == old(self).cursor,
            final(self).entry == old(self).entry,
            final(self).sector_loaded == old(self).sector_loaded,
            final(self).sector == old(self).sector,
            final(self).sector_pos == old(self).sector_pos,
    {
        let stop_drive: bool = self.active;
        self.active = false;
        stop_drive
    }
}

/// What a read has handed over so far is what the disc holds there.
pub open spec fn read_so_far(read: StreamRead, disc: Seq<u8>) -> bool {
    &&& read.offset + read.output@.len() <= disc.len()
    &&& read.output@ == disc.subrange(read.offset as int, read.offset + read.output@.len())
}

/// A finished read holds exactly the bytes of the chunk that were asked for,
/// however the sectors fell.
pub proof fn finished_reads_are_exact(stream: ChunkStream, read: StreamRead, disc: Seq<u8>)
    requires
        stream.serves(&read),
        stream.tracks(disc),
        read_so_far(read, disc),
        read.output@.len() == read.wanted,
    ensures
        read.output@ == disc.subrange(0, stream.entry.byte_size as int).subrange(
            read.offset as int,
            read.offset + read.wanted,
        ),
{
    assert(disc.subrange(0, stream.entry.byte_size as int).subrange(
        read.offset as int,
        read.offset + read.wanted,
    ) =~= disc.subrange(read.offset as int, read.offset + read.wanted));
}

/// A session never needs a sector twice: after an exhausted sector the one
/// needed next is the following one.
pub proof fn sectors_come_in_order(before: ChunkStream, after: ChunkStream)
    requires
        before.valid(),
        before.sector_loaded,
        after.valid(),
        !after.sector_loaded,
        after.cursor == before.reach(),
    ensures
        after.cursor / 2048 == before.cursor / 2048 + 1,
        after.sector_pos == 0,
{
}

/// What a burst has gathered once one more sector is there: of the sector that
/// holds the next byte, everything from that byte on that is still wanted.
pub open spec fn burst_taken(offset: int, wanted: int, output: Seq<u8>, sector: Seq<u8>) -> Seq<u8> {
    let skip = (offset + output.len()) % 2048;
    let left = wanted - output.len();
    let take = if 2048 - skip < left {
        2048 - skip
    } else {
        left
    };
    output + sector.subrange(skip, skip + take)
}

/// What a burst has gathered of the disc after so many sectors.
pub open spec fn burst_bytes(offset: int, wanted: int, disc: Seq<u8>, sectors: nat) -> Seq<u8>
    decreases sectors,
{
    if sectors == 0 {
        Seq::empty()
    } else {
        let before = burst_bytes(offset, wanted, disc, (sectors - 1) as nat);
        if before.len() >= wanted {
            before
        } else {
            burst_taken(
                offset,
                wanted,
                before,
                sector_of(disc, (offset + before.len()) / 2048),
            )
        }
    }
}

/// Sectors after which a burst is done.
pub open spec fn burst_sectors(offset: int, wanted: int) -> nat {
    ((offset % 2048 + wanted + 2047) / 2048) as nat
}

/// A burst gathers the bytes of the disc in order, all of a sector's at once.
proof fn burst_follows_the_disc(offset: int, wanted: int, disc: Seq<u8>, sectors: nat)
    requires
        0 <= offset,
        0 <= wanted,
        offset + wanted <= disc.len(),
        disc.len() % 2048 == 0,
    ensures
        ({
            let gathered = burst_bytes(offset, wanted, disc, sectors);
            let reach = if sectors == 0 {
                0
            } else {
                2048 * sectors - offset % 2048
            };
            &&& gathered.len() == if reach < wanted {
                reach
            } else {
                wanted
            }
            &&& gathered == disc.subrange(offset, offset + gathered.len())
        }),
    decreases sectors,
{
    let gathered = burst_bytes(offset, wanted, disc, sectors);
    if sectors == 0 {
        assert(gathered =~= disc.subrange(offset, offset));
    } else {
        burst_follows_the_disc(offset, wanted, disc, (sectors - 1) as nat);
        let before = burst_bytes(offset, wanted, disc, (sectors - 1) as nat);
        if before.len() < wanted {
            let next = offset + before.len();
            let index = next / 2048;
            assert(index * 2048 + 2048 <= disc.len());
            let sector = sector_of(disc, index);
            assert(gathered =~= disc.subrange(offset, offset + gathered.len())) by {
                assert(forall|i: int|
                    0 <= i < 2048 ==> #[trigger] sector[i] == disc[index * 2048 + i]);
            }
        }
    }
}

/// A read that bypasses the cache and takes whole sectors off the disc.
pub struct StorageBurst {
    pub offset: u32,
    pub wanted: usize,
    pub skip: usize,
    pub output: Vec<u8>,
}

impl StorageBurst {
    pub open spec fn valid(&self) -> bool {
        &&& self.output@.len() <= self.wanted
        &&& self.output@.len() < self.wanted ==> self.skip == (self.offset + self.output@.len())
            % 2048
    }

    pub open spec fn exact(&self, disc: Seq<u8>) -> bool {
        &&& self.offset + self.output@.len() <= disc.len()
        &&& self.output@ == disc.subrange(self.offset as int, self.offset + self.output@.len())
    }

    /// The sector of the chunk that is needed next.
    pub open spec fn next_sector(&self) -> int {
        (self.offset + self.output@.len()) / 2048
    }

    pub fn new(offset: u32, wanted: usize) -> (burst: Self)
        ensures
            burst.valid(),
            burst.offset == offset,
            burst.wanted == wanted,
            burst.output@.len() == 0,
            burst.next_sector() == offset / 2048,
            forall|disc: Seq<u8>| offset <= disc.len() ==> #[trigger] burst.exact(disc),
    {
        let burst = StorageBurst {
            offset,
            wanted,
            skip: (offset % 2048) as usize,
            output: Vec::new(),
        };
        assert forall|disc: Seq<u8>| offset <= disc.len() implies #[trigger] burst.exact(disc) by {
            assert(burst.output@ =~= disc.subrange(offset as int, offset as int));
        }
        burst
    }

    pub fn done(&self) -> (done: bool)
        requires
            self.valid(),
        ensures
            done == (self.output@.len() == self.wanted),
    {
        self.output.len() == self.wanted
    }

    /// Take what is wanted of the next sector.
    pub fn take_sector(&mut self, sector: &Vec<u8>)
        requires
            old(self).valid(),
            old(self).output@.len() < old(self).wanted,
            sector@.len() == 2048,
        ensures
            final(self).valid(),
            final(self).offset == old(self).offset,
            final(self).wanted == old(self).wanted,
            final(self).output@ == burst_taken(
                old(self).offset as int,
                old(self).wanted as int,
                old(self).output@,
                sector@,
            ),
            final(self).output@.len() < final(self).wanted ==> final(self).next_sector() == old(
                self,
            ).next_sector() + 1,
            forall|disc: Seq<u8>| #[trigger]
                old(self).exact(disc) && old(self).next_sector() * 2048 + 2048 <= disc.len()
                    && sector@ == sector_of(disc, old(self).next_sector()) ==> final(self).exact(
                    disc,
                ),
    {
        let ghost before = *self;
        let available: usize = SECTOR_BYTES - self.skip;
        let left: usize = self.wanted - self.output.len();
        let take: usize = if available < left {
            available
        } else {
            left
        };
        append_part(&mut self.output, sector, self.skip, take);
        self.skip = 0;
        assert forall|disc: Seq<u8>| #[trigger]
            before.exact(disc) && before.next_sector() * 2048 + 2048 <= disc.len() && sector@
                == sector_of(disc, before.next_sector()) implies self.exact(disc) by {
            assert(before.offset + before.output@.len() == before.next_sector() * 2048
                + before.skip);
            assert(self.output@ =~= disc.subrange(
                self.offset as int,
                self.offset + self.output@.len(),
            ));
        }
    }
}

/// The sectors read last for small reads.
pub struct StorageCache {
    pub chunk: u32,
    pub offset: u32,
    pub len: usize,
    pub bytes: Vec<u8>,
}

pub struct StorageCacheView {
    pub chunk: u32,
    pub offset: int,
    pub len: int,
    pub bytes: Seq<u8>,
}

impl View for StorageCache {
    type V = StorageCacheView;

    open spec fn view(&self) -> StorageCacheView {
        StorageCacheView {
            chunk: self.chunk,
            offset: self.offset as int,
            len: self.len as int,
            bytes: self.bytes@,
        }
    }
}

/// How a read is served.
#[derive(Copy, Clone, Debug, PartialEq, Eq, Structural)]
pub enum ReadPlan {
    /// Nothing was asked for.
    Nothing,
    /// The cache holds it.
    Cached,
    /// The cache is filled from this byte of the chunk, with so many sectors.
    Fill { aligned: u32, sectors: usize },
    /// The read takes sectors off the disc by itself.
    Burst,
}

/// First byte of the sector that holds a byte.
pub open spec fn aligned_down(offset: int) -> int {
    offset / 2048 * 2048
}

/// Sectors to read into the cache: up to the chunk's end, two at most.
pub open spec fn sectors_to_fill(entry: PackEntry, offset: int) -> int {
    let remaining = entry.byte_size - aligned_down(offset);
    let sectors = (remaining + 2047) / 2048;
    if sectors < STORAGE_CACHE_SECTORS {
        sectors
    } else {
        STORAGE_CACHE_SECTORS as int
    }
}

impl StorageCacheView {
    pub open spec fn valid(&self) -> bool {
        &&& 0 <= self.len <= self.bytes.len()
        &&& self.len <= STORAGE_CACHE_BYTES
        &&& self.bytes.len() <= STORAGE_CACHE_BYTES
        &&& 0 <= self.offset
        &&& self.offset + self.len <= u32::MAX
    }

    /// The range lies in what the cache holds of the chunk.
    pub open spec fn covers(&self, chunk_id: u32, offset: int, wanted: int) -> bool {
        &&& self.chunk == chunk_id
        &&& self.offset <= offset
        &&& offset + wanted <= self.offset + self.len
    }

    /// What the cache holds of a chunk is what the disc holds.
    pub open spec fn exact(&self, chunk_id: u32, disc: Seq<u8>) -> bool {
        self.chunk == chunk_id ==> {
            &&& self.offset + self.len <= disc.len()
            &&& self.bytes.subrange(0, self.len) == disc.subrange(
                self.offset,
                self.offset + self.len,
            )
        }
    }

    /// The cache's own bytes of a range.
    pub open spec fn served(&self, offset: int, wanted: int) -> Seq<u8> {
        self.bytes.subrange(offset - self.offset, offset - self.offset + wanted)
    }
}

/// How an exact byte range of a chunk is read.
pub open spec fn planned_read(
    cache: StorageCacheView,
    session_open: bool,
    entry: Option<PackEntry>,
    chunk_id: u32,
    offset: int,
    wanted: int,
) -> Result<ReadPlan, StorageError> {
    if session_open {
        Err(StorageError::ReadFailed)
    } else {
        match entry {
            None => Err(StorageError::MissingChunk),
            Some(known) => if offset + wanted > known.byte_size {
                Err(StorageError::OutOfBounds)
            } else if wanted == 0 {
                Ok(ReadPlan::Nothing)
            } else if cache.covers(chunk_id, offset, wanted) {
                Ok(ReadPlan::Cached)
            } else if wanted <= STORAGE_CACHE_BYTES / 2 {
                Ok(
                    ReadPlan::Fill {
                        aligned: aligned_down(offset) as u32,
                        sectors: sectors_to_fill(known, offset) as usize,
                    },
                )
            } else {
                Ok(ReadPlan::Burst)
            },
        }
    }
}

/// The cache once it holds the sectors around a byte of a chunk.
pub open spec fn filled_cache(
    chunk_id: u32,
    entry: PackEntry,
    offset: int,
    sectors: Seq<u8>,
) -> StorageCacheView {
    let remaining = entry.byte_size - aligned_down(offset);
    StorageCacheView {
        chunk: chunk_id,
        offset: aligned_down(offset),
        len: if remaining < STORAGE_CACHE_BYTES {
            remaining
        } else {
            STORAGE_CACHE_BYTES as int
        },
        bytes: sectors,
    }
}

impl StorageCache {
    pub open spec fn valid(&self) -> bool {
        self@.valid()
    }

    pub fn new() -> (cache: Self)
        ensures
            cache.valid(),
            cache.chunk == u32::MAX,
            cache.len == 0,
            cache.offset == 0,
            forall|discs: spec_fn(u32) -> Seq<u8>| #[trigger] caches_discs(cache@, discs),
    {
        let cache = StorageCache { chunk: u32::MAX, offset: 0, len: 0, bytes: Vec::new() };
        assert forall|discs: spec_fn(u32) -> Seq<u8>| #[trigger] caches_discs(cache@, discs) by {
            assert forall|chunk_id: u32| #[trigger] cache@.exact(chunk_id, discs(chunk_id)) by {
                assert(cache@.bytes.subrange(0, 0) =~= discs(chunk_id).subrange(0, 0));
            }
        }
        cache
    }

    /// Decide how an exact byte range of a chunk is read. While a session is
    /// open the drive is taken.
    pub fn read_chunk_exact(
        &self,
        session_open: bool,
        entry: Option<PackEntry>,
        chunk_id: u32,
        offset: u32,
        wanted: usize,
    ) -> (plan: Result<ReadPlan, StorageError>)
        requires
            self.valid(),
        ensures
            plan == planned_read(
                self@,
                session_open,
                entry,
                chunk_id,
                offset as int,
                wanted as int,
            ),
    {
        if session_open {
            return Err(StorageError::ReadFailed);
        }
        let known: PackEntry = match entry {
            None => {
                return Err(StorageError::MissingChunk);
            },
            Some(found) => found,
        };
        if wanted > u32::MAX as usize {
            return Err(StorageError::OutOfBounds);
        }
        if offset > known.byte_size || wanted as u32 > known.byte_size - offset {
            return Err(StorageError::OutOfBounds);
        }
        if wanted == 0 {
            return Ok(ReadPlan::Nothing);
        }
        let cache_end: u32 = self.offset + self.len as u32;
        if self.chunk == chunk_id && offset >= self.offset && offset + wanted as u32 <= cache_end {
            return Ok(ReadPlan::Cached);
        }
        if wanted <= STORAGE_CACHE_BYTES / 2 {
            let aligned: u32 = offset / 2048 * 2048;
            let remaining: u32 = known.byte_size - aligned;
            let whole: u32 = if remaining % 2048 == 0 {
                remaining / 2048
            } else {
                remaining / 2048 + 1
            };
            let sectors: usize = if whole < 2 {
                whole as usize
            } else {
                STORAGE_CACHE_SECTORS
            };
            return Ok(ReadPlan::Fill { aligned, sectors });
        }
        Ok(ReadPlan::Burst)
    }

    /// Hand out a range that the cache holds.
    pub fn serve(&self, offset: u32, wanted: usize) -> (output: Vec<u8>)
        requires
            self.valid(),
            self@.covers(self.chunk, offset as int, wanted as int),
        ensures
            output@ == self@.served(offset as int, wanted as int),
            forall|disc: Seq<u8>| #[trigger]
                self@.exact(self.chunk, disc) ==> output@ == disc.subrange(
                    offset as int,
                    offset + wanted,
                ),
    {
        let mut output: Vec<u8> = Vec::new();
        append_part(&mut output, &self.bytes, (offset - self.offset) as usize, wanted);
        assert(output@ =~= self.bytes@.subrange(
            offset - self.offset,
            offset - self.offset + wanted,
        ));
        assert forall|disc: Seq<u8>| #[trigger] self@.exact(self.chunk, disc) implies output@
            == disc.subrange(offset as int, offset + wanted) by {
            assert(forall|i: int|
                0 <= i < wanted ==> output@[i] == self.bytes@.subrange(0, self.len as int)[offset
                    - self.offset + i]);
            assert(output@ =~= disc.subrange(offset as int, offset + wanted));
        }
        output
    }

    /// Keep the sectors that were read. Until all of them are there the cache
    /// stays as it is.
    pub fn fill_storage_cache(&mut self, chunk_id: u32, entry: PackEntry, offset: u32, sectors: Vec<u8>)
        requires
            offset < entry.byte_size,
            sectors@.len() == sectors_to_fill(entry, offset as int) * 2048,
        ensures
            final(self).valid(),
            final(self)@ == filled_cache(chunk_id, entry, offset as int, sectors@),
            forall|disc: Seq<u8>|
                disc_holds(disc, entry) && aligned_down(offset as int) + sectors@.len()
                    <= disc.len() && sectors@ == disc.subrange(
                    aligned_down(offset as int),
                    aligned_down(offset as int) + sectors@.len(),
                ) ==> #[trigger] final(self)@.exact(chunk_id, disc),
    {
        let aligned: u32 = offset / 2048 * 2048;
        let remaining: u32 = entry.byte_size - aligned;
        self.chunk = chunk_id;
        self.offset = aligned;
        self.len = if remaining < 4096 {
            remaining as usize
        } else {
            STORAGE_CACHE_BYTES
        };
        self.bytes = sectors;
        assert forall|disc: Seq<u8>|
            disc_holds(disc, entry) && aligned_down(offset as int) + self.bytes@.len() <= disc.len()
                && self.bytes@ == disc.subrange(
                aligned_down(offset as int),
                aligned_down(offset as int) + self.bytes@.len(),
            ) implies #[trigger] self@.exact(chunk_id, disc) by {
            assert(self.bytes@.subrange(0, self.len as int) =~= disc.subrange(
                self.offset as int,
                self.offset + self.len,
            ));
        }
    }
}

/// A filled cache covers the read that it was filled for. That is why two
/// sectors are the least it can have.
pub proof fn a_filled_cache_covers_the_read(
    chunk_id: u32,
    entry: PackEntry,
    offset: int,
    wanted: int,
    sectors: Seq<u8>,
)
    requires
        0 <= offset,
        0 < wanted <= STORAGE_CACHE_BYTES / 2,
        offset + wanted <= entry.byte_size,
    ensures
        filled_cache(chunk_id, entry, offset, sectors).covers(chunk_id, offset, wanted),
{
}

/// What a read gives while every sector can be read, and the cache it leaves:
/// a plan is made and followed, and the sectors that it asks for come off the
/// disc.
pub open spec fn after_read(
    cache: StorageCacheView,
    entry: Option<PackEntry>,
    chunk_id: u32,
    offset: int,
    wanted: int,
    disc: Seq<u8>,
) -> (Result<Seq<u8>, StorageError>, StorageCacheView) {
    match planned_read(cache, false, entry, chunk_id, offset, wanted) {
        Err(error) => (Err(error), cache),
        Ok(ReadPlan::Nothing) => (Ok(Seq::empty()), cache),
        Ok(ReadPlan::Cached) => (Ok(cache.served(offset, wanted)), cache),
        Ok(ReadPlan::Fill { aligned, sectors }) => {
            let bytes = disc.subrange(aligned as int, aligned + sectors * 2048);
            let filled = filled_cache(chunk_id, entry->0, offset, bytes);
            (Ok(filled.served(offset, wanted)), filled)
        },
        Ok(ReadPlan::Burst) => (
            Ok(burst_bytes(offset, wanted, disc, burst_sectors(offset, wanted))),
            cache,
        ),
    }
}

/// The cache holds what the discs hold, whichever chunk it is of.
pub open spec fn caches_discs(cache: StorageCacheView, discs: spec_fn(u32) -> Seq<u8>) -> bool {
    &&& cache.valid()
    &&& forall|chunk_id: u32| #[trigger] cache.exact(chunk_id, discs(chunk_id))
}

/// Every chunk of the pack is on its disc.
pub open spec fn pack_on_disc(
    entries: spec_fn(u32) -> Option<PackEntry>,
    discs: spec_fn(u32) -> Seq<u8>,
) -> bool {
    forall|chunk_id: u32|
        #![trigger entries(chunk_id)]
        entries(chunk_id) matches Some(entry) ==> disc_holds(discs(chunk_id), entry)
}

/// A read gives the chunk's bytes of its range exactly when the range lies in
/// the chunk, and is refused as out of bounds otherwise, whatever the cache has
/// kept of earlier reads. Afterwards the cache still holds what the discs hold.
pub proof fn reads_are_exact(
    cache: StorageCacheView,
    entries: spec_fn(u32) -> Option<PackEntry>,
    discs: spec_fn(u32) -> Seq<u8>,
    chunk_id: u32,
    offset: u32,
    wanted: usize,
)
    requires
        caches_discs(cache, discs),
        pack_on_disc(entries, discs),
        entries(chunk_id) is Some,
    ensures
        ({
            let entry = entries(chunk_id)->0;
            let chunk = discs(chunk_id).take(entry.byte_size as int);
            let (result, after) = after_read(
                cache,
                Some(entry),
                chunk_id,
                offset as int,
                wanted as int,
                discs(chunk_id),
            );
            &&& result == if offset + wanted <= chunk.len() {
                Ok::<Seq<u8>, StorageError>(chunk.subrange(offset as int, offset + wanted))
            } else {
                Err(StorageError::OutOfBounds)
            }
            &&& caches_discs(after, discs)
        }),
{
    let entry = entries(chunk_id)->0;
    let disc = discs(chunk_id);
    let chunk = disc.take(entry.byte_size as int);
    let first = offset as int;
    let count = wanted as int;
    assert(disc_holds(disc, entry));
    assert(cache.exact(chunk_id, disc));
    if first + count <= entry.byte_size {
        let expected = chunk.subrange(first, first + count);
        assert(expected =~= disc.subrange(first, first + count));
        match planned_read(cache, false, Some(entry), chunk_id, first, count) {
            Ok(ReadPlan::Nothing) => {
                assert(expected =~= Seq::empty());
            },
            Ok(ReadPlan::Cached) => {
                assert(forall|i: int|
                    0 <= i < count ==> cache.served(first, count)[i] == cache.bytes.subrange(
                        0,
                        cache.len,
                    )[first - cache.offset + i]);
                assert(cache.served(first, count) =~= expected);
            },
            Ok(ReadPlan::Fill { aligned, sectors }) => {
                let low = aligned_down(first);
                assert(aligned == low);
                assert(sectors == sectors_to_fill(entry, first));
                assert(low + sectors * 2048 <= disc.len());
                let bytes = disc.subrange(low, low + sectors * 2048);
                let filled = filled_cache(chunk_id, entry, first, bytes);
                a_filled_cache_covers_the_read(chunk_id, entry, first, count, bytes);
                assert(filled.len <= bytes.len());
                assert(filled.bytes.subrange(0, filled.len) =~= disc.subrange(
                    low,
                    low + filled.len,
                ));
                assert(filled.served(first, count) =~= expected);
                assert forall|other: u32| #[trigger] filled.exact(other, discs(other)) by {}
            },
            _ => {
                burst_follows_the_disc(first, count, disc, burst_sectors(first, count));
            },
        }
    }
}

/// One read of a run of reads.
pub struct ReadRequest {
    pub chunk_id: u32,
    pub offset: u32,
    pub wanted: usize,
}

/// The cache after the first `count` reads of a run.
pub open spec fn cache_after(
    cache: StorageCacheView,
    entries: spec_fn(u32) -> Option<PackEntry>,
    discs: spec_fn(u32) -> Seq<u8>,
    requests: Seq<ReadRequest>,
    count: nat,
) -> StorageCacheView
    decreases count,
{
    if count == 0 {
        cache
    } else {
        let request = requests[count - 1];
        after_read(
            cache_after(cache, entries, discs, requests, (count - 1) as nat),
            entries(request.chunk_id),
            request.chunk_id,
            request.offset as int,
            request.wanted as int,
            discs(request.chunk_id),
        ).1
    }
}

/// No run of reads, of whatever chunks and ranges, spoils the cache: the next
/// read is exact again.
pub proof fn runs_of_reads_stay_exact(
    cache: StorageCacheView,
    entries: spec_fn(u32) -> Option<PackEntry>,
    discs: spec_fn(u32) -> Seq<u8>,
    requests: Seq<ReadRequest>,
    count: nat,
)
    requires
        caches_discs(cache, discs),
        pack_on_disc(entries, discs),
        count <= requests.len(),
    ensures
        caches_discs(cache_after(cache, entries, discs, requests, count), discs),
    decreases count,
{
    if count > 0 {
        runs_of_reads_stay_exact(cache, entries, discs, requests, (count - 1) as nat);
        let request = requests[count - 1];
        if entries(request.chunk_id) is Some {
            reads_are_exact(
                cache_after(cache, entries, discs, requests, (count - 1) as nat),
                entries,
                discs,
                request.chunk_id,
                request.offset,
                request.wanted,
            );
        }
    }
}

/// A byte's sector begins on a boundary of 2048 bytes at most 2047 before it.
pub proof fn sectors_begin_on_boundaries(offset: int)
    ensures
        aligned_down(offset) % 2048 == 0,
        aligned_down(offset) <= offset < aligned_down(offset) + 2048,
{
}

/// The cache is filled with as many sectors as are left of the chunk, and no more
/// than it holds.
pub proof fn caches_are_filled_to_the_end(entry: PackEntry, offset: int)
    requires
        0 <= offset < entry.byte_size,
    ensures
        ({
            let sectors = sectors_to_fill(entry, offset);
            let end = aligned_down(offset) + 2048 * sectors;
            &&& 1 <= sectors <= STORAGE_CACHE_SECTORS
            &&& sectors < STORAGE_CACHE_SECTORS ==> entry.byte_size <= end < entry.byte_size + 2048
        }),
{
}

/// Each chunk of the pack has its own slot.
pub proof fn chunks_have_their_slots(chunk_id: u32)
    ensures
        1 <= chunk_id <= 3 ==> chunk_slot(chunk_id) == Some((chunk_id - 1) as usize),
        100 <= chunk_id <= 108 ==> chunk_slot(chunk_id) == Some((chunk_id - 100 + 3) as usize),
        chunk_slot(chunk_id) is Some <==> 1 <= chunk_id <= 3 || 100 <= chunk_id <= 108,
{
}

/// A read beyond the end of its chunk is refused, one of an unknown chunk too, and
/// none is made while a session holds the drive; any other succeeds.
pub proof fn reads_are_refused_for_cause(
    cache: StorageCacheView,
    session_open: bool,
    entry: Option<PackEntry>,
    chunk_id: u32,
    offset: int,
    wanted: int,
)
    ensures
        ({
            let plan = planned_read(cache, session_open, entry, chunk_id, offset, wanted);
            &&& session_open ==> plan == Err::<ReadPlan, StorageError>(StorageError::ReadFailed)
            &&& !session_open && entry is None ==> plan == Err::<ReadPlan, StorageError>(
                StorageError::MissingChunk,
            )
            &&& !session_open ==> (entry matches Some(known) ==> {
                &&& plan is Err <==> offset + wanted > known.byte_size
                &&& plan is Err ==> plan == Err::<ReadPlan, StorageError>(StorageError::OutOfBounds)
            })
        }),
{
}

} // verus!
