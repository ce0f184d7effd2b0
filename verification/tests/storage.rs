use quake_psx::forward_chunk_reader::ForwardChunkReader;
use quake_psx::forward_chunk_reader::ForwardStep;
use quake_psx::frame::VramRect;
use quake_psx::storage::absolute_sector;
use quake_psx::storage::cache_index;
use quake_psx::storage::check_open;
use quake_psx::storage::chunk_size;
use quake_psx::storage::ChunkStream;
use quake_psx::storage::EntryCache;
use quake_psx::storage::EntryLookup;
use quake_psx::storage::PackEntry;
use quake_psx::storage::ReadPlan;
use quake_psx::storage::StorageBurst;
use quake_psx::storage::StorageCache;
use quake_psx::storage::StorageError;
use quake_psx::storage::StreamStep;
use quake_psx::vram::check_upload;
use quake_psx::vram::DeferredUploads;
use quake_psx::vram::VramUploadError;
use quake_psx::vram::VramUploadRange;

const ENTRY: PackEntry = PackEntry { sector_offset: 10, byte_size: 5000 };

fn disc() -> Vec<u8> {
    (0..3 * 2048).map(|i| (i * 7 % 251) as u8).collect()
}

fn sector(index: usize) -> Vec<u8> {
    disc()[index * 2048..index * 2048 + 2048].to_vec()
}

/// Run a read to its end, handing over sectors as they are asked for.
fn read(stream: &mut ChunkStream, offset: u32, wanted: usize) -> Result<Vec<u8>, StorageError> {
    let mut read = stream.begin_read(offset, wanted)?;
    while stream.advance(&mut read) == StreamStep::Sector {
        let next = stream.cursor as usize / 2048;
        stream.supply(sector(next));
    }
    Ok(read.output)
}

#[test]
fn every_chunk_has_its_place() {
    assert_eq!(cache_index(1), Some(0));
    assert_eq!(cache_index(3), Some(2));
    assert_eq!(cache_index(100), Some(3));
    assert_eq!(cache_index(101), Some(4));
    assert_eq!(cache_index(108), Some(11));
    assert_eq!(cache_index(0), None);
    assert_eq!(cache_index(4), None);
    assert_eq!(cache_index(109), None);
}

#[test]
fn entries_are_searched_for_once() {
    let mut cache = EntryCache::new();
    assert_eq!(cache.entry_for(7), EntryLookup::Unknown);
    assert_eq!(cache.entry_for(101), EntryLookup::Search);
    cache.remember(101, ENTRY);
    assert_eq!(cache.entry_for(101), EntryLookup::Cached(ENTRY));
    assert_eq!(cache.entry_for(102), EntryLookup::Search);
}

#[test]
fn a_chunk_without_an_entry_is_missing() {
    assert_eq!(chunk_size(Some(ENTRY)), Ok(5000));
    assert_eq!(chunk_size(None), Err(StorageError::MissingChunk));
}

#[test]
fn sectors_are_counted_from_the_pack() {
    assert_eq!(absolute_sector(1000, ENTRY, 0), 1010);
    assert_eq!(absolute_sector(1000, ENTRY, 2047), 1010);
    assert_eq!(absolute_sector(1000, ENTRY, 4096), 1012);
}

#[test]
fn a_session_is_opened_in_bounds_and_alone() {
    assert_eq!(check_open(None, 0, false), Err(StorageError::MissingChunk));
    assert_eq!(check_open(Some(ENTRY), 5000, false), Err(StorageError::OutOfBounds));
    assert_eq!(check_open(Some(ENTRY), 5000, true), Err(StorageError::OutOfBounds));
    assert_eq!(check_open(Some(ENTRY), 10, true), Err(StorageError::ReadFailed));
    assert_eq!(check_open(Some(ENTRY), 4100, false), Ok(2));
    assert!(matches!(ChunkStream::open_at(ENTRY, 0, false), Err(StorageError::ReadFailed)));
}

#[test]
fn a_session_reads_across_sectors() {
    let mut stream = match ChunkStream::open_at(ENTRY, 100, true) {
        Ok(stream) => stream,
        Err(_) => panic!("the drive answered"),
    };
    assert_eq!(read(&mut stream, 100, 50), Ok(disc()[100..150].to_vec()));
    assert_eq!(read(&mut stream, 2000, 2200), Ok(disc()[2000..4200].to_vec()));
    assert_eq!(read(&mut stream, 4200, 0), Ok(Vec::new()));
    assert!(stream.active);
    assert_eq!(read(&mut stream, 4999, 1), Ok(disc()[4999..5000].to_vec()));
    assert!(!stream.active);
    assert!(!stream.stop());
}

#[test]
fn a_session_does_not_go_back() {
    let mut stream = match ChunkStream::open_at(ENTRY, 100, true) {
        Ok(stream) => stream,
        Err(_) => panic!("the drive answered"),
    };
    assert_eq!(read(&mut stream, 99, 1), Err(StorageError::OutOfBounds));
    assert_eq!(read(&mut stream, 100, 4901), Err(StorageError::OutOfBounds));
    assert_eq!(read(&mut stream, 5001, 0), Err(StorageError::OutOfBounds));
    assert_eq!(stream.fail(), StorageError::ReadFailed);
    assert!(!stream.active);
}

#[test]
fn a_burst_takes_whole_sectors() {
    let mut burst = StorageBurst::new(2040, 2100);
    let mut next = 0;
    while !burst.done() {
        burst.take_sector(&sector(next));
        next += 1;
    }
    assert_eq!(next, 3);
    // The first sector taken stands for the one that holds byte 2040.
    let mut expected = sector(0)[2040..].to_vec();
    expected.extend_from_slice(&sector(1));
    expected.extend_from_slice(&sector(2)[..44]);
    assert_eq!(burst.output, expected);
}

#[test]
fn small_reads_fill_the_cache_and_are_served_from_it() {
    let mut cache = StorageCache::new();
    let plan = cache.read_chunk_exact(false, Some(ENTRY), 101, 2000, 2048);
    assert_eq!(plan, Ok(ReadPlan::Fill { aligned: 0, sectors: 2 }));
    cache.fill_storage_cache(101, ENTRY, 2000, disc()[..4096].to_vec());
    let plan = cache.read_chunk_exact(false, Some(ENTRY), 101, 2000, 2048);
    assert_eq!(plan, Ok(ReadPlan::Cached));
    assert_eq!(cache.serve(2000, 2048), disc()[2000..4048].to_vec());
    let plan = cache.read_chunk_exact(false, Some(ENTRY), 102, 2000, 2048);
    assert_eq!(plan, Ok(ReadPlan::Fill { aligned: 0, sectors: 2 }));
}

#[test]
fn every_read_gives_the_bytes_of_its_range() {
    let mut cache = StorageCache::new();
    let reads = [(0, 10), (2040, 16), (4990, 10), (100, 3000), (4000, 500), (2047, 2), (0, 5000)];
    for (offset, wanted) in reads {
        let bytes = match cache.read_chunk_exact(false, Some(ENTRY), 101, offset, wanted) {
            Ok(ReadPlan::Nothing) => Vec::new(),
            Ok(ReadPlan::Cached) => cache.serve(offset, wanted),
            Ok(ReadPlan::Fill { aligned, sectors }) => {
                let from = aligned as usize;
                let taken = disc()[from..from + sectors * 2048].to_vec();
                cache.fill_storage_cache(101, ENTRY, offset, taken);
                cache.serve(offset, wanted)
            },
            Ok(ReadPlan::Burst) => {
                let mut burst = StorageBurst::new(offset, wanted);
                let mut next = offset as usize / 2048;
                while !burst.done() {
                    burst.take_sector(&sector(next));
                    next += 1;
                }
                burst.output
            },
            Err(_) => panic!("the range lies in the chunk"),
        };
        let from = offset as usize;
        assert_eq!(bytes, disc()[from..from + wanted].to_vec());
    }
}

#[test]
fn the_cache_stops_at_the_end_of_the_chunk() {
    let mut cache = StorageCache::new();
    let plan = cache.read_chunk_exact(false, Some(ENTRY), 101, 4990, 10);
    assert_eq!(plan, Ok(ReadPlan::Fill { aligned: 4096, sectors: 1 }));
    cache.fill_storage_cache(101, ENTRY, 4990, sector(2));
    assert_eq!(cache.len, 904);
    assert_eq!(cache.serve(4990, 10), disc()[4990..5000].to_vec());
}

#[test]
fn reads_are_refused_before_they_reach_the_drive() {
    let cache = StorageCache::new();
    assert_eq!(
        cache.read_chunk_exact(true, Some(ENTRY), 101, 0, 1),
        Err(StorageError::ReadFailed)
    );
    assert_eq!(cache.read_chunk_exact(false, None, 101, 0, 1), Err(StorageError::MissingChunk));
    assert_eq!(
        cache.read_chunk_exact(false, Some(ENTRY), 101, 5000, 1),
        Err(StorageError::OutOfBounds)
    );
    assert_eq!(
        cache.read_chunk_exact(false, Some(ENTRY), 101, 5000, 0),
        Ok(ReadPlan::Nothing)
    );
    assert_eq!(
        cache.read_chunk_exact(false, Some(ENTRY), 101, 0, 2049),
        Ok(ReadPlan::Burst)
    );
}

fn reader(nodes: Vec<u8>) -> ForwardChunkReader {
    match ForwardChunkReader::open(Ok(5000), 300, 100, nodes) {
        Ok(reader) => reader,
        Err(_) => panic!("the chunk is there"),
    }
}

#[test]
fn a_payload_without_a_chunk_is_not_opened() {
    assert!(matches!(
        ForwardChunkReader::open(Err(StorageError::MissingChunk), 0, 0, Vec::new()),
        Err(StorageError::MissingChunk)
    ));
    assert_eq!(reader(Vec::new()).len(), 5000);
}

#[test]
fn payload_reads_use_one_session() {
    let mut reader = reader(Vec::new());
    assert_eq!(reader.read_exact_at(200, 0), Ok(ForwardStep::Nothing));
    assert_eq!(reader.read_exact_at(200, 50), Ok(ForwardStep::Session { open_at: Some(200) }));
    reader.opened();
    assert_eq!(reader.read_exact_at(250, 50), Ok(ForwardStep::Session { open_at: None }));
    assert_eq!(reader.read_exact_at(u32::MAX, 2), Err(StorageError::OutOfBounds));
}

#[test]
fn nodes_are_read_at_once_and_kept() {
    let mut reader = reader(Vec::new());
    assert_eq!(reader.read_exact_at(300, 20), Ok(ForwardStep::FillNodes { open_at: Some(300) }));
    reader.opened();
    reader.nodes_read((0..100).collect());
    assert!(!reader.session_open);
    assert_eq!(reader.read_exact_at(320, 20), Ok(ForwardStep::Nodes { start: 20 }));
    assert_eq!(reader.copy_nodes(20, 3), vec![20, 21, 22]);
    assert_eq!(reader.read_exact_at(390, 20), Ok(ForwardStep::Session { open_at: Some(390) }));
}

#[test]
fn a_short_node_buffer_is_out_of_bounds() {
    let reader = reader(vec![0; 10]);
    assert_eq!(reader.read_exact_at(300, 10), Ok(ForwardStep::Nodes { start: 0 }));
    assert_eq!(reader.read_exact_at(301, 10), Err(StorageError::OutOfBounds));
}

const RECT: VramRect = VramRect { x: 0, y: 0, width: 2, height: 3 };

#[test]
fn uploads_fill_their_rectangle() {
    assert_eq!(check_upload(RECT, 0), Err(VramUploadError::Empty));
    assert_eq!(check_upload(RECT, 11), Err(VramUploadError::SizeMismatch));
    assert_eq!(check_upload(RECT, 12), Ok(()));
}

fn range(start: usize) -> VramUploadRange {
    VramUploadRange { rect: RECT, start, len: 12 }
}

#[test]
fn deferred_uploads_come_out_in_order() {
    let bytes: Vec<u8> = (0..30).collect();
    let mut deferred = DeferredUploads::new();
    assert_eq!(deferred.defer_vram_ranges(&bytes, &vec![range(3), range(18)]), Ok(()));
    assert_eq!(deferred.defer_vram_ranges(&bytes, &vec![range(0)]), Ok(()));
    let uploads = deferred.flush_deferred_vram_uploads();
    let starts: Vec<u8> = uploads.iter().map(|upload| upload.bytes[0]).collect();
    assert_eq!(starts, vec![3, 18, 0]);
    assert!(deferred.flush_deferred_vram_uploads().is_empty());
}

#[test]
fn deferred_uploads_are_all_or_nothing() {
    let bytes: Vec<u8> = (0..30).collect();
    let mut deferred = DeferredUploads::new();
    let error = Err(VramUploadError::SizeMismatch);
    assert_eq!(deferred.defer_vram_ranges(&bytes, &Vec::new()), Ok(()));
    assert_eq!(deferred.defer_vram_ranges(&bytes, &vec![range(0), range(19)]), error);
    assert_eq!(deferred.defer_vram_ranges(&bytes, &vec![range(0); 7]), error);
    assert_eq!(deferred.defer_vram_ranges(&bytes, &vec![range(0); 4]), Ok(()));
    assert_eq!(deferred.defer_vram_ranges(&bytes, &vec![range(0); 3]), error);
    let short = VramUploadRange { len: 10, ..range(0) };
    assert_eq!(deferred.defer_vram_ranges(&bytes, &vec![short]), error);
    let far = VramUploadRange { start: usize::MAX, ..range(0) };
    assert_eq!(deferred.defer_vram_ranges(&bytes, &vec![far]), error);
    assert_eq!(deferred.flush_deferred_vram_uploads().len(), 4);
}
