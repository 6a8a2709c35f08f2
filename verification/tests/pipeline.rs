use chunkworld::codec::{CHUNK_PAYLOAD_SIZE, CHUNK_SIZE, DIRECTORY_SIZE};
use chunkworld::reader::ChunksReader;
use chunkworld::world::World;

/// The eight header bytes that spell the two magic words, little-endian.
const VALID_HEADER: [u8; 8] = [0xEF, 0xBE, 0xAD, 0xDE, 0xFE, 0xFF, 0xFF, 0xFF];

fn valid_record(fill: u8) -> Vec<u8> {
    let mut rec = vec![fill; CHUNK_SIZE];
    rec[..8].copy_from_slice(&VALID_HEADER);
    rec
}

#[test]
fn directory_in_one_call() {
    let mut reader = ChunksReader::new();
    let res = reader.handle_data(&vec![0u8; DIRECTORY_SIZE]);
    assert!(res.is_ok());
    assert!(reader.directory_loaded());
    assert_eq!(reader.pending_count(), 0);
    assert_eq!(reader.buffered_len(), 0);
    assert_eq!(reader.size_sum(), DIRECTORY_SIZE as u64);
}

#[test]
fn directory_split_across_calls() {
    let mut reader = ChunksReader::new();
    assert!(reader.handle_data(&vec![0u8; DIRECTORY_SIZE - 1]).is_ok());
    assert!(!reader.directory_loaded());
    assert_eq!(reader.buffered_len(), DIRECTORY_SIZE - 1);
    assert!(reader.handle_data(&[0u8]).is_ok());
    assert!(reader.directory_loaded());
    assert_eq!(reader.buffered_len(), 0);
}

#[test]
fn valid_chunk_enqueued() {
    let mut reader = ChunksReader::new();
    assert!(reader.handle_data(&vec![0u8; DIRECTORY_SIZE]).is_ok());
    let res = reader.handle_data(&valid_record(0));
    assert!(res.is_ok());
    assert_eq!(reader.pending_count(), 1);
    assert_eq!(reader.buffered_len(), 0);
}

#[test]
fn corrupted_header_rejected() {
    let mut reader = ChunksReader::new();
    assert!(reader.handle_data(&vec![0u8; DIRECTORY_SIZE]).is_ok());
    let mut rec = valid_record(0);
    rec[0] = 0xEE;
    let err = reader.handle_data(&rec).unwrap_err();
    assert_eq!(err.offset, DIRECTORY_SIZE as u64);
    assert_eq!(err.found_a, 0xDEAD_BEEE);
    assert_eq!(err.found_b, 0xFFFF_FFFE);
    assert_eq!(reader.pending_count(), 0);
}

#[test]
fn error_offset_counts_consumed_records() {
    let mut reader = ChunksReader::new();
    assert!(reader.handle_data(&vec![0u8; DIRECTORY_SIZE]).is_ok());
    assert!(reader.handle_data(&valid_record(3)).is_ok());
    let mut bad = valid_record(4);
    bad[4] = 0x00;
    let err = reader.handle_data(&bad).unwrap_err();
    assert_eq!(err.offset, (DIRECTORY_SIZE + CHUNK_SIZE) as u64);
    assert_eq!(err.found_a, 0xDEAD_BEEF);
    assert_eq!(err.found_b, 0xFFFF_FF00);
    assert_eq!(reader.pending_count(), 1);
}

#[test]
fn framing_error_is_sticky() {
    let mut reader = ChunksReader::new();
    assert!(reader.handle_data(&vec![0u8; DIRECTORY_SIZE]).is_ok());
    let mut bad = valid_record(0);
    bad[0] = 0x00;
    let first = reader.handle_data(&bad).unwrap_err();
    let second = reader.handle_data(&valid_record(1)).unwrap_err();
    assert_eq!(first, second);
    assert_eq!(reader.pending_count(), 0);
}

#[test]
fn size_sum_counts_all_bytes() {
    let mut reader = ChunksReader::new();
    let mut expected: u64 = 0;
    for n in [1usize, 13, 0x10000, DIRECTORY_SIZE, 5] {
        assert!(reader.handle_data(&vec![0u8; n]).is_ok());
        expected += n as u64;
    }
    assert_eq!(reader.size_sum(), expected);
}

#[test]
fn two_records_in_one_call() {
    let mut stream = vec![0u8; DIRECTORY_SIZE];
    stream.extend_from_slice(&valid_record(1));
    stream.extend_from_slice(&valid_record(2));
    let mut reader = ChunksReader::new();
    assert!(reader.handle_data(&stream).is_ok());
    assert!(reader.directory_loaded());
    assert_eq!(reader.pending_count(), 2);
    assert_eq!(reader.buffered_len(), 0);
}

#[test]
fn partial_chunk_waits_for_more_data() {
    let mut reader = ChunksReader::new();
    assert!(reader.handle_data(&vec![0u8; DIRECTORY_SIZE]).is_ok());
    let rec = valid_record(7);
    assert!(reader.handle_data(&rec[..CHUNK_SIZE - 1]).is_ok());
    assert_eq!(reader.pending_count(), 0);
    assert_eq!(reader.buffered_len(), CHUNK_SIZE - 1);
    assert!(reader.handle_data(&rec[CHUNK_SIZE - 1..]).is_ok());
    assert_eq!(reader.pending_count(), 1);
    assert_eq!(reader.buffered_len(), 0);
}

#[test]
fn to_world_on_empty_pending_is_noop() {
    let mut reader = ChunksReader::new();
    let mut world = World::init();
    reader.to_world(&mut world);
    assert_eq!(world.num_chunks(), 0);
    assert!(reader.handle_data(&vec![0u8; DIRECTORY_SIZE]).is_ok());
    assert!(reader.handle_data(&valid_record(9)).is_ok());
    reader.to_world(&mut world);
    assert_eq!(world.num_chunks(), 1);
    reader.to_world(&mut world);
    assert_eq!(world.num_chunks(), 1);
}

#[test]
fn world_blocks_decoded_little_endian() {
    let mut rec = valid_record(0);
    rec[8] = 0x01;
    rec[9] = 0x02;
    rec[10] = 0x03;
    rec[11] = 0x04;
    let last = 8 + 4 * 65535;
    rec[last] = 0xFF;
    rec[last + 3] = 0x80;
    // Junk in the reserved payload tail must not change any block.
    for b in rec[8 + 4 * 65536..].iter_mut() {
        *b = 0xAB;
    }
    let mut reader = ChunksReader::new();
    assert!(reader.handle_data(&vec![0u8; DIRECTORY_SIZE]).is_ok());
    assert!(reader.handle_data(&rec).is_ok());
    let mut world = World::init();
    reader.to_world(&mut world);
    assert_eq!(world.num_chunks(), 1);
    let chunk = world.chunk(0);
    assert_eq!(chunk.len(), 65536);
    assert_eq!(chunk.block(0), 0x0403_0201);
    assert_eq!(chunk.block(1), 0);
    assert_eq!(chunk.block(65535), 0x8000_00FF);
}

#[test]
fn world_keeps_decode_order() {
    let mut reader = ChunksReader::new();
    assert!(reader.handle_data(&vec![0u8; DIRECTORY_SIZE]).is_ok());
    assert!(reader.handle_data(&valid_record(5)).is_ok());
    assert!(reader.handle_data(&valid_record(6)).is_ok());
    let mut world = World::init();
    reader.to_world(&mut world);
    assert_eq!(world.num_chunks(), 2);
    assert_eq!(world.chunk(0).block(100), 0x0505_0505);
    assert_eq!(world.chunk(1).block(100), 0x0606_0606);
}

#[test]
fn fragmentation_does_not_change_the_world() {
    let mut stream = vec![0u8; DIRECTORY_SIZE];
    let mut rec1 = valid_record(1);
    rec1[100] = 0x2A;
    stream.extend_from_slice(&rec1);
    stream.extend_from_slice(&valid_record(2));

    let mut whole = ChunksReader::new();
    assert!(whole.handle_data(&stream).is_ok());

    let mut split = ChunksReader::new();
    let sizes = [1usize, 7, 997, 100_000];
    let mut at = 0usize;
    let mut i = 0usize;
    while at < stream.len() {
        let step = sizes[i % sizes.len()].min(stream.len() - at);
        assert!(split.handle_data(&stream[at..at + step]).is_ok());
        at += step;
        i += 1;
    }

    assert_eq!(whole.size_sum(), split.size_sum());
    assert_eq!(whole.directory_loaded(), split.directory_loaded());
    assert_eq!(whole.pending_count(), split.pending_count());
    assert_eq!(whole.buffered_len(), split.buffered_len());

    let mut world_whole = World::init();
    whole.to_world(&mut world_whole);
    let mut world_split = World::init();
    split.to_world(&mut world_split);
    assert_eq!(world_whole.num_chunks(), world_split.num_chunks());
    for c in 0..world_whole.num_chunks() {
        for b in 0..world_whole.chunk(c).len() {
            assert_eq!(world_whole.chunk(c).block(b), world_split.chunk(c).block(b));
        }
    }
}
