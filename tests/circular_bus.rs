use rust_messenger::message_bus::circular_bus::is_valid_capacity;
use rust_messenger::message_bus::{CircularBus, Config};
use rust_messenger::messenger::{align_to_usize, ALIGNED_HEADER_SIZE};
use rust_messenger::traits::base::{Handler, Message, Reader, Writer};
use rust_messenger::traits::extended::{send_sized, ExtendedMessage, Sender as ExtendedSender};
use rust_messenger::traits::zero_copy::{Sender as ZeroCopySender, ZeroCopyMessage};

/// Page size of the usual targets.
const PAGE_SIZE: usize = 4096;

struct MsgA {
    data: [u16; 5],
}

impl Message for MsgA {
    const ID: u16 = 2;
}

impl ExtendedMessage for MsgA {
    fn get_size(&self) -> usize {
        std::mem::size_of::<Self>()
    }

    fn write_into(&self, buffer: &mut [u8]) {
        for (k, v) in self.data.iter().enumerate() {
            buffer[2 * k..2 * k + 2].copy_from_slice(&v.to_ne_bytes());
        }
    }
}

impl ZeroCopyMessage for MsgA {
    const SIZE: usize = 10;
}

struct HandlerA {}

impl Handler for HandlerA {
    const ID: u16 = 1;
}

struct TestConfig {}

impl Config for TestConfig {
    fn get_buffer_size(&self) -> usize {
        4096
    }
}

struct SizedConfig(usize);

impl Config for SizedConfig {
    fn get_buffer_size(&self) -> usize {
        self.0
    }
}

fn decode(buffer: &[u8]) -> [u16; 5] {
    let mut data = [0u16; 5];
    for (k, v) in data.iter_mut().enumerate() {
        *v = u16::from_ne_bytes([buffer[2 * k], buffer[2 * k + 1]]);
    }
    data
}

#[test]
fn test_circular_bus() {
    let config = TestConfig {};
    let mut bus = CircularBus::new(&config, PAGE_SIZE).unwrap();
    let mut position: usize = 0;
    for i in 0..500 {
        let message = MsgA { data: [i, 1, 2, 3, 4] };
        assert!(<HandlerA as ExtendedSender>::send(&message, &mut bus));

        let (hdr, buffer) = bus.read(position).unwrap();

        assert_eq!(hdr.source, HandlerA::ID.into());
        assert_eq!(hdr.message_id, MsgA::ID.into());
        let expected_size = align_to_usize(std::mem::size_of::<MsgA>());
        assert_eq!(hdr.size, expected_size as u16);

        assert_eq!(decode(buffer), [i, 1, 2, 3, 4]);

        position += ALIGNED_HEADER_SIZE + hdr.size as usize;
    }
}

#[test]
fn test_zero_copy_circular_bus() {
    let config = TestConfig {};
    let mut bus = CircularBus::new(&config, PAGE_SIZE).unwrap();
    let mut position: usize = 0;
    for i in 0..500 {
        assert!(<HandlerA as ZeroCopySender>::send::<MsgA, _, _>(&mut bus, |buffer: &mut [u8]| {
            MsgA { data: [i, 1, 2, 3, 4] }.write_into(buffer);
        }));

        let (hdr, buffer) = bus.read(position).unwrap();

        assert_eq!(hdr.source, HandlerA::ID.into());
        assert_eq!(hdr.message_id, MsgA::ID.into());
        let expected_size = align_to_usize(std::mem::size_of::<MsgA>());
        assert_eq!(hdr.size, expected_size as u16);

        assert_eq!(decode(buffer), [i, 1, 2, 3, 4]);

        position += ALIGNED_HEADER_SIZE + hdr.size as usize;
    }
}

#[test]
fn round_trip_keeps_source_id_size_and_bytes() {
    let mut bus = CircularBus::from_capacity(4096, PAGE_SIZE);
    let payload = [7u8, 8, 9];
    bus.write_bytes(11, 22, &payload);
    let (hdr, buffer) = bus.read(0).unwrap();
    assert_eq!(hdr.source, 11);
    assert_eq!(hdr.message_id, 22);
    assert_eq!(hdr.size as usize, std::mem::size_of::<usize>());
    assert_eq!(buffer.len(), std::mem::size_of::<usize>());
    assert_eq!(&buffer[..3], &payload);
    assert!(buffer[3..].iter().all(|b| *b == 0));
}

#[test]
fn read_at_or_past_head_is_none() {
    let mut bus = CircularBus::from_capacity(4096, PAGE_SIZE);
    assert!(bus.read(0).is_none());
    bus.write_bytes(1, 2, &[1, 2, 3, 4]);
    let head = bus.read_head();
    assert_eq!(head, ALIGNED_HEADER_SIZE + align_to_usize(4));
    assert_eq!(bus.write_head(), head);
    assert!(bus.read(head).is_none());
    assert!(bus.read(head + 100).is_none());
}

#[test]
fn cursor_moves_strictly_and_sees_each_record_once() {
    let mut bus = CircularBus::from_capacity(4096, PAGE_SIZE);
    for v in 0u8..20 {
        bus.write_bytes(1, 2, &vec![v; (v as usize % 5) + 1]);
    }
    let mut position = 0usize;
    let mut seen = Vec::new();
    while let Some((hdr, buffer)) = bus.read(position) {
        let next = position + ALIGNED_HEADER_SIZE + hdr.size as usize;
        assert!(next > position);
        seen.push(buffer[0]);
        position = next;
    }
    assert_eq!(seen, (0u8..20).collect::<Vec<_>>());
    assert_eq!(position, bus.read_head());
}

#[test]
fn two_consumers_observe_publication_order() {
    let mut bus = CircularBus::from_capacity(4096, PAGE_SIZE);
    for v in 0u8..30 {
        bus.write_bytes(v as u16, 3, &[v]);
    }
    let walk = |start: usize| {
        let mut p = start;
        let mut out = Vec::new();
        while let Some((hdr, _)) = bus.read(p) {
            out.push(hdr.source);
            p += ALIGNED_HEADER_SIZE + hdr.size as usize;
        }
        out
    };
    assert_eq!(walk(0), (0u16..30).collect::<Vec<_>>());
    assert_eq!(walk(0), walk(0));
}

#[test]
fn wrap_around_keeps_frames_for_readers_that_keep_up() {
    let mut bus = CircularBus::from_capacity(4096, PAGE_SIZE);
    let mut position = 0usize;
    let mut written = 0usize;
    for v in 0u32..1000 {
        let payload = v.to_le_bytes();
        bus.write_bytes(5, 6, &payload);
        written += ALIGNED_HEADER_SIZE + align_to_usize(payload.len());
        let (hdr, buffer) = bus.read(position).unwrap();
        assert_eq!(hdr.source, 5);
        assert_eq!(hdr.message_id, 6);
        assert_eq!(u32::from_le_bytes([buffer[0], buffer[1], buffer[2], buffer[3]]), v);
        position += ALIGNED_HEADER_SIZE + hdr.size as usize;
    }
    assert!(written >= 4096 / 2 * 4);
    assert_eq!(position, written);
}

#[test]
fn lagging_reader_within_half_capacity_still_decodes() {
    let mut bus = CircularBus::from_capacity(4096, PAGE_SIZE);
    // fill past one window first
    for v in 0u16..200 {
        bus.write_bytes(1, 1, &v.to_le_bytes());
    }
    let start = bus.read_head();
    let frame = ALIGNED_HEADER_SIZE + align_to_usize(2);
    let count = (4096 / 2) / frame;
    for v in 0..count as u16 {
        bus.write_bytes(9, 9, &v.to_le_bytes());
    }
    let mut p = start;
    for v in 0..count as u16 {
        let (hdr, buffer) = bus.read(p).unwrap();
        assert_eq!(hdr.source, 9);
        assert_eq!(u16::from_le_bytes([buffer[0], buffer[1]]), v);
        p += ALIGNED_HEADER_SIZE + hdr.size as usize;
    }
}

#[test]
fn alignment_boundary_frame_takes_two_words() {
    let word = std::mem::size_of::<usize>();
    let mut bus = CircularBus::from_capacity(4096, PAGE_SIZE);
    bus.write_bytes(1, 2, &vec![0xAB; word + 1]);
    let (hdr, buffer) = bus.read(0).unwrap();
    assert_eq!(hdr.size as usize, 2 * word);
    assert_eq!(buffer.len(), 2 * word);
    assert_eq!(bus.read_head(), ALIGNED_HEADER_SIZE + 2 * word);
}

#[test]
fn write_through_writer_trait_zeroes_region() {
    let mut bus = CircularBus::from_capacity(4096, PAGE_SIZE);
    assert!(bus.can_write(3));
    bus.write(4, 5, 3, |region: &mut [u8]| {
        assert_eq!(region.len(), std::mem::size_of::<usize>());
        assert!(region.iter().all(|b| *b == 0));
        region[0] = 42;
    });
    let (hdr, buffer) = Reader::read(&bus, 0).unwrap();
    assert_eq!((hdr.source, hdr.message_id), (4, 5));
    assert_eq!(buffer[0], 42);
    assert!(buffer[1..].iter().all(|b| *b == 0));
}

#[test]
fn payload_larger_than_window_is_refused() {
    let bus = CircularBus::from_capacity(4096, PAGE_SIZE);
    assert!(bus.fits_payload(2048 - ALIGNED_HEADER_SIZE));
    assert!(!bus.fits_payload(2048 - ALIGNED_HEADER_SIZE + 1));
    assert!(!bus.can_write(4096));
}

#[test]
fn capacity_must_be_power_of_two() {
    assert!(CircularBus::new(&SizedConfig(4096), PAGE_SIZE).is_some());
    assert!(CircularBus::new(&SizedConfig(4095), PAGE_SIZE).is_none());
    assert!(!CircularBus::valid_size(0, PAGE_SIZE));
    assert!(!CircularBus::valid_size(8, PAGE_SIZE));
    assert!(!CircularBus::valid_size(6000, PAGE_SIZE));
    assert!(is_valid_capacity(16));
    assert!(!is_valid_capacity(24));
    assert_eq!(CircularBus::from_capacity(8192, PAGE_SIZE).capacity_bytes(), 8192);
}

#[test]
fn capacity_below_page_size_is_refused() {
    assert!(!CircularBus::valid_size(2048, PAGE_SIZE));
    assert!(CircularBus::new(&SizedConfig(2048), PAGE_SIZE).is_none());
    assert!(CircularBus::valid_size(2048, 2048));
    assert!(CircularBus::new(&SizedConfig(16384), 16384).is_some());
    assert!(CircularBus::new(&SizedConfig(8192), 16384).is_none());
}

#[test]
fn fresh_ring_has_heads_at_zero_and_nothing_to_read() {
    let bus = CircularBus::from_capacity(4096, PAGE_SIZE);
    assert_eq!(bus.read_head(), 0);
    assert_eq!(bus.write_head(), 0);
    for p in [0usize, 1, 8, 2047, 4095] {
        assert!(bus.read(p).is_none());
    }
}

#[test]
fn heads_advance_by_one_frame_per_write() {
    let word = std::mem::size_of::<usize>();
    let mut bus = CircularBus::from_capacity(4096, PAGE_SIZE);
    bus.write_bytes(1, 1, &[1, 2, 3]);
    assert_eq!(bus.read_head(), ALIGNED_HEADER_SIZE + word);
    bus.write_with(1, 2, word + 1, |region: &mut [u8]| region[0] = 7);
    assert_eq!(bus.read_head(), 2 * ALIGNED_HEADER_SIZE + 3 * word);
    assert_eq!(bus.write_head(), bus.read_head());
    let (first, _) = bus.read(0).unwrap();
    assert_eq!((first.source, first.message_id, first.size as usize), (1, 1, word));
    let (second, payload) = bus.read(ALIGNED_HEADER_SIZE + word).unwrap();
    assert_eq!(second.size as usize, 2 * word);
    assert_eq!(payload[0], 7);
    assert!(payload[1..].iter().all(|b| *b == 0));
}

#[test]
fn later_write_within_half_capacity_keeps_earlier_record() {
    let mut bus = CircularBus::from_capacity(4096, PAGE_SIZE);
    bus.write_bytes(3, 4, &[5, 6, 7]);
    let before = bus.read(0).map(|(h, b)| (h, b.to_vec()));
    let frame = ALIGNED_HEADER_SIZE + align_to_usize(3);
    while bus.read_head() + frame <= 4096 / 2 {
        bus.write(1, 1, 3, |region: &mut [u8]| region[0] = 9);
    }
    let after = bus.read(0).map(|(h, b)| (h, b.to_vec()));
    assert_eq!(before, after);
    assert_eq!(after.unwrap().1[..3], [5, 6, 7]);
}

#[test]
fn send_sized_publishes_only_sizes_the_ring_accepts() {
    let mut bus = CircularBus::from_capacity(4096, PAGE_SIZE);
    let message = MsgA { data: [9, 8, 7, 6, 5] };
    assert!(send_sized::<HandlerA, MsgA, _>(&message, 10, &mut bus));
    let (hdr, buffer) = bus.read(0).unwrap();
    assert_eq!((hdr.source, hdr.message_id), (1, 2));
    assert_eq!(hdr.size as usize, align_to_usize(10));
    assert_eq!(decode(buffer), [9, 8, 7, 6, 5]);
    let head = bus.read_head();
    assert!(!send_sized::<HandlerA, MsgA, _>(&message, 4096, &mut bus));
    assert_eq!(bus.read_head(), head);
}
