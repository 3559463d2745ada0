use rustems::defrag::Defragmenter;
use rustems::frame::{Flags, FrameHeader};
use rustems::message::ErrorCode;

#[test]
fn test_unfragmented_bypass() {
    let mut defrag = Defragmenter::<1024>::new();
    let header = FrameHeader::new(Flags::none(), 123);
    let payload = b"hello";

    let result = defrag.feed(&header, payload).unwrap();
    assert_eq!(result, Some(&payload[..]));
}

#[test]
fn test_reassembly() {
    let mut defrag = Defragmenter::<1024>::new();

    let h1 = FrameHeader::new(Flags::none().with(Flags::FRAGMENT), 42);
    let h2 = FrameHeader::new(Flags::none().with(Flags::FRAGMENT), 42);
    let h3 = FrameHeader::new(
        Flags::none().with(Flags::FRAGMENT).with(Flags::LAST_FRAGMENT),
        42,
    );

    assert_eq!(defrag.feed(&h1, b"hello ").unwrap(), None);
    assert_eq!(defrag.feed(&h2, b"world").unwrap(), None);
    let result = defrag.feed(&h3, b"!").unwrap();
    assert_eq!(result, Some(b"hello world!" as &[u8]));
}

#[test]
fn test_sequence_mismatch() {
    let mut defrag = Defragmenter::<1024>::new();

    let h1 = FrameHeader::new(Flags::none().with(Flags::FRAGMENT), 42);
    let h2 = FrameHeader::new(Flags::none().with(Flags::FRAGMENT), 43); // mismatched sequence

    assert_eq!(defrag.feed(&h1, b"hello").unwrap(), None);
    assert_eq!(defrag.feed(&h2, b"world"), Err(ErrorCode::Fragmentation));
}

#[test]
fn test_buffer_overflow() {
    let mut defrag = Defragmenter::<8>::new(); // small buffer

    let h1 = FrameHeader::new(Flags::none().with(Flags::FRAGMENT), 42);
    let h2 = FrameHeader::new(Flags::none().with(Flags::FRAGMENT), 42);

    assert_eq!(defrag.feed(&h1, b"12345").unwrap(), None);
    assert_eq!(defrag.feed(&h2, b"67890"), Err(ErrorCode::Fragmentation));
}

#[test]
fn lone_last_fragment_and_reset() {
    let mut defrag = Defragmenter::<16>::default();
    let last = FrameHeader::new(Flags::none().with(Flags::FRAGMENT).with(Flags::LAST_FRAGMENT), 7);
    assert_eq!(defrag.feed(&last, b"solo").unwrap(), Some(&b"solo"[..]));
    // a new fragment after a completed message starts afresh
    let frag = FrameHeader::new(Flags::none().with(Flags::FRAGMENT), 8);
    assert_eq!(defrag.feed(&frag, b"ab").unwrap(), None);
    defrag.reset();
    assert_eq!(defrag.feed(&last, b"cd").unwrap(), Some(&b"cd"[..]));
}

#[test]
fn unfragmented_frame_interrupts_reassembly() {
    let mut defrag = Defragmenter::<16>::new();
    let frag = FrameHeader::new(Flags::none().with(Flags::FRAGMENT), 1);
    let last = FrameHeader::new(Flags::none().with(Flags::FRAGMENT).with(Flags::LAST_FRAGMENT), 1);
    assert_eq!(defrag.feed(&frag, b"xx").unwrap(), None);
    assert_eq!(defrag.feed(&FrameHeader::new(Flags::none(), 2), b"yy").unwrap(), Some(&b"yy"[..]));
    assert_eq!(defrag.feed(&last, b"z").unwrap(), Some(&b"z"[..]));
    // exactly filling the buffer is accepted
    assert_eq!(defrag.feed(&frag, &[0u8; 10]).unwrap(), None);
    assert_eq!(defrag.feed(&last, &[1u8; 6]).unwrap().map(|b| b.len()), Some(16));
}
