use mcutt::v3::publish::ClientQos;
use mcutt::v3::packets::publish::Publish;
use mcutt::v3::packets::publish::builder::PublishBuilder;
use mcutt::outgoing::reserve_publish;
use mcutt::slab::Slab;
use mcutt::sync::{HeadFill, ReadAction, Reader};

#[test]
fn slab_insert_get_remove() {
    let mut slab: Slab<&str> = Slab::new(2);

    assert_eq!(slab.insert(|idx| ("a", idx)), Some(0));
    assert_eq!(slab.insert(|idx| ("b", idx)), Some(1));
    assert_eq!(slab.insert(|idx| ("c", idx)), None);

    assert_eq!(slab.get(0), Some(&"a"));
    assert_eq!(slab.get(1), Some(&"b"));
    assert_eq!(slab.get(2), None);

    assert_eq!(slab.remove(0), Some("a"));
    assert_eq!(slab.get(0), None);
    assert_eq!(slab.remove(0), None);
    assert_eq!(slab.remove(5), None);

    // The freed entry is used again.
    assert_eq!(slab.insert(|idx| ("d", idx)), Some(0));
    assert_eq!(slab.get(0), Some(&"d"));
    assert_eq!(slab.insert(|idx| ("e", idx)), None);
}

#[test]
fn slab_reuses_the_only_slot() {
    let mut slab: Slab<u8> = Slab::new(1);

    assert_eq!(slab.insert(|i| (1u8, i)), Some(0));
    assert_eq!(slab.remove(0), Some(1));
    assert_eq!(slab.insert(|i| (2u8, i)), Some(0));
    assert_eq!(slab.get(0), Some(&2));
}

#[test]
fn slab_try_insert() {
    let mut slab: Slab<u32> = Slab::new(3);

    let res: Result<Option<usize>, &str> = slab.try_insert(|idx| Ok((10, idx)));
    assert_eq!(res, Ok(Some(0)));

    let res: Result<Option<usize>, &str> = slab.try_insert(|_| Err("no"));
    assert_eq!(res, Err("no"));

    // The failed insertion changed nothing: its index is the next one used.
    assert_eq!(slab.get(1), None);
    let res: Result<Option<usize>, &str> = slab.try_insert(|idx| Ok((30, idx)));
    assert_eq!(res, Ok(Some(1)));
    let res: Result<Option<usize>, &str> = slab.try_insert(|idx| Ok((40, idx)));
    assert_eq!(res, Ok(Some(2)));
    let res: Result<Option<usize>, &str> = slab.try_insert(|idx| Ok((50, idx)));
    assert_eq!(res, Ok(None));
    assert_eq!(slab.get(1), Some(&30));
    assert_eq!(slab.get(2), Some(&40));
}

#[test]
fn slab_of_one_survives_a_failed_try_insert() {
    let mut slab: Slab<u8> = Slab::new(1);

    let res: Result<Option<usize>, &str> = slab.try_insert(|_| Err("no"));
    assert_eq!(res, Err("no"));
    assert_eq!(slab.insert(|i| (7u8, i)), Some(0));
    assert_eq!(slab.get(0), Some(&7));
}

#[test]
fn reader_requires_a_fixed_header() {
    assert!(Reader::with_capacity(4).is_none());
    assert!(Reader::with_capacity(5).is_some());
}

#[test]
fn reader_collects_whole_packets() {
    let mut reader = Reader::with_capacity(16).unwrap();

    assert_eq!(reader.read().unwrap(), ReadAction::FillHead(5));
    reader.fill(&[0x30, 0x03, 0x00]).unwrap();
    assert_eq!(reader.read().unwrap(), ReadAction::FillExact(2));
    reader.fill(&[0x01, b'a', 0xD0, 0x00]).unwrap();
    assert_eq!(reader.read().unwrap(), ReadAction::Frame(5));
    assert_eq!(reader.take_frame(5), [0x30, 0x03, 0x00, 0x01, b'a']);
    assert_eq!(reader.read().unwrap(), ReadAction::Frame(2));
    assert_eq!(reader.take_frame(2), [0xD0, 0x00]);
    assert_eq!(reader.read().unwrap(), ReadAction::FillHead(5));
}

#[test]
fn reader_rejects_packets_bigger_than_its_buffer() {
    let mut reader = Reader::with_capacity(8).unwrap();
    reader.fill(&[0x30, 0x10]).unwrap();
    assert_eq!(reader.read().unwrap_err().kind(), mcutt::bytes::ErrorKind::OutOfRange);

    let mut reader = Reader::with_capacity(5).unwrap();
    assert_eq!(reader.fill(&[0; 6]).unwrap_err().kind(), mcutt::bytes::ErrorKind::NotEnoughSpace);
}

#[test]
fn reserve_publish_gives_index_plus_one() {
    let mut slab: Slab<PublishBuilder<'static>> = Slab::new(2);
    let first = reserve_publish(&mut slab, PublishBuilder::new("a", b"x"), ClientQos::AtLeastOnce).unwrap();
    assert_eq!(first.map(|p| p.read()), Some(1));
    let second = reserve_publish(&mut slab, PublishBuilder::new("b", b"y"), ClientQos::ExactlyOnce).unwrap();
    assert_eq!(second.map(|p| p.read()), Some(2));
    assert!(reserve_publish(&mut slab, PublishBuilder::new("c", b"z"), ClientQos::AtLeastOnce).unwrap().is_none());

    let stored = *slab.get(1).unwrap();
    let mut buf = Vec::new();
    Publish::write_sync(&mut buf, &stored).unwrap();
    assert_eq!(buf, [0b0011_0100, 6, 0x00, 0x01, b'b', 0x00, 0x02, b'y']);
}

#[test]
fn reader_hands_out_frames_then_ends() {
    let stream: &[u8] = &[0xD0, 0x00, 0x30, 0x03, 0x00, 0x01, b'a'];
    let mut input = stream;
    let mut reader = Reader::with_capacity(16).unwrap();
    let mut frames = Vec::new();

    loop {
        match reader.read().unwrap() {
            ReadAction::FillHead(max) => {
                let n = max.min(input.len()).min(2);
                let (chunk, rest) = input.split_at(n);
                input = rest;
                if reader.fill_head(chunk).unwrap() == HeadFill::EndOfStream {
                    break;
                }
            }
            ReadAction::FillExact(n) => {
                let (chunk, rest) = input.split_at(n);
                input = rest;
                reader.fill(chunk).unwrap();
            }
            ReadAction::Frame(len) => frames.push(reader.take_frame(len)),
        }
    }

    assert_eq!(frames, vec![vec![0xD0, 0x00], vec![0x30, 0x03, 0x00, 0x01, b'a']]);
}
