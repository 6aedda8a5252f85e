//! FIFO samples and drains.
use ltc2949::bus::{Action, SpiTranscript};
use ltc2949::client::{Error, FifoSample, FifoTag, LTC2949};
use ltc2949::dcmd::{build_read, build_write};
use ltc2949::pec15::PEC15;

fn reply(data: &[u8]) -> Vec<u8> {
    let mut bytes = vec![0; 5];
    bytes.extend_from_slice(data);
    bytes.extend_from_slice(&PEC15::calc(data));
    bytes
}

/// `n` valid samples, `first` upwards.
fn samples(first: u8, n: usize) -> Vec<u8> {
    let mut bytes = Vec::new();
    for i in 0..n {
        bytes.extend_from_slice(&[0, first + i as u8, 0x00]);
    }
    bytes
}

fn device(bursts: &[Vec<u8>]) -> SpiTranscript<&'static str> {
    let mut transcript = SpiTranscript::new();
    transcript.answer(vec![]);
    for burst in bursts {
        transcript.answer(reply(burst));
    }
    transcript
}

fn reads(addr: u8, sizes: &[usize]) -> Vec<Action> {
    let mut actions = vec![Action::Write(build_write(0xFF, &[0x80]))];
    for n in sizes {
        actions.push(Action::Transfer(build_read(addr, *n)));
    }
    actions
}

#[test]
fn full_buffer_ends_the_drain() {
    let mut client = LTC2949::new(device(&[samples(1, 5), samples(6, 2)]));
    let drained = client.read_fifo_i2::<7>().unwrap();
    let values: Vec<i16> = drained.iter().map(|sample| sample.raw).collect();
    assert_eq!(vec![1, 2, 3, 4, 5, 6, 7], values);
    assert_eq!(&reads(0xF8, &[15, 6]), client.link().bus().sent());
}

#[test]
fn empty_buffer_asks_nothing() {
    let mut client: LTC2949<(), _> = LTC2949::new(SpiTranscript::new());
    assert_eq!(0, client.read_fifo_bat::<0>().unwrap().len());
    assert!(client.link().bus().sent().is_empty());
}

#[test]
fn terminator_is_kept_and_ends_the_drain() {
    let mut burst = samples(1, 1);
    burst.extend_from_slice(&[0xFF, 0xFE, 0x80]);
    burst.extend_from_slice(&samples(9, 3));
    let mut client = LTC2949::new(device(&[burst]));
    let drained = client.read_fifo_aux::<20>().unwrap();
    assert_eq!(2, drained.len());
    assert_eq!(
        FifoSample {
            raw: 1,
            tag: FifoTag::Valid
        },
        drained[0]
    );
    assert_eq!(-2, drained[1].raw);
    assert_ne!(FifoTag::Valid, drained[1].tag);
    assert_eq!(&reads(0xFA, &[15]), client.link().bus().sent());
}

#[test]
fn failed_burst_hands_out_nothing() {
    let mut bus = device(&[samples(1, 5)]);
    bus.fail("second burst");
    let mut client = LTC2949::new(bus);
    assert_eq!(
        Some(Error::BusError("second burst")),
        client.read_fifo_bat::<6>().err()
    );
    assert_eq!(&reads(0xF9, &[15, 3]), client.link().bus().sent());
}

#[test]
fn raw_drain_reads_one_sample_per_command() {
    let mut client = ltc2949::ltc2949::LTC2949::new(device(&[
        vec![0x12, 0x34, 0x00],
        vec![0x80, 0x00, 0x00],
        vec![0x00, 0x00, 0x80],
    ]));
    let drained = client.read_fifo_bat::<8>().unwrap();
    assert_eq!(3, drained.len());
    assert_eq!(0x1234, drained[0].raw);
    assert_eq!(i16::MIN, drained[1].raw);
    assert_eq!(&reads(0xF9, &[3, 3, 3]), client.link().bus().sent());
}

#[test]
fn raw_drain_stops_at_the_capacity() {
    for (addr, length) in [
        (0xF7, {
            let mut client = ltc2949::ltc2949::LTC2949::new(device(&[samples(1, 1), samples(2, 1)]));
            client.read_fifo_i1::<2>().unwrap().len()
        }),
        (0xF8, {
            let mut client = ltc2949::ltc2949::LTC2949::new(device(&[samples(1, 1), samples(2, 1)]));
            client.read_fifo_i2::<2>().unwrap().len()
        }),
        (0xFA, {
            let mut client = ltc2949::ltc2949::LTC2949::new(device(&[samples(1, 1), samples(2, 1)]));
            client.read_fifo_aux::<2>().unwrap().len()
        }),
    ] {
        assert_eq!(2, length, "{addr:#04X}");
    }
}

#[test]
fn samples_are_signed_and_big_endian() {
    let sample = FifoSample::from_bytes(0xFF, 0x00, 0x00);
    assert_eq!(-256, sample.raw);
    assert_eq!(FifoTag::Valid, sample.tag);
    assert_eq!(i16::MAX, FifoSample::from_bytes(0x7F, 0xFF, 0x00).raw);
}
