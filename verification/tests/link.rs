//! The page cache, the errors, the end of a command, and operations that stop for a reply.
use ltc2949::bus::{Action, SpiTranscript};
use ltc2949::client::{AdcConfiguration, Client, Error, FastControlRegister, OverCurrentConfig, LTC2949};
use ltc2949::dcmd::{build_cmd16, build_read, build_write};
use ltc2949::ltc2949::Ltc2949Client;
use ltc2949::pec15::PEC15;
use ltc2949::polling::{NoPolling, SDOLinePolling};
use ltc2949::registers::Page;

/// The reply of a device that sends `data` with its PEC.
fn reply(data: &[u8]) -> Vec<u8> {
    let mut bytes = vec![0; 5];
    bytes.extend_from_slice(data);
    bytes.extend_from_slice(&PEC15::calc(data));
    bytes
}

fn write(addr: u8, data: &[u8]) -> Action {
    Action::Write(build_write(addr, data))
}

fn read(addr: u8, n: usize) -> Action {
    Action::Transfer(build_read(addr, n))
}

fn transcript(replies: &[Vec<u8>]) -> SpiTranscript<&'static str> {
    let mut transcript = SpiTranscript::new();
    for reply in replies {
        transcript.answer(reply.clone());
    }
    transcript
}

#[test]
fn page_is_selected_once() {
    let mut client = LTC2949::new(transcript(&[vec![], reply(&[0x30, 0x39]), reply(&[0x05, 0xD3])]));
    assert_eq!(None, client.link().current_page());
    assert_eq!(12345, client.read_bat().unwrap().raw());
    assert_eq!(Some(Page::Page0), client.link().current_page());
    assert_eq!(1491, client.read_temp().unwrap().raw());
    assert_eq!(
        &vec![write(0xFF, &[0x80]), read(0xA0, 2), read(0xA2, 2)],
        client.link().bus().sent()
    );
}

#[test]
fn accesses_of_both_pages_alternate_the_selection() {
    let mut client = LTC2949::new(transcript(&[vec![], reply(&[0, 1]), vec![], vec![], vec![], reply(&[0, 2])]));
    client.read_bat().unwrap();
    client.write_adcconf(AdcConfiguration::new()).unwrap();
    assert_eq!(Some(Page::Page1), client.link().current_page());
    client.read_bat().unwrap();
    let sent = client.link().bus().sent();
    assert_eq!(write(0xFF, &[0x81]), sent[2]);
    assert_eq!(write(0xFF, &[0x80]), sent[4]);
    assert_eq!(Some(Page::Page0), client.link().current_page());
}

#[test]
fn corrupted_reply_is_refused_and_drops_the_page() {
    for bit in 0..32 {
        let mut bytes = reply(&[0x30, 0x39]);
        bytes[5 + bit / 8] ^= 1 << (bit % 8);
        let mut client = LTC2949::new(transcript(&[vec![], bytes]));
        assert_eq!(Err(Error::ChecksumMismatch), client.read_bat());
        assert_eq!(None, client.link().current_page());
    }
}

#[test]
fn short_reply_is_refused() {
    let mut client = LTC2949::new(transcript(&[vec![], vec![0; 6]]));
    assert_eq!(Err(Error::ChecksumMismatch), client.read_bat());
}

#[test]
fn bus_errors_are_handed_on() {
    let mut bus = transcript(&[]);
    bus.fail("selection");
    let mut client = LTC2949::new(bus);
    assert_eq!(Err(Error::BusError("selection")), client.read_bat());
    assert_eq!(None, client.link().current_page());
    assert_eq!(&vec![write(0xFF, &[0x80])], client.link().bus().sent());

    let mut bus = transcript(&[vec![]]);
    bus.fail("read");
    let mut client = LTC2949::new(bus);
    assert_eq!(Err(Error::BusError("read")), client.read_bat());
    assert_eq!(Some(Page::Page0), client.link().current_page());
}

#[test]
fn second_write_waits_for_the_first() {
    let mut bus = transcript(&[vec![]]);
    bus.fail("first");
    let mut client = LTC2949::new(bus);
    let config = OverCurrentConfig {
        enable: true,
        threshold: 0b010,
        deglitch_time: 0b01,
        polarity: 0b10,
    };
    assert_eq!(Err(Error::BusError("first")), client.write_occ_config(config, config));
    assert_eq!(
        &vec![write(0xFF, &[0x80]), write(0xDE, &[0b1001_0101])],
        client.link().bus().sent()
    );
}

#[test]
fn operation_stops_at_the_first_missing_reply() {
    let mut client: LTC2949<(), NoPolling> = LTC2949::new(SpiTranscript::new());
    let start = client.link().current_page();
    assert_eq!(Err(Error::Awaiting), client.read_bat());
    assert_eq!(Some(&write(0xFF, &[0x80])), client.link().bus().awaiting());

    client.link_mut().answer(vec![]);
    client.link_mut().rewind(start);
    assert_eq!(Err(Error::Awaiting), client.read_bat());
    assert_eq!(Some(&read(0xA0, 2)), client.link().bus().awaiting());

    client.link_mut().answer(reply(&[0x30, 0x39]));
    client.link_mut().rewind(start);
    assert_eq!(12345, client.read_bat().unwrap().raw());
    assert_eq!(None, client.link().bus().awaiting());

    client.link_mut().clear();
    assert!(client.link().bus().sent().is_empty());
    assert_eq!(Some(Page::Page0), client.link().current_page());
}

#[test]
fn failed_action_ends_the_rerun() {
    let mut client = LTC2949::new(SpiTranscript::new());
    let start = client.link().current_page();
    assert_eq!(Err(Error::Awaiting), client.read_bat());
    client.link_mut().fail("no device");
    client.link_mut().rewind(start);
    assert_eq!(Err(Error::BusError("no device")), client.read_bat());
}

#[test]
fn latched_chip_select_is_released_after_each_command() {
    let bus = transcript(&[vec![], vec![], reply(&[0x10]), vec![], vec![], vec![]]);
    let mut client = LTC2949::with_polling(bus, SDOLinePolling {});
    assert!(client.read_status().unwrap().update());
    client.trigger_adax().unwrap();
    assert_eq!(
        &vec![
            write(0xFF, &[0x80]),
            Action::ReleaseCs,
            read(0x80, 1),
            Action::ReleaseCs,
            Action::Write(build_cmd16(0x0460)),
            Action::ReleaseCs,
        ],
        client.link().bus().sent()
    );
}

#[test]
fn refused_reply_leaves_the_chip_select_latched() {
    let bus = transcript(&[vec![], vec![], vec![0xFF; 8]]);
    let mut client = LTC2949::with_polling(bus, SDOLinePolling {});
    assert_eq!(Err(Error::ChecksumMismatch), client.read_status());
    assert_eq!(
        &vec![write(0xFF, &[0x80]), Action::ReleaseCs, read(0x80, 1)],
        client.link().bus().sent()
    );
}

#[test]
fn failed_release_is_a_failed_command() {
    let mut bus = transcript(&[vec![]]);
    bus.fail("pin");
    let mut client = LTC2949::with_polling(bus, SDOLinePolling {});
    assert_eq!(Err(Error::BusError("pin")), client.write_factrl(FastControlRegister::new()));
    assert_eq!(None, client.link().current_page());
}

#[test]
fn wake_edges_are_no_commands() {
    let bus = transcript(&[vec![], vec![], vec![]]);
    let mut client = LTC2949::with_polling(bus, SDOLinePolling {});
    client.wake_isospi().unwrap();
    client.start_wake_up().unwrap();
    let edge = Action::Write(vec![0x00]);
    assert_eq!(&vec![edge.clone(), edge.clone(), edge], client.link().bus().sent());
}

#[test]
fn wake_up_forgets_the_page_and_the_port_wake_keeps_it() {
    let mut client = LTC2949::new(transcript(&[vec![], vec![], vec![], vec![], vec![]]));
    client.write_adcconf(AdcConfiguration::new()).unwrap();
    client.wake_isospi().unwrap();
    assert_eq!(Some(Page::Page1), client.link().current_page());
    client.start_wake_up().unwrap();
    assert_eq!(None, client.link().current_page());
}

#[test]
fn memory_lock_keeps_the_page() {
    let mut client = LTC2949::new(transcript(&[vec![], vec![], vec![], vec![]]));
    client.write_adcconf(AdcConfiguration::new()).unwrap();
    client.request_memory_lock().unwrap();
    client.unlock_memory().unwrap();
    let sent = client.link().bus().sent();
    assert_eq!(write(0xFF, &[0x91]), sent[2]);
    assert_eq!(write(0xFF, &[0x81]), sent[3]);
    assert_eq!(Some(Page::Page1), client.link().current_page());
}

#[test]
fn memory_lock_on_an_unknown_page_takes_the_first() {
    let mut client = LTC2949::new(transcript(&[vec![], reply(&[0, 0, 0, 0, 0, 1]), vec![]]));
    client.request_memory_lock().unwrap();
    assert_eq!(Some(Page::Page0), client.link().current_page());
    assert_eq!(1, client.read_charge1().unwrap().raw());
    client.unlock_memory().unwrap();
    assert_eq!(
        &vec![write(0xFF, &[0x90]), read(0x00, 6), write(0xFF, &[0x80])],
        client.link().bus().sent()
    );
}

#[test]
fn long_write_is_split_into_groups() {
    let bus = transcript(&[vec![], vec![], vec![]]);
    let mut client = ltc2949::ltc2949::LTC2949::new(bus);
    let data: Vec<u8> = (0..40).collect();
    client.dcmd_write(0x40, &data).unwrap();
    assert_eq!(
        &vec![
            write(0x40, &data[..16]),
            write(0x50, &data[16..32]),
            write(0x60, &data[32..])
        ],
        client.link().bus().sent()
    );
}

#[test]
fn long_read_is_joined_from_groups() {
    let data: Vec<u8> = (0..20).collect();
    let bus = transcript(&[reply(&data[..16]), reply(&data[16..])]);
    let mut client = ltc2949::ltc2949::LTC2949::new(bus);
    assert_eq!(Ok(data), client.dcmd_read(0xF8, 20));
    assert_eq!(&vec![read(0xF8, 16), read(0x08, 4)], client.link().bus().sent());
}

#[test]
fn corrupted_group_ends_a_long_read() {
    let data: Vec<u8> = (0..20).collect();
    let mut bytes = reply(&data[..16]);
    bytes[7] ^= 0x40;
    let mut client = ltc2949::ltc2949::LTC2949::new(transcript(&[bytes]));
    assert_eq!(Err(Error::ChecksumMismatch), client.dcmd_read(0x00, 20));
    assert_eq!(1, client.link().bus().sent().len());
}

#[test]
fn failed_group_ends_a_long_write() {
    let mut bus = transcript(&[vec![]]);
    bus.fail("second");
    let mut client = ltc2949::ltc2949::LTC2949::new(bus);
    assert_eq!(Err(Error::BusError("second")), client.dcmd_write(0x00, &[0; 48]));
    assert_eq!(2, client.link().bus().sent().len());
}

#[test]
fn raw_client_shares_the_page_rules() {
    let mut client = ltc2949::ltc2949::LTC2949::new(transcript(&[vec![], reply(&[0x12]), reply(&[0x34])]));
    assert_eq!(Ok(0x12), client.read_status());
    assert_eq!(Ok(0x34), client.read_faults());
    assert_eq!(
        &vec![write(0xFF, &[0x80]), read(0x80, 1), read(0xDD, 1)],
        client.link().bus().sent()
    );
}

#[test]
fn bytes_before_the_data_are_ignored() {
    let echoed = |data: &[u8]| {
        let mut bytes = reply(data);
        bytes[..5].copy_from_slice(&[0xFE, 0xA0, 0x12, 0x34, 0x9B]);
        bytes
    };
    let mut client = LTC2949::new(transcript(&[vec![], echoed(&[0x30, 0x39]), echoed(&[0, 1, 0x55])]));
    assert_eq!(12345, client.read_bat().unwrap().raw());
    assert_eq!(1, client.read_fifo_i1::<1>().unwrap()[0].raw);

    let data: Vec<u8> = (0..20).collect();
    let mut raw = ltc2949::ltc2949::LTC2949::new(transcript(&[echoed(&data[..16]), echoed(&data[16..])]));
    assert_eq!(Ok(data), raw.dcmd_read(0x00, 20));
}

#[test]
fn drain_selects_its_page_first() {
    let mut client = LTC2949::new(transcript(&[vec![], vec![], vec![], reply(&[0, 7, 0xAA])]));
    client.write_adcconf(AdcConfiguration::new()).unwrap();
    assert_eq!(7, client.read_fifo_bat::<1>().unwrap()[0].raw);
    let sent = client.link().bus().sent();
    assert_eq!(write(0xFF, &[0x80]), sent[2]);
    assert_eq!(read(0xF9, 3), sent[3]);
}
