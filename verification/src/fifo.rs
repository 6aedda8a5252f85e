//! Fast-mode FIFOs.
//!
//! A FIFO register is non-incrementing: each 3-byte group within a burst pops the next sample,
//! so one read of `3 * k` bytes yields `k` samples.
use vstd::prelude::*;

use crate::error::Error;
use crate::link::{Link, LinkView};
use crate::polling::PollMethod;
use crate::registers::Page;

verus! {

/// FIFO sample tag values (datasheet Table 30).
#[derive(Copy, Clone, Eq, PartialEq, Structural, Debug)]
pub enum FifoTag {
    /// New, valid sample.
    Valid,
    /// Sample was already read; no new data since last drain.
    ReadOverrun,
    /// FIFO filled and at least one sample was overwritten.
    WriteOverrun,
    /// Anything else returned by the device.
    Unknown(u8),
}

/// One fast-mode FIFO sample.
#[derive(Copy, Clone, Eq, PartialEq, Structural, Debug)]
pub struct FifoSample {
    /// Raw 16-bit two's-complement ADC reading. Multiply by the channel's LSB
    /// (7.60371 uV for I1/I2, 375.183 uV for BAT/AUX) to get a physical value.
    pub raw: i16,
    pub tag: FifoTag,
}

/// Whole 3-byte FIFO samples that fit one PEC group (`16 / 3 = 5`). Reading several samples
/// per command amortises the header and PEC overhead instead of paying it per sample.
pub const SAMPLES_PER_BURST: usize = 5;

/// The tag that `byte` stands for.
pub open spec fn tag_of(byte: u8) -> FifoTag {
    if byte == 0x00 {
        FifoTag::Valid
    } else if byte == 0x55 {
        FifoTag::ReadOverrun
    } else if byte == 0xAA {
        FifoTag::WriteOverrun
    } else {
        FifoTag::Unknown(byte)
    }
}

/// The sample with index `i` in `data`: MSB, LSB, TAG.
pub open spec fn sample_at(data: Seq<u8>, i: int) -> FifoSample {
    FifoSample { raw: crate::bytes::signed(data.subrange(3 * i, 3 * i + 2)) as i16, tag: tag_of(data[3 * i + 2]) }
}

/// The first `count` samples in `data`.
pub open spec fn samples_in(data: Seq<u8>, count: nat) -> Seq<FifoSample> {
    Seq::new(count, |i: int| sample_at(data, i))
}

/// Whether `samples` ends in a sample that is not `Valid`.
pub open spec fn is_terminated(samples: Seq<FifoSample>) -> bool {
    samples.len() > 0 && samples.last().tag != FifoTag::Valid
}

/// `samples` up to and including the first one that is not `Valid`.
pub open spec fn up_to_terminator(samples: Seq<FifoSample>) -> Seq<FifoSample>
    decreases samples.len(),
{
    if samples.len() == 0 {
        samples
    } else if is_terminated(up_to_terminator(samples.drop_last())) {
        up_to_terminator(samples.drop_last())
    } else {
        samples
    }
}

/// How many samples the next burst asks for.
pub open spec fn burst_len(room: nat, burst: nat) -> nat {
    if room < burst {
        room
    } else {
        burst
    }
}

impl<E> LinkView<E> {
    /// Drains up to `room` samples from the FIFO register at `addr`, at most `burst` at a
    /// time, until one that is not `Valid` comes; that one is included.
    pub open spec fn drain(self, addr: u8, room: nat, burst: nat) -> (Result<Seq<FifoSample>, Error<E>>, Self)
        decreases room,
    {
        if room == 0 || burst == 0 {
            (Ok(Seq::empty()), self)
        } else {
            let count = burst_len(room, burst);
            match self.read_register(Page::Page0, addr, 3 * count) {
                (Err(error), failed) => (Err(error), failed),
                (Ok(data), read) => {
                    let got = up_to_terminator(samples_in(data, count));
                    if is_terminated(got) {
                        (Ok(got), read)
                    } else {
                        prepend(got, read.drain(addr, (room - count) as nat, burst))
                    }
                },
            }
        }
    }
}

/// The outcome of a drain that had `got` before.
pub open spec fn prepend<E>(got: Seq<FifoSample>, rest: (Result<Seq<FifoSample>, Error<E>>, LinkView<E>)) -> (
    Result<Seq<FifoSample>, Error<E>>,
    LinkView<E>,
) {
    match rest.0 {
        Err(error) => (Err(error), rest.1),
        Ok(samples) => (Ok(got + samples), rest.1),
    }
}

/// `heapless::Vec`, the fixed-capacity vector that a drain fills.
#[verifier::external_type_specification]
#[verifier::external_body]
#[verifier::reject_recursive_types(T)]
pub struct ExHeaplessVec<T, const N: usize>(heapless::Vec<T, N>);

/// The samples that `samples` holds: those of the slice that it compares equal to.
pub open spec fn held<const N: usize>(samples: heapless::Vec<FifoSample, N>) -> Seq<FifoSample> {
    (choose|slice: &[FifoSample]| vstd::std_specs::cmp::PartialEqSpec::<[FifoSample]>::eq_spec(&samples, slice))@
}

/// Whether a result shows the samples that `outcome` of the model holds.
pub open spec fn yields_samples<E, const N: usize>(
    result: Result<heapless::Vec<FifoSample, N>, Error<E>>,
    outcome: Result<Seq<FifoSample>, Error<E>>,
) -> bool {
    match result {
        Ok(samples) => outcome == Ok::<Seq<FifoSample>, Error<E>>(held(samples)),
        Err(error) => outcome == Err::<Seq<FifoSample>, Error<E>>(error),
    }
}

/// `heapless::Vec::new` makes a vector that holds nothing.
#[verifier::external_body]
fn empty_samples<const N: usize>() -> (samples: heapless::Vec<FifoSample, N>)
    ensures
        held(samples) == Seq::<FifoSample>::empty(),
{
    heapless::Vec::new()
}

/// `heapless::Vec::push` appends the sample if fewer than `N` are held, and otherwise hands it
/// back and leaves the vector as it was.
#[verifier::external_body]
fn push_sample<const N: usize>(samples: &mut heapless::Vec<FifoSample, N>, sample: FifoSample) -> (result: Result<
    (),
    FifoSample,
>)
    ensures
        result == (if held(*old(samples)).len() >= N {
            Err::<(), FifoSample>(sample)
        } else {
            Ok::<(), FifoSample>(())
        }),
        held(*final(samples)) == (if result is Ok {
            held(*old(samples)).push(sample)
        } else {
            held(*old(samples))
        }),
{
    samples.push(sample)
}

impl FifoTag {
    /// The tag that `b` stands for.
    pub fn from_byte(b: u8) -> (tag: Self)
        ensures
            tag == tag_of(b),
    {
        match b {
            0x00 => FifoTag::Valid,
            0x55 => FifoTag::ReadOverrun,
            0xAA => FifoTag::WriteOverrun,
            other => FifoTag::Unknown(other),
        }
    }
}

impl FifoSample {
    /// Decodes one sample as the device returns it: MSB, LSB, TAG.
    pub fn from_bytes(msb: u8, lsb: u8, tag: u8) -> (sample: Self)
        ensures
            sample.raw == crate::bytes::signed(seq![msb, lsb]),
            sample.tag == tag_of(tag),
    {
        let bytes = [msb, lsb];
        let raw = crate::bytes::signed_from_be(&bytes);
        proof {
            assert(bytes@ =~= seq![msb, lsb]);
            reveal_with_fuel(crate::bytes::span, 3);
        }
        FifoSample { raw: raw as i16, tag: FifoTag::from_byte(tag) }
    }
}

/// Appends the samples of one burst to `samples`, up to and including the first that is not
/// `Valid`, and says whether there was one.
fn push_burst<const N: usize>(samples: &mut heapless::Vec<FifoSample, N>, data: &Vec<u8>, count: usize) -> (stop: bool)
    requires
        count <= SAMPLES_PER_BURST,
        data@.len() == 3 * count,
        held(*old(samples)).len() + count <= N,
    ensures
        held(*final(samples)) == held(*old(samples)) + up_to_terminator(samples_in(data@, count as nat)),
        stop == is_terminated(up_to_terminator(samples_in(data@, count as nat))),
{
    let ghost before = held(*samples);
    let mut i: usize = 0;
    let mut stop = false;
    proof {
        assert(samples_in(data@, 0) =~= Seq::empty());
        assert(before + samples_in(data@, 0) =~= before);
    }
    while i < count && !stop
        invariant
            i <= count <= SAMPLES_PER_BURST,
            data@.len() == 3 * count,
            before.len() + count <= N,
            held(*samples) == before + up_to_terminator(samples_in(data@, i as nat)),
            stop == is_terminated(up_to_terminator(samples_in(data@, i as nat))),
            up_to_terminator(samples_in(data@, i as nat)).len() <= i,
        decreases count - i,
    {
        let sample = FifoSample::from_bytes(data[3 * i], data[3 * i + 1], data[3 * i + 2]);
        let ghost done = samples_in(data@, i as nat);
        let ghost next = samples_in(data@, (i + 1) as nat);
        proof {
            assert(data@.subrange(3 * i as int, 3 * i + 2) =~= seq![data@[3 * i as int], data@[3 * i + 1]]);
            assert(next.drop_last() =~= done);
            assert(next.last() == sample);
            lemma_up_to_terminator(done);
            assert(up_to_terminator(next) =~= done.push(sample));
        }
        stop = match sample.tag {
            FifoTag::Valid => false,
            _ => true,
        };
        let _ = push_sample(samples, sample);
        proof {
            assert(held(*samples) =~= before + up_to_terminator(next));
        }
        i = i + 1;
    }
    proof {
        lemma_terminated_prefix(samples_in(data@, count as nat), i as int);
        assert(samples_in(data@, count as nat).take(i as int) =~= samples_in(data@, i as nat));
    }
    stop
}

/// Samples are cut short only behind a terminator.
proof fn lemma_up_to_terminator(samples: Seq<FifoSample>)
    ensures
        up_to_terminator(samples).len() <= samples.len(),
        !is_terminated(up_to_terminator(samples)) ==> up_to_terminator(samples) == samples,
    decreases samples.len(),
{
    if samples.len() > 0 {
        lemma_up_to_terminator(samples.drop_last());
    }
}

/// What follows a terminator does not matter.
proof fn lemma_terminated_prefix(samples: Seq<FifoSample>, count: int)
    requires
        0 <= count <= samples.len(),
    ensures
        is_terminated(up_to_terminator(samples.take(count))) ==> up_to_terminator(samples) == up_to_terminator(
            samples.take(count),
        ),
    decreases samples.len(),
{
    if count == samples.len() {
        assert(samples.take(count) =~= samples);
    } else {
        assert(samples.drop_last().take(count) =~= samples.take(count));
        lemma_terminated_prefix(samples.drop_last(), count);
    }
}

/// Drains up to `N` samples from the FIFO register at `addr`, at most `burst` at a time. Stops at
/// the first non-`Valid` sample, which is included as the terminator so the caller can read its
/// `tag`.
pub fn drain_fifo<E, P: PollMethod<E>, const N: usize>(link: &mut Link<E, P>, addr: u8, burst: usize) -> (result: Result<
    heapless::Vec<FifoSample, N>,
    Error<E>,
>)
    requires
        0 < burst <= SAMPLES_PER_BURST,
    ensures
        final(link)@ == old(link)@.drain(addr, N as nat, burst as nat).1,
        yields_samples(result, old(link)@.drain(addr, N as nat, burst as nat).0),
{
    let ghost start = link@;
    let ghost whole = start.drain(addr, N as nat, burst as nat);
    let mut samples: heapless::Vec<FifoSample, N> = empty_samples();
    let mut remaining: usize = N;
    proof {
        lemma_prepend_nothing(whole);
    }
    while remaining > 0
        invariant
            remaining <= N,
            0 < burst <= SAMPLES_PER_BURST,
            held(samples).len() == N - remaining,
            whole == prepend(held(samples), link@.drain(addr, remaining as nat, burst as nat)),
            whole == start.drain(addr, N as nat, burst as nat),
            start == old(link)@,
        decreases remaining,
    {
        let batch = if remaining < burst { remaining } else { burst };
        let ghost before = link@;
        let data = match link.read_register(Page::Page0, addr, batch * 3) {
            Err(error) => {
                return Err(error);
            },
            Ok(data) => data,
        };
        let ghost got = up_to_terminator(samples_in(data@, batch as nat));
        let ghost so_far = held(samples);
        let stop = push_burst(&mut samples, &data, batch);
        if stop {
            return Ok(samples);
        }
        proof {
            lemma_up_to_terminator(samples_in(data@, batch as nat));
            let rest = link@.drain(addr, (remaining - batch) as nat, burst as nat);
            lemma_prepend_twice(so_far, got, rest);
        }
        remaining = remaining - batch;
    }
    proof {
        assert(held(samples) + Seq::empty() =~= held(samples));
    }
    Ok(samples)
}

proof fn lemma_prepend_nothing<E>(rest: (Result<Seq<FifoSample>, Error<E>>, LinkView<E>))
    ensures
        prepend(Seq::empty(), rest) == rest,
{
    if let Ok(samples) = rest.0 {
        assert(Seq::empty() + samples =~= samples);
    }
}

proof fn lemma_prepend_twice<E>(
    first: Seq<FifoSample>,
    second: Seq<FifoSample>,
    rest: (Result<Seq<FifoSample>, Error<E>>, LinkView<E>),
)
    ensures
        prepend(first, prepend(second, rest)) == prepend(first + second, rest),
{
    if let Ok(samples) = rest.0 {
        assert(first + (second + samples) =~= (first + second) + samples);
    }
}

/// A drain gives back at most as many samples as there is room for. All but the last are
/// `Valid`, and if there are fewer than that, the last one is the terminator.
pub proof fn drained_samples_end_at_the_terminator<E>(link: LinkView<E>, addr: u8, room: nat, burst: nat)
    requires
        burst > 0,
    ensures
        link.drain(addr, room, burst).0 matches Ok(samples) ==> {
            &&& samples.len() <= room
            &&& forall|i: int| 0 <= i < samples.len() - 1 ==> (#[trigger] samples[i]).tag == FifoTag::Valid
            &&& samples.len() < room ==> is_terminated(samples)
        },
    decreases room,
{
    if room > 0 {
        let count = burst_len(room, burst);
        let (outcome, read) = link.read_register(Page::Page0, addr, 3 * count);
        if let Ok(data) = outcome {
            let got = up_to_terminator(samples_in(data, count));
            lemma_all_valid_before_terminator(samples_in(data, count));
            lemma_up_to_terminator(samples_in(data, count));
            drained_samples_end_at_the_terminator(read, addr, (room - count) as nat, burst);
        }
    }
}

proof fn lemma_all_valid_before_terminator(samples: Seq<FifoSample>)
    ensures
        forall|i: int|
            0 <= i < up_to_terminator(samples).len() - 1 ==> (#[trigger] up_to_terminator(samples)[i]).tag == FifoTag::Valid,
    decreases samples.len(),
{
    if samples.len() > 0 {
        let front = samples.drop_last();
        lemma_all_valid_before_terminator(front);
        lemma_up_to_terminator(front);
        if !is_terminated(up_to_terminator(front)) {
            assert forall|i: int| 0 <= i < samples.len() - 1 implies (#[trigger] samples[i]).tag == FifoTag::Valid by {
                assert(samples[i] == front[i]);
                if i == front.len() - 1 {
                    assert(up_to_terminator(front).last() == front.last());
                }
            }
        }
    }
}

/// The byte that stands for a tag.
pub open spec fn tag_byte(tag: FifoTag) -> u8 {
    match tag {
        FifoTag::Valid => 0x00,
        FifoTag::ReadOverrun => 0x55,
        FifoTag::WriteOverrun => 0xAA,
        FifoTag::Unknown(byte) => byte,
    }
}

/// Whether a device can send `sample`: an unknown tag is none of the known ones.
pub open spec fn is_sendable(sample: FifoSample) -> bool {
    tag_of(tag_byte(sample.tag)) == sample.tag
}

/// The bytes in which a device sends `samples`: MSB, LSB and TAG of each.
pub open spec fn bytes_of(samples: Seq<FifoSample>) -> Seq<u8> {
    Seq::new(
        3 * samples.len(),
        |i: int|
            if i % 3 == 2 {
                tag_byte(samples[i / 3].tag)
            } else {
                crate::bytes::encoded(samples[i / 3].raw as int, 2)[i % 3]
            },
    )
}

/// Whether the replies on `link` serve a drain of up to `room` samples from a FIFO that holds
/// `queue`: a page selection is taken, if there is one, and each burst is answered by the next
/// samples of the queue with their PEC, behind any five bytes, until one that is not `Valid` has
/// been sent.
pub open spec fn serves<E>(link: LinkView<E>, queue: Seq<FifoSample>, addr: u8, room: nat, burst: nat) -> bool
    decreases room,
{
    if room == 0 || burst == 0 {
        true
    } else {
        let count = burst_len(room, burst);
        let sent = queue.take(count as int);
        let selected = link.select_page(Page::Page0);
        &&& selected.0 is Ok
        &&& selected.1.bus.covers(1 + link.end.len())
        &&& crate::laws::is_reply_with(selected.1.bus.next_reply(), bytes_of(sent))
        &&& !is_terminated(up_to_terminator(sent)) ==> serves(
            selected.1.dcmd_read(addr, 3 * count).1,
            queue.skip(count as int),
            addr,
            (room - count) as nat,
            burst,
        )
    }
}

/// A drain hands out what the FIFO holds: the samples of its queue, in order, up to the room
/// there is and up to and including the first that is not `Valid`, however many of them one
/// burst carries.
pub proof fn drain_hands_out_the_queue<E>(link: LinkView<E>, queue: Seq<FifoSample>, addr: u8, room: nat, burst: nat)
    requires
        burst > 0,
        room <= queue.len(),
        forall|i: int| 0 <= i < queue.len() ==> is_sendable(#[trigger] queue[i]),
        serves(link, queue, addr, room, burst),
    ensures
        link.drain(addr, room, burst).0 == Ok::<Seq<FifoSample>, Error<E>>(up_to_terminator(queue.take(room as int))),
    decreases room,
{
    if room == 0 {
        assert(queue.take(0) =~= Seq::empty());
    } else {
        let count = burst_len(room, burst);
        let sent = queue.take(count as int);
        let rest = queue.skip(count as int);
        lemma_burst_is_read(link, queue, addr, room, burst);
        assert(queue.take(room as int) =~= sent + rest.take(room - count));
        lemma_up_to_terminator_of_two(sent, rest.take(room - count));
        if !is_terminated(up_to_terminator(sent)) {
            lemma_up_to_terminator(sent);
            assert forall|i: int| 0 <= i < rest.len() implies is_sendable(#[trigger] rest[i]) by {
                assert(rest[i] == queue[i + count]);
            }
            let read = link.read_register(Page::Page0, addr, 3 * count).1;
            drain_hands_out_the_queue(read, rest, addr, (room - count) as nat, burst);
            lemma_drain_goes_on(link, sent, addr, room, burst);
        } else {
            lemma_drain_ends(link, sent, addr, room, burst);
        }
    }
}

/// The next burst reads the next samples of the queue that is served.
proof fn lemma_burst_is_read<E>(link: LinkView<E>, queue: Seq<FifoSample>, addr: u8, room: nat, burst: nat)
    requires
        burst > 0,
        0 < room <= queue.len(),
        forall|i: int| 0 <= i < queue.len() ==> is_sendable(#[trigger] queue[i]),
        serves(link, queue, addr, room, burst),
    ensures
        is_burst(link, queue.take(burst_len(room, burst) as int), addr, room, burst),
{
    let count = burst_len(room, burst);
    let sent = queue.take(count as int);
    crate::laws::read_ignores_the_echo(link.select_page(Page::Page0).1, addr, bytes_of(sent));
    assert forall|i: int| 0 <= i < sent.len() implies is_sendable(#[trigger] sent[i]) by {
        assert(sent[i] == queue[i]);
    }
    lemma_samples_read_back(sent);
}

/// Whether the next burst of a drain reads the samples `sent`.
spec fn is_burst<E>(link: LinkView<E>, sent: Seq<FifoSample>, addr: u8, room: nat, burst: nat) -> bool {
    let count = burst_len(room, burst);
    &&& sent.len() == count
    &&& link.read_register(Page::Page0, addr, 3 * count).0 matches Ok(data) && samples_in(data, count) == sent
}

/// A drain ends with the burst that holds a terminator.
proof fn lemma_drain_ends<E>(link: LinkView<E>, sent: Seq<FifoSample>, addr: u8, room: nat, burst: nat)
    requires
        room > 0,
        burst > 0,
        is_burst(link, sent, addr, room, burst),
        is_terminated(up_to_terminator(sent)),
    ensures
        link.drain(addr, room, burst).0 == Ok::<Seq<FifoSample>, Error<E>>(up_to_terminator(sent)),
{
}

/// A drain goes on behind a burst without a terminator.
proof fn lemma_drain_goes_on<E>(link: LinkView<E>, sent: Seq<FifoSample>, addr: u8, room: nat, burst: nat)
    requires
        room > 0,
        burst > 0,
        is_burst(link, sent, addr, room, burst),
        !is_terminated(up_to_terminator(sent)),
    ensures
        ({
            let count = burst_len(room, burst);
            link.drain(addr, room, burst) == prepend(
                up_to_terminator(sent),
                link.read_register(Page::Page0, addr, 3 * count).1.drain(addr, (room - count) as nat, burst),
            )
        }),
{
}

proof fn lemma_samples_read_back(samples: Seq<FifoSample>)
    requires
        forall|i: int| 0 <= i < samples.len() ==> is_sendable(#[trigger] samples[i]),
    ensures
        samples_in(bytes_of(samples), samples.len()) == samples,
{
    let data = bytes_of(samples);
    assert forall|i: int| 0 <= i < samples.len() implies sample_at(data, i) == samples[i] by {
        let raw = samples[i].raw as int;
        assert(is_sendable(samples[i]));
        assert(crate::bytes::fits_signed(raw, 2)) by {
            reveal_with_fuel(crate::bytes::span, 3);
        }
        crate::bytes::signed_round_trip(raw, 2);
        assert((3 * i) / 3 == i && (3 * i + 1) / 3 == i && (3 * i + 2) / 3 == i);
        assert((3 * i) % 3 == 0 && (3 * i + 1) % 3 == 1 && (3 * i + 2) % 3 == 2);
        assert(data.subrange(3 * i, 3 * i + 2) =~= crate::bytes::encoded(raw, 2));
    }
    assert(samples_in(data, samples.len()) =~= samples);
}

/// Cutting behind the terminator of two parts is cutting the first part if it has one.
proof fn lemma_up_to_terminator_of_two(first: Seq<FifoSample>, second: Seq<FifoSample>)
    ensures
        up_to_terminator(first + second) == (if is_terminated(up_to_terminator(first)) {
            up_to_terminator(first)
        } else {
            first + up_to_terminator(second)
        }),
    decreases second.len(),
{
    lemma_up_to_terminator(first);
    if second.len() == 0 {
        assert(first + second =~= first);
    } else {
        let front = second.drop_last();
        assert((first + second).drop_last() =~= first + front);
        lemma_up_to_terminator_of_two(first, front);
        lemma_up_to_terminator(front);
        if !is_terminated(up_to_terminator(first)) {
            if front.len() == 0 {
                assert(first + up_to_terminator(front) =~= first);
            }
            assert(up_to_terminator(front).len() > 0 ==> (first + up_to_terminator(front)).last() == up_to_terminator(
                front,
            ).last());
            if up_to_terminator(front).len() == 0 {
                assert(first + up_to_terminator(front) =~= first);
            }
        }
    }
}

/// Each byte stands for one tag: 0x00, 0x55 and 0xAA for the three that the device sends, every
/// other byte for an unknown tag of that byte.
pub proof fn bytes_are_tags(byte: u8)
    ensures
        byte == 0x00 <==> tag_of(byte) == FifoTag::Valid,
        byte == 0x55 <==> tag_of(byte) == FifoTag::ReadOverrun,
        byte == 0xAA <==> tag_of(byte) == FifoTag::WriteOverrun,
        byte != 0x00 && byte != 0x55 && byte != 0xAA ==> tag_of(byte) == FifoTag::Unknown(byte),
        tag_byte(tag_of(byte)) == byte,
{
}

/// Two bytes that stand for the same tag are the same byte.
pub proof fn tags_are_told_apart(first: u8, second: u8)
    requires
        tag_of(first) == tag_of(second),
    ensures
        first == second,
{
}

/// A device can send every sample with a known tag, and one with an unknown tag exactly if its
/// byte is none of the known ones.
pub proof fn known_tags_are_sendable(sample: FifoSample)
    ensures
        is_sendable(sample) <==> (sample.tag matches FifoTag::Unknown(byte) ==> byte != 0x00 && byte != 0x55 && byte
            != 0xAA),
{
}

/// The samples of a burst keep their place, their two's-complement reading, the high byte first,
/// and their tag.
pub proof fn samples_are_where_they_were_sent(data: Seq<u8>, count: nat, i: int)
    requires
        data.len() == 3 * count,
        0 <= i < count,
    ensures
        samples_in(data, count).len() == count,
        ({
            let sample = samples_in(data, count)[i];
            let word = data[3 * i] * 0x100 + data[3 * i + 1];
            &&& sample.raw == (if word < 0x8000 {
                word
            } else {
                word - 0x1_0000
            })
            &&& sample.tag == tag_of(data[3 * i + 2])
        }),
{
    reveal_with_fuel(crate::bytes::span, 3);
    reveal_with_fuel(crate::bytes::unsigned, 3);
    let bytes = data.subrange(3 * i, 3 * i + 2);
    assert(bytes.drop_last().drop_last() =~= Seq::empty());
    assert(bytes.drop_last().last() == data[3 * i]);
    assert(bytes.last() == data[3 * i + 1]);
}

/// Cutting behind the first sample that is not `Valid` takes the samples from the front: all of
/// them if every one is `Valid`, and otherwise up to and including that first one.
pub proof fn cut_ends_at_the_first_terminator(samples: Seq<FifoSample>, i: int)
    requires
        0 <= i < samples.len(),
        forall|j: int| 0 <= j < i ==> (#[trigger] samples[j]).tag == FifoTag::Valid,
    ensures
        samples[i].tag != FifoTag::Valid ==> up_to_terminator(samples) == samples.take(i + 1),
        samples[i].tag == FifoTag::Valid && i == samples.len() - 1 ==> up_to_terminator(samples) == samples,
    decreases samples.len(),
{
    let front = samples.drop_last();
    if i < samples.len() - 1 {
        assert forall|j: int| 0 <= j < i implies (#[trigger] front[j]).tag == FifoTag::Valid by {
            assert(front[j] == samples[j]);
        }
        cut_ends_at_the_first_terminator(front, i);
        assert(front.take(i + 1) =~= samples.take(i + 1));
        assert(samples.take(i + 1).last() == samples[i]);
    } else {
        assert(samples.take(i + 1) =~= samples);
        if i > 0 {
            assert forall|j: int| 0 <= j < i - 1 implies (#[trigger] front[j]).tag == FifoTag::Valid by {
                assert(front[j] == samples[j]);
            }
            assert(front[i - 1] == samples[i - 1]);
            cut_ends_at_the_first_terminator(front, i - 1);
            assert(front.last() == samples[i - 1]);
        }
        assert(up_to_terminator(front) == front);
    }
}

/// A drain with room for samples starts by reading as many as there is room for, but no more than
/// one burst carries, three bytes for each.
pub proof fn drain_starts_with_a_burst<E>(link: LinkView<E>, addr: u8, room: nat, burst: nat)
    requires
        room > 0,
        burst > 0,
        link.page == Some(Page::Page0),
    ensures
        ({
            let read = link.dcmd_read(
                addr,
                if room <= burst {
                    3 * room
                } else {
                    3 * burst
                },
            );
            let outcome = link.drain(addr, room, burst);
            &&& read.0 is Err ==> outcome.0 is Err && outcome.1 == read.1
            &&& read.0 is Ok && outcome.0 is Ok ==> outcome.0->Ok_0.len() > 0
            &&& link.drain(addr, 0, burst) == (Ok::<Seq<FifoSample>, Error<E>>(Seq::empty()), link)
        }),
{
    let count = burst_len(room, burst);
    if let Ok(data) = link.dcmd_read(addr, 3 * count).0 {
        lemma_up_to_terminator(samples_in(data, count));
    }
}

} // verus!
