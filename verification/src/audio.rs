//! Audio samples: raw PCM, whole or as a stream, and the mixing of channels.

use vstd::prelude::*;

verus! {

// ---------------------------------------------------------------------------
// Raw PCM
// ---------------------------------------------------------------------------

/// The 16-bit sample with the given low and high byte.
pub open spec fn sample_of(low: u8, high: u8) -> i16 {
    if high < 128 {
        (low + 256 * high) as i16
    } else {
        (low + 256 * high - 65536) as i16
    }
}

/// The samples in raw little-endian PCM; a last byte without its pair is left
/// out.
pub open spec fn pcm_samples(bytes: Seq<u8>) -> Seq<i16> {
    Seq::new(bytes.len() / 2, |i: int| sample_of(bytes[2 * i], bytes[2 * i + 1]))
}

/// Reads raw little-endian PCM; a last byte without its pair is left out.
pub fn pcm_s16le_samples(bytes: &[u8]) -> (r: Vec<i16>)
    ensures
        r@ == pcm_samples(bytes@),
{
    let len: usize = bytes.len();
    let n: usize = len / 2;
    let mut out: Vec<i16> = Vec::new();
    for i in 0..n
        invariant
            len == bytes@.len(),
            n == len / 2,
            out@.len() == i,
            forall|j: int| 0 <= j < i ==> #[trigger] out@[j] == pcm_samples(bytes@)[j],
    {
        let value: i32 = bytes[2 * i] as i32 + 256 * (bytes[2 * i + 1] as i32);
        out.push(if value < 32768 { value as i16 } else { (value - 65536) as i16 });
    }
    out
}

/// The low byte of a sample.
pub open spec fn low_byte(s: i16) -> u8 {
    (s as int % 256) as u8
}

/// The high byte of a sample.
pub open spec fn high_byte(s: i16) -> u8 {
    (if s >= 0 {
        s as int / 256
    } else {
        (s + 65536) / 256
    }) as u8
}

/// The raw little-endian PCM of the samples.
pub open spec fn pcm_bytes(samples: Seq<i16>) -> Seq<u8> {
    Seq::new(
        2 * samples.len(),
        |i: int|
            if i % 2 == 0 {
                low_byte(samples[i / 2])
            } else {
                high_byte(samples[i / 2])
            },
    )
}

/// Reading the raw PCM of samples gives the samples back.
pub proof fn pcm_reads_back(samples: Seq<i16>)
    ensures
        pcm_samples(pcm_bytes(samples)) == samples,
{
    assert forall|i: int| 0 <= i < samples.len() implies pcm_samples(pcm_bytes(samples))[i]
        == samples[i] by {
        let s = samples[i];
        assert((2 * i) % 2 == 0 && (2 * i) / 2 == i && (2 * i + 1) / 2 == i);
        assert(pcm_bytes(samples)[2 * i] == low_byte(s));
        assert(pcm_bytes(samples)[2 * i + 1] == high_byte(s));
        if s >= 0 {
            assert(s == 256 * (s as int / 256) + s as int % 256);
        } else {
            assert((s + 65536) == 256 * ((s + 65536) / 256) + (s + 65536) % 256);
            assert((s + 65536) % 256 == s as int % 256);
        }
    }
    assert(pcm_samples(pcm_bytes(samples)) =~= samples);
}

// ---------------------------------------------------------------------------
// A stream of raw PCM
// ---------------------------------------------------------------------------

/// The last byte of raw PCM where it lacks its pair.
pub open spec fn unpaired(bytes: Seq<u8>) -> Seq<u8> {
    bytes.skip(2 * (bytes.len() as int / 2))
}

/// A stream of raw little-endian PCM that comes in pieces of any size. Where a
/// piece ends in the middle of a sample, the first byte of the sample is held
/// until the next piece.
#[derive(Debug)]
pub struct PcmStream {
    held: Option<u8>,
}

impl View for PcmStream {
    type V = Seq<u8>;

    /// The bytes that wait for the rest of their sample.
    closed spec fn view(&self) -> Seq<u8> {
        match self.held {
            Some(b) => seq![b],
            None => Seq::empty(),
        }
    }
}

impl PcmStream {
    /// A stream of which nothing has come in yet.
    pub fn new() -> (r: Self)
        ensures
            r@ == Seq::<u8>::empty(),
    {
        PcmStream { held: None }
    }

    /// Takes in the next piece of the stream: the samples that it completes come
    /// back, and a last byte without its pair is held.
    pub fn push(&mut self, bytes: &[u8]) -> (r: Vec<i16>)
        ensures
            r@ == pcm_samples(old(self)@ + bytes@),
            final(self)@ == unpaired(old(self)@ + bytes@),
    {
        let ghost before = self@;
        let mut all: Vec<u8> = Vec::new();
        if let Some(b) = self.held {
            all.push(b);
        }
        assert(all@ =~= before);
        let n: usize = bytes.len();
        for i in 0..n
            invariant
                n == bytes@.len(),
                all@ == before + bytes@.take(i as int),
        {
            all.push(bytes[i]);
            assert(bytes@.take(i + 1) =~= bytes@.take(i as int).push(bytes@[i as int]));
            assert(all@ =~= before + bytes@.take(i + 1));
        }
        assert(bytes@.take(n as int) =~= bytes@);
        let len: usize = all.len();
        self.held = if len % 2 == 1 {
            Some(all[len - 1])
        } else {
            None
        };
        assert(self@ =~= unpaired(all@));
        pcm_s16le_samples(all.as_slice())
    }
}

/// Where a stream is cut does not matter: two pieces give the samples that they
/// give together, and leave the same byte waiting.
pub proof fn cuts_do_not_matter(held: Seq<u8>, a: Seq<u8>, b: Seq<u8>)
    ensures
        pcm_samples(held + a) + pcm_samples(unpaired(held + a) + b) == pcm_samples(held + (a + b)),
        unpaired(unpaired(held + a) + b) == unpaired(held + (a + b)),
{
    let first = held + a;
    let whole = held + (a + b);
    let n = first.len() as int / 2;
    assert(whole =~= first + b);
    assert(unpaired(first) + b =~= whole.skip(2 * n));
    assert forall|i: int| 0 <= i < pcm_samples(whole).len() implies (pcm_samples(first)
        + pcm_samples(whole.skip(2 * n)))[i] == pcm_samples(whole)[i] by {
        if i >= n {
            assert(whole.skip(2 * n)[2 * (i - n)] == whole[2 * i]);
            assert(whole.skip(2 * n)[2 * (i - n) + 1] == whole[2 * i + 1]);
        }
    }
    assert(pcm_samples(first) + pcm_samples(whole.skip(2 * n)) =~= pcm_samples(whole));
    assert(unpaired(whole.skip(2 * n)) =~= unpaired(whole));
}

/// The pieces of a stream one after the other.
pub open spec fn joined_pieces(pieces: Seq<Seq<u8>>) -> Seq<u8>
    decreases pieces.len(),
{
    if pieces.len() == 0 {
        Seq::empty()
    } else {
        pieces[0] + joined_pieces(pieces.drop_first())
    }
}

/// The samples that a stream gives for the pieces, where `held` waits.
pub open spec fn samples_of_pieces(held: Seq<u8>, pieces: Seq<Seq<u8>>) -> Seq<i16>
    decreases pieces.len(),
{
    if pieces.len() == 0 {
        Seq::empty()
    } else {
        pcm_samples(held + pieces[0]) + samples_of_pieces(
            unpaired(held + pieces[0]),
            pieces.drop_first(),
        )
    }
}

/// The byte that waits after the pieces, where `held` waits before them.
pub open spec fn held_after_pieces(held: Seq<u8>, pieces: Seq<Seq<u8>>) -> Seq<u8>
    decreases pieces.len(),
{
    if pieces.len() == 0 {
        held
    } else {
        held_after_pieces(unpaired(held + pieces[0]), pieces.drop_first())
    }
}

/// However a stream comes in, its samples are those of all its bytes together.
pub proof fn stream_is_read_whole(held: Seq<u8>, pieces: Seq<Seq<u8>>)
    requires
        held.len() <= 1,
    ensures
        samples_of_pieces(held, pieces) == pcm_samples(held + joined_pieces(pieces)),
        held_after_pieces(held, pieces) == unpaired(held + joined_pieces(pieces)),
    decreases pieces.len(),
{
    if pieces.len() == 0 {
        assert(samples_of_pieces(held, pieces) =~= pcm_samples(held + joined_pieces(pieces)));
        assert(held =~= unpaired(held + joined_pieces(pieces)));
    } else {
        let rest = pieces.drop_first();
        stream_is_read_whole(unpaired(held + pieces[0]), rest);
        cuts_do_not_matter(held, pieces[0], joined_pieces(rest));
    }
}

// ---------------------------------------------------------------------------
// Mixing channels
// ---------------------------------------------------------------------------

/// One sample mixed from `count` samples: their mean is `sum / count`.
#[derive(Clone, Copy, Debug, PartialEq, Eq, Structural)]
pub struct MixedSample {
    pub sum: i32,
    pub count: usize,
}

/// The sum of the samples.
pub open spec fn sum_of(samples: Seq<i16>) -> int
    decreases samples.len(),
{
    if samples.len() == 0 {
        0
    } else {
        sum_of(samples.drop_last()) + samples.last()
    }
}

/// The mix of the samples.
pub open spec fn mix_of(samples: Seq<i16>) -> MixedSample {
    MixedSample { sum: sum_of(samples) as i32, count: samples.len() as usize }
}

/// The samples of interleaved channels mixed to one channel, group by group;
/// the last group may be short.
pub open spec fn downmixed(raw: Seq<i16>, channels: nat) -> Seq<MixedSample>
    decreases raw.len(),
{
    if raw.len() == 0 || channels == 0 {
        Seq::empty()
    } else if raw.len() <= channels {
        seq![mix_of(raw)]
    } else {
        seq![mix_of(raw.take(channels as int))] + downmixed(raw.skip(channels as int), channels)
    }
}

proof fn lemma_sum_bounds(samples: Seq<i16>)
    ensures
        -32768 * samples.len() <= sum_of(samples) <= 32768 * samples.len(),
    decreases samples.len(),
{
    if samples.len() > 0 {
        lemma_sum_bounds(samples.drop_last());
    }
}

/// Mixes interleaved channels to one.
pub fn downmix(raw: &Vec<i16>, channels: u16) -> (r: Vec<MixedSample>)
    requires
        channels > 0,
    ensures
        r@ == downmixed(raw@, channels as nat),
{
    let len: usize = raw.len();
    let mut out: Vec<MixedSample> = Vec::new();
    let mut at: usize = 0;
    assert(raw@.skip(0) =~= raw@);
    assert(out@ + downmixed(raw@, channels as nat) =~= downmixed(raw@, channels as nat));
    while at < len
        invariant
            channels > 0,
            len == raw@.len(),
            at <= len,
            out@ + downmixed(raw@.skip(at as int), channels as nat) == downmixed(
                raw@,
                channels as nat,
            ),
        decreases len - at,
    {
        let count: usize = if len - at < channels as usize {
            len - at
        } else {
            channels as usize
        };
        let ghost group = raw@.skip(at as int).take(count as int);
        let mut sum: i32 = 0;
        for i in 0..count
            invariant
                at + count <= len,
                len == raw@.len(),
                count <= 65535,
                group == raw@.skip(at as int).take(count as int),
                sum == sum_of(group.take(i as int)),
        {
            proof {
                assert(group.take(i + 1).drop_last() =~= group.take(i as int));
                assert(group.take(i + 1).last() == raw@[at + i]);
                lemma_sum_bounds(group.take(i + 1));
            }
            sum = sum + raw[at + i] as i32;
        }
        let ghost rest = raw@.skip(at as int);
        proof {
            assert(group.take(count as int) =~= group);
            if rest.len() <= channels {
                assert(group =~= rest);
                assert(raw@.skip(at + count) =~= Seq::<i16>::empty());
            } else {
                assert(rest.skip(channels as int) =~= raw@.skip(at + count));
            }
        }
        let ghost before = out@;
        out.push(MixedSample { sum, count });
        proof {
            assert(out@ + downmixed(raw@.skip(at + count), channels as nat) =~= before + (seq![
                mix_of(group),
            ] + downmixed(raw@.skip(at + count), channels as nat)));
            if rest.len() <= channels {
                assert(seq![mix_of(group)] + downmixed(raw@.skip(at + count), channels as nat)
                    =~= seq![mix_of(group)]);
            }
        }
        at = at + count;
    }
    assert(raw@.skip(len as int) =~= Seq::<i16>::empty());
    assert(out@ + downmixed(raw@.skip(at as int), channels as nat) =~= out@);
    out
}

/// Each sample by itself, as of one channel.
pub open spec fn unmixed(raw: Seq<i16>) -> Seq<MixedSample> {
    raw.map_values(|s: i16| MixedSample { sum: s as i32, count: 1 })
}

/// Each sample by itself, as of one channel.
pub fn mono(raw: &Vec<i16>) -> (r: Vec<MixedSample>)
    ensures
        r@ == unmixed(raw@),
{
    let mut out: Vec<MixedSample> = Vec::new();
    for i in 0..raw.len()
        invariant
            out@.len() == i,
            forall|j: int| 0 <= j < i ==> #[trigger] out@[j] == unmixed(raw@)[j],
    {
        out.push(MixedSample { sum: raw[i] as i32, count: 1 });
    }
    out
}

/// Mixing one channel leaves each sample as it is.
pub proof fn one_channel_mixes_to_itself(raw: Seq<i16>)
    ensures
        downmixed(raw, 1) == unmixed(raw),
    decreases raw.len(),
{
    if raw.len() > 0 {
        reveal_with_fuel(sum_of, 2);
        if raw.len() > 1 {
            one_channel_mixes_to_itself(raw.skip(1));
            assert(raw.take(1).drop_last() =~= Seq::<i16>::empty());
            assert(raw.take(1).last() == raw[0]);
        } else {
            assert(raw.drop_last() =~= Seq::<i16>::empty());
        }
        assert(downmixed(raw, 1) =~= unmixed(raw));
    } else {
        assert(downmixed(raw, 1) =~= unmixed(raw));
    }
}

/// Mixing leaves one sample for each full group of channels.
pub proof fn downmix_keeps_the_duration(raw: Seq<i16>, channels: nat)
    requires
        channels > 0,
        raw.len() % channels == 0,
    ensures
        downmixed(raw, channels).len() == raw.len() / channels,
        forall|i: int|
            0 <= i < downmixed(raw, channels).len() ==> (#[trigger] downmixed(
                raw,
                channels,
            )[i]).count == channels as usize,
    decreases raw.len(),
{
    if raw.len() == 0 {
        assert(0nat / channels == 0) by (nonlinear_arith)
            requires
                channels > 0,
        ;
    } else {
        assert(raw.len() >= channels) by (nonlinear_arith)
            requires
                channels > 0,
                raw.len() > 0,
                raw.len() % channels == 0,
        ;
        if raw.len() == channels {
            assert(raw.len() / channels == 1) by (nonlinear_arith)
                requires
                    channels > 0,
                    raw.len() == channels,
            ;
        } else {
            let rest = raw.skip(channels as int);
            assert(rest.len() % channels == 0 && raw.len() / channels == rest.len() / channels + 1)
                by (nonlinear_arith)
                requires
                    channels > 0,
                    raw.len() % channels == 0,
                    raw.len() > channels,
                    rest.len() == raw.len() - channels,
            ;
            downmix_keeps_the_duration(rest, channels);
            assert forall|i: int| 0 <= i < downmixed(raw, channels).len() implies (
            #[trigger] downmixed(raw, channels)[i]).count == channels as usize by {
                if i > 0 {
                    assert(downmixed(raw, channels)[i] == downmixed(rest, channels)[i - 1]);
                }
            }
        }
    }
}

/// The full groups of three samples, in order.
pub open spec fn triples_of<T>(samples: Seq<T>) -> Seq<(T, T, T)> {
    Seq::new(
        samples.len() / 3,
        |i: int| (samples[3 * i], samples[3 * i + 1], samples[3 * i + 2]),
    )
}

/// The groups of three TeamSpeak samples that one sample for speech recognition
/// is made of; samples that do not fill a group are left out.
pub fn teamspeak_sample_groups<T: Copy>(samples: &[T]) -> (r: Vec<(T, T, T)>)
    ensures
        r@ == triples_of(samples@),
{
    let len: usize = samples.len();
    let n: usize = len / 3;
    let mut out: Vec<(T, T, T)> = Vec::new();
    for i in 0..n
        invariant
            len == samples@.len(),
            n == len / 3,
            out@.len() == i,
            forall|j: int| 0 <= j < i ==> #[trigger] out@[j] == triples_of(samples@)[j],
    {
        out.push((samples[3 * i], samples[3 * i + 1], samples[3 * i + 2]));
    }
    out
}

// ---------------------------------------------------------------------------
// What samples are made of
// ---------------------------------------------------------------------------

/// Each two bytes of raw PCM are one sample: the first byte and 256 times the
/// second, less 65536 where that is 32768 or more.
pub proof fn two_bytes_are_a_sample(bytes: Seq<u8>, i: int)
    requires
        0 <= 2 * i,
        2 * i + 1 < bytes.len(),
    ensures
        pcm_samples(bytes).len() == bytes.len() / 2,
        ({
            let value = bytes[2 * i] + 256 * bytes[2 * i + 1];
            pcm_samples(bytes)[i] == (if value < 32768 {
                value
            } else {
                value - 65536
            })
        }),
{
}

/// The sum of the `n` samples from `at` on.
pub open spec fn total(raw: Seq<i16>, at: int, n: nat) -> int
    decreases n,
{
    if n == 0 {
        0
    } else {
        total(raw, at, (n - 1) as nat) + raw[at + n - 1]
    }
}

proof fn lemma_sum_is_total(raw: Seq<i16>, at: int, n: nat)
    requires
        0 <= at,
        at + n <= raw.len(),
    ensures
        sum_of(raw.subrange(at, at + n)) == total(raw, at, n),
    decreases n,
{
    let group = raw.subrange(at, at + n);
    if n > 0 {
        assert(group.drop_last() =~= raw.subrange(at, at + n - 1));
        lemma_sum_is_total(raw, at, (n - 1) as nat);
    }
}

proof fn lemma_total_bounds(raw: Seq<i16>, at: int, n: nat)
    ensures
        -32768 * n <= total(raw, at, n) <= 32767 * n,
    decreases n,
{
    if n > 0 {
        lemma_total_bounds(raw, at, (n - 1) as nat);
    }
}

proof fn lemma_total_skip(raw: Seq<i16>, from: int, at: int, n: nat)
    requires
        0 <= from <= raw.len(),
        0 <= at,
        from + at + n <= raw.len(),
    ensures
        total(raw.skip(from), at, n) == total(raw, from + at, n),
    decreases n,
{
    if n > 0 {
        lemma_total_skip(raw, from, at, (n - 1) as nat);
    }
}

/// Mixing makes one sample of each full group of channels: the sum of all of
/// them, with their number.
pub proof fn mixed_sample_is_the_sum_of_all_channels(raw: Seq<i16>, channels: nat, i: int)
    requires
        0 < channels <= 65535,
        0 <= i,
        channels * i + channels <= raw.len(),
    ensures
        i < downmixed(raw, channels).len(),
        downmixed(raw, channels)[i].sum == total(raw, channels * i, channels),
        downmixed(raw, channels)[i].count == channels,
    decreases i,
{
    let first = raw.subrange(0, channels as int);
    assert(raw.take(channels as int) =~= first);
    if raw.len() == channels {
        assert(first =~= raw);
    }
    if i == 0 {
        assert(channels * i == 0) by (nonlinear_arith)
            requires
                i == 0,
        ;
        lemma_sum_is_total(raw, 0, channels);
        lemma_total_bounds(raw, 0, channels);
        assert(raw.len() >= channels);
    } else {
        assert(channels * i == channels * (i - 1) + channels) by (nonlinear_arith);
        assert(channels * (i - 1) >= 0) by (nonlinear_arith)
            requires
                i >= 1,
                channels > 0,
        ;
        let rest = raw.skip(channels as int);
        mixed_sample_is_the_sum_of_all_channels(rest, channels, i - 1);
        lemma_total_skip(raw, channels as int, channels * (i - 1), channels);
        assert(raw.len() > channels);
        assert(downmixed(raw, channels)[i] == downmixed(rest, channels)[i - 1]);
    }
}

/// Two channels are mixed to the sum of the left and the right sample, so that
/// it does not matter which is which.
pub proof fn stereo_is_mixed_to_left_and_right(raw: Seq<i16>, swapped: Seq<i16>, i: int)
    requires
        0 <= i,
        2 * i + 1 < raw.len(),
        swapped.len() == raw.len(),
        swapped[2 * i] == raw[2 * i + 1],
        swapped[2 * i + 1] == raw[2 * i],
    ensures
        downmixed(raw, 2)[i].sum == raw[2 * i] + raw[2 * i + 1],
        downmixed(raw, 2)[i].count == 2,
        downmixed(swapped, 2)[i] == downmixed(raw, 2)[i],
{
    mixed_sample_is_the_sum_of_all_channels(raw, 2, i);
    mixed_sample_is_the_sum_of_all_channels(swapped, 2, i);
    reveal_with_fuel(total, 3);
}

/// Samples of one channel are left as they are, each by itself.
pub proof fn one_channel_is_left_as_it_is(raw: Seq<i16>)
    ensures
        unmixed(raw).len() == raw.len(),
        forall|i: int|
            0 <= i < raw.len() ==> (#[trigger] unmixed(raw)[i]).sum == raw[i] && unmixed(
                raw,
            )[i].count == 1,
{
}

/// Each three TeamSpeak samples make one group, in order, and none is in two.
pub proof fn groups_hold_three_samples_each<T>(samples: Seq<T>, i: int)
    requires
        0 <= i,
        3 * i + 2 < samples.len(),
    ensures
        triples_of(samples).len() == samples.len() / 3,
        triples_of(samples)[i] == (samples[3 * i], samples[3 * i + 1], samples[3 * i + 2]),
{
}

} // verus!
