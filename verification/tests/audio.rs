use audio2mqtt::audio::{
    downmix, mono, pcm_s16le_samples, teamspeak_sample_groups, MixedSample, PcmStream,
};

fn mixed(sum: i32, count: usize) -> MixedSample {
    MixedSample { sum, count }
}

#[test]
fn pcm_is_read_low_byte_first() {
    let bytes = [0x00, 0x00, 0x01, 0x00, 0xff, 0x7f, 0x00, 0x80, 0xff, 0xff, 0x34, 0x12];
    assert_eq!(pcm_s16le_samples(&bytes), vec![0, 1, 32767, -32768, -1, 0x1234]);
}

#[test]
fn pcm_reading_agrees_with_std_on_every_sample() {
    let mut bytes: Vec<u8> = Vec::new();
    let mut expected: Vec<i16> = Vec::new();
    for s in i16::MIN..=i16::MAX {
        bytes.extend_from_slice(&s.to_le_bytes());
        expected.push(s);
    }
    assert_eq!(pcm_s16le_samples(&bytes), expected);
}

#[test]
fn half_a_sample_is_none() {
    assert_eq!(pcm_s16le_samples(&[0x02, 0x00, 0x05]), vec![2]);
    assert_eq!(pcm_s16le_samples(&[0x02]), Vec::<i16>::new());
    assert_eq!(pcm_s16le_samples(&[]), Vec::<i16>::new());
}

#[test]
fn a_stream_holds_the_first_byte_of_a_sample() {
    let mut stream = PcmStream::new();
    assert_eq!(stream.push(&[0x34]), Vec::<i16>::new());
    assert_eq!(stream.push(&[]), Vec::<i16>::new());
    assert_eq!(stream.push(&[0x12]), vec![0x1234]);
    assert_eq!(stream.push(&[0x01, 0x00, 0xff]), vec![1]);
    assert_eq!(stream.push(&[0xff, 0x00, 0x80]), vec![-1, -32768]);
    assert_eq!(stream.push(&[0x02, 0x00]), vec![2]);
}

#[test]
fn a_stream_gives_the_same_samples_however_it_is_cut() {
    let bytes: Vec<u8> = (0..1001u32).map(|i| (i * 37 % 251) as u8).collect();
    let expected: Vec<i16> =
        bytes.chunks_exact(2).map(|pair| i16::from_le_bytes([pair[0], pair[1]])).collect();
    assert_eq!(pcm_s16le_samples(&bytes), expected);
    for size in [1, 2, 3, 5, 64, 333, 1001] {
        let mut stream = PcmStream::new();
        let mut samples: Vec<i16> = Vec::new();
        for piece in bytes.chunks(size) {
            samples.extend(stream.push(piece));
        }
        assert_eq!(samples, expected, "{size}");
    }
}

#[test]
fn channels_are_mixed_group_by_group() {
    let raw = vec![1, 2, -3, -4, 32767, 32767];
    assert_eq!(downmix(&raw, 2), vec![mixed(3, 2), mixed(-7, 2), mixed(65534, 2)]);
    assert_eq!(downmix(&raw, 3), vec![mixed(0, 3), mixed(65530, 3)]);
}

#[test]
fn the_last_group_may_be_short() {
    assert_eq!(downmix(&vec![5, 6, 7], 2), vec![mixed(11, 2), mixed(7, 1)]);
}

#[test]
fn one_channel_stays_as_it_is() {
    let raw = vec![-5, 0, 9];
    assert_eq!(mono(&raw), vec![mixed(-5, 1), mixed(0, 1), mixed(9, 1)]);
    assert_eq!(downmix(&raw, 1), mono(&raw));
}

#[test]
fn many_channels_do_not_overflow() {
    let raw = vec![i16::MIN; 65535];
    assert_eq!(downmix(&raw, 65535), vec![mixed(-32768 * 65535, 65535)]);
}

#[test]
fn teamspeak_samples_are_grouped_by_three() {
    assert_eq!(
        teamspeak_sample_groups(&[1.0f32, 2.0, 3.0, 4.0, 5.0, 6.0, 7.0]),
        vec![(1.0, 2.0, 3.0), (4.0, 5.0, 6.0)]
    );
    assert_eq!(teamspeak_sample_groups(&[1, 2]), Vec::<(i32, i32, i32)>::new());
}
