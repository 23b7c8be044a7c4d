//! Decoder dispatch: the format is chosen by file extension, each format's
//! decoder runs on the file's bytes, and every sample width is scaled to
//! one canonical model, 32-bit full-scale integers. A 16-bit sample is
//! multiplied by 2^16, a 24-bit one by 2^8 and an 8-bit one by 2^24, so
//! that dividing by 2^31 gives the amplitude: the divisors 2^7, 2^15, 2^23
//! and 2^31 of each width.
use vstd::prelude::*;

use crate::text::same_text;

verus! {

/// Decoded audio in the canonical model: interleaved samples in 32-bit
/// fixed point, where `s / 2^31` is the amplitude in [-1, 1).
#[derive(Debug, Clone, PartialEq)]
pub struct DecodedFile {
    pub channels: u32,
    pub rate: u32,
    pub data: Vec<i32>,
}

/// Why a track could not be decoded.
#[derive(Debug, Clone, Copy, PartialEq, Eq)]
pub enum DecodeError {
    /// The file extension names no supported format.
    UnsupportedFormat,
    /// The decoder rejected the stream.
    InvalidStream,
    /// Integer samples of a width other than 8, 16, 24 or 32 bits.
    UnsupportedBitDepth(u32),
    /// A sample lies outside the range of its declared width.
    SampleOutOfRange,
    /// The stream declares no channel or a zero sample rate.
    MissingStreamParameters,
    /// Two frames of one stream disagree on the sample rate.
    InconsistentSampleRate,
    /// Two frames of one stream disagree on the channel count.
    InconsistentChannelCount,
}

/// Whether integer samples of this width are supported.
pub open spec fn supported_depth(bits: u32) -> bool {
    bits == 8 || bits == 16 || bits == 24 || bits == 32
}

/// Whether `s` is a sample of the given width.
pub open spec fn sample_fits(s: int, bits: u32) -> bool {
    if bits == 8 {
        -0x80 <= s < 0x80
    } else if bits == 16 {
        -0x8000 <= s < 0x8000
    } else if bits == 24 {
        -0x80_0000 <= s < 0x80_0000
    } else {
        i32::MIN <= s <= i32::MAX
    }
}

/// A sample of the given width scaled to 32-bit full scale.
pub open spec fn canonical(s: int, bits: u32) -> int {
    if bits == 8 {
        s * 0x100_0000
    } else if bits == 16 {
        s * 0x1_0000
    } else if bits == 24 {
        s * 0x100
    } else {
        s
    }
}

/// Every sample of a supported width lands in the canonical range, that is
/// at an amplitude in [-1, 1).
pub proof fn lemma_canonical_in_range(s: int, bits: u32)
    requires
        supported_depth(bits),
        sample_fits(s, bits),
    ensures
        -0x8000_0000 <= canonical(s, bits) < 0x8000_0000,
{
}

fn i8_to_canonical(s: i32) -> (r: i32)
    requires
        sample_fits(s as int, 8),
    ensures
        r == canonical(s as int, 8),
{
    s * 0x100_0000
}

fn i16_in_i32_to_canonical(s: i32) -> (r: i32)
    requires
        sample_fits(s as int, 16),
    ensures
        r == canonical(s as int, 16),
{
    s * 0x1_0000
}

fn i24_to_canonical(s: i32) -> (r: i32)
    requires
        sample_fits(s as int, 24),
    ensures
        r == canonical(s as int, 24),
{
    s * 0x100
}

/// Whether every sample of `s` fits the width.
pub open spec fn all_fit(s: Seq<i32>, bits: u32) -> bool {
    forall|i: int| 0 <= i < s.len() ==> sample_fits(#[trigger] s[i] as int, bits)
}

pub open spec fn canonical_seq(s: Seq<i32>, bits: u32) -> Seq<i32> {
    s.map_values(|x: i32| canonical(x as int, bits) as i32)
}

/// What a decode yields: channel count, sample rate and canonical samples.
pub type Pcm = (u32, u32, Seq<i32>);

/// What an integer stream with these parameters decodes to.
pub open spec fn int_stream_spec(channels: u32, rate: u32, bits: u32, samples: Seq<i32>) -> Result<Pcm, DecodeError> {
    if !supported_depth(bits) {
        Err(DecodeError::UnsupportedBitDepth(bits))
    } else if channels == 0 || rate == 0 {
        Err(DecodeError::MissingStreamParameters)
    } else if !all_fit(samples, bits) {
        Err(DecodeError::SampleOutOfRange)
    } else {
        Ok((channels, rate, canonical_seq(samples, bits)))
    }
}

/// `r` is the decoded file, or the error, that `s` describes.
pub open spec fn decoded_as(r: Result<DecodedFile, DecodeError>, s: Result<Pcm, DecodeError>) -> bool {
    match (r, s) {
        (Ok(d), Ok((c, rt, pcm))) => d.channels == c && d.rate == rt && d.data@ == pcm,
        (Err(a), Err(b)) => a == b,
        _ => false,
    }
}

/// Checks the parameters of an integer PCM stream and scales its samples to
/// the canonical model by a factor chosen by the sample width.
pub fn normalize_int_stream(channels: u32, rate: u32, bits: u32, samples: &Vec<i32>) -> (r: Result<DecodedFile, DecodeError>)
    ensures
        decoded_as(r, int_stream_spec(channels, rate, bits, samples@)),
{
    if !(bits == 8 || bits == 16 || bits == 24 || bits == 32) {
        return Err(DecodeError::UnsupportedBitDepth(bits));
    }
    if channels == 0 || rate == 0 {
        return Err(DecodeError::MissingStreamParameters);
    }
    let mut data: Vec<i32> = Vec::new();
    let mut i: usize = 0;
    while i < samples.len()
        invariant
            supported_depth(bits),
            channels != 0 && rate != 0,
            i <= samples@.len(),
            data@ == canonical_seq(samples@.take(i as int), bits),
            all_fit(samples@.take(i as int), bits),
        decreases samples@.len() - i,
    {
        let s = samples[i];
        let fits = if bits == 8 {
            -0x80 <= s && s < 0x80
        } else if bits == 16 {
            -0x8000 <= s && s < 0x8000
        } else if bits == 24 {
            -0x80_0000 <= s && s < 0x80_0000
        } else {
            true
        };
        if !fits {
            assert(!sample_fits(samples@[i as int] as int, bits));
            assert(!all_fit(samples@, bits));
            return Err(DecodeError::SampleOutOfRange);
        }
        let c = if bits == 8 {
            i8_to_canonical(s)
        } else if bits == 16 {
            i16_in_i32_to_canonical(s)
        } else if bits == 24 {
            i24_to_canonical(s)
        } else {
            s
        };
        data.push(c);
        proof {
            assert(samples@.take(i + 1) == samples@.take(i as int).push(s));
            assert(canonical_seq(samples@.take(i + 1), bits) == canonical_seq(samples@.take(i as int), bits).push(c));
        }
        i += 1;
    }
    assert(samples@.take(i as int) == samples@);
    Ok(DecodedFile { channels, rate, data })
}

/// One MPEG audio frame: its parameters and its interleaved 16-bit samples.
pub struct Mp3Frame {
    pub rate: u32,
    pub channels: u32,
    pub samples: Vec<i16>,
}

/// A frame of an MPEG stream as plain values: rate, channels and samples of
/// an audio frame, none for anything else (tags, garbage).
pub type FrameView = Option<(u32, u32, Seq<i16>)>;

pub open spec fn frame_view(f: Option<Mp3Frame>) -> FrameView {
    match f {
        Some(f) => Some((f.rate, f.channels, f.samples@)),
        None => None,
    }
}

pub open spec fn frames_view(s: Seq<Option<Mp3Frame>>) -> Seq<FrameView> {
    s.map_values(|f: Option<Mp3Frame>| frame_view(f))
}

/// The sample rate and channel count that a frame sequence settles on, or
/// the first disagreement between an audio frame and those before it. Zero
/// stands for "not yet known"; frames that are not audio are passed over.
pub open spec fn mp3_params(frames: Seq<FrameView>) -> Result<(u32, u32), DecodeError>
    decreases frames.len(),
{
    if frames.len() == 0 {
        Ok((0u32, 0u32))
    } else {
        match mp3_params(frames.drop_last()) {
            Err(e) => Err(e),
            Ok((rate, ch)) => match frames.last() {
                None => Ok((rate, ch)),
                Some((f_rate, f_ch, _)) => if rate != f_rate && rate != 0 {
                    Err(DecodeError::InconsistentSampleRate)
                } else if ch != f_ch && ch != 0 {
                    Err(DecodeError::InconsistentChannelCount)
                } else {
                    Ok((f_rate, f_ch))
                },
            },
        }
    }
}

pub open spec fn widen16(s: Seq<i16>) -> Seq<i32> {
    s.map_values(|x: i16| canonical(x as int, 16) as i32)
}

/// The canonical samples of all audio frames, in order.
pub open spec fn mp3_pcm(frames: Seq<FrameView>) -> Seq<i32>
    decreases frames.len(),
{
    if frames.len() == 0 {
        Seq::empty()
    } else {
        mp3_pcm(frames.drop_last()) + match frames.last() {
            Some((_, _, s)) => widen16(s),
            None => Seq::empty(),
        }
    }
}

/// What a sequence of MPEG frames decodes to.
pub open spec fn mp3_spec(frames: Seq<FrameView>) -> Result<Pcm, DecodeError> {
    match mp3_params(frames) {
        Err(e) => Err(e),
        Ok((rate, ch)) => if rate == 0 || ch == 0 {
            Err(DecodeError::MissingStreamParameters)
        } else {
            Ok((ch, rate, mp3_pcm(frames)))
        },
    }
}

/// Joins the audio frames of an MPEG stream into one buffer; every audio
/// frame must agree with the others on the sample rate and the channel count.
pub fn mp3_frames_to_decoded(frames: &Vec<Option<Mp3Frame>>) -> (r: Result<DecodedFile, DecodeError>)
    ensures
        decoded_as(r, mp3_spec(frames_view(frames@))),
{
    let ghost fv = frames_view(frames@);
    let mut rate: u32 = 0;
    let mut ch: u32 = 0;
    let mut data: Vec<i32> = Vec::new();
    let mut k: usize = 0;
    while k < frames.len()
        invariant
            k <= frames@.len(),
            fv == frames_view(frames@),
            mp3_params(fv.take(k as int)) == Ok::<(u32, u32), DecodeError>((rate, ch)),
            data@ == mp3_pcm(fv.take(k as int)),
        decreases frames@.len() - k,
    {
        proof {
            assert(fv.take(k + 1).drop_last() == fv.take(k as int));
            assert(fv.take(k + 1).last() == frame_view(frames@[k as int]));
        }
        match &frames[k] {
            None => {},
            Some(f) => {
                if rate != f.rate && rate != 0 {
                    proof {
                        lemma_mp3_error_sticks(fv, k + 1);
                    }
                    return Err(DecodeError::InconsistentSampleRate);
                }
                if ch != f.channels && ch != 0 {
                    proof {
                        lemma_mp3_error_sticks(fv, k + 1);
                    }
                    return Err(DecodeError::InconsistentChannelCount);
                }
                rate = f.rate;
                ch = f.channels;
                let mut j: usize = 0;
                let ghost base = data@;
                while j < f.samples.len()
                    invariant
                        j <= f.samples@.len(),
                        data@ == base + widen16(f.samples@.take(j as int)),
                    decreases f.samples@.len() - j,
                {
                    let s = f.samples[j];
                    data.push(i16_in_i32_to_canonical(s as i32));
                    proof {
                        assert(f.samples@.take(j + 1) == f.samples@.take(j as int).push(s));
                        assert(widen16(f.samples@.take(j + 1)) == widen16(f.samples@.take(j as int)).push(
                            canonical(s as int, 16) as i32,
                        ));
                    }
                    j += 1;
                }
                proof {
                    assert(f.samples@.take(j as int) == f.samples@);
                }
            },
        }
        proof {
            assert(data@ =~= mp3_pcm(fv.take(k + 1)));
        }
        k += 1;
    }
    assert(fv.take(k as int) == fv);
    if rate == 0 || ch == 0 {
        return Err(DecodeError::MissingStreamParameters);
    }
    Ok(DecodedFile { channels: ch, rate, data })
}

/// An error on a prefix of the frames is the error of the whole sequence.
proof fn lemma_mp3_error_sticks(frames: Seq<FrameView>, n: int)
    requires
        0 <= n <= frames.len(),
        mp3_params(frames.take(n)) is Err,
    ensures
        mp3_params(frames) == mp3_params(frames.take(n)),
    decreases frames.len() - n,
{
    if n < frames.len() {
        assert(frames.take(n + 1).drop_last() == frames.take(n));
        lemma_mp3_error_sticks(frames, n + 1);
    } else {
        assert(frames.take(n) == frames);
    }
}

/// Integer PCM as a decoder hands it out, with the declared sample width.
pub struct IntStream {
    pub channels: u32,
    pub rate: u32,
    pub bits: u32,
    pub samples: Vec<i32>,
}

/// PCM already scaled to 32-bit full scale by the decoder.
pub struct FullScaleStream {
    pub channels: u32,
    pub rate: u32,
    pub samples: Vec<i32>,
}

/// The format part of a WAV header.
pub struct WavHeader {
    pub channels: u32,
    pub rate: u32,
    pub bits: u32,
    pub float: bool,
}

/// What claxon reads from a FLAC stream: channels, rate, sample width and
/// samples; none when it reports an error.
pub uninterp spec fn flac_stream(bytes: Seq<u8>) -> Option<(u32, u32, u32, Seq<i32>)>;

/// What hound reads from a WAV header: channels, rate, sample width and
/// whether the samples are floating point; none when it rejects the header.
pub uninterp spec fn wav_header(bytes: Seq<u8>) -> Option<(u32, u32, u32, bool)>;

/// The integer samples hound reads from a WAV stream; none on an error.
pub uninterp spec fn wav_int_samples(bytes: Seq<u8>) -> Option<Seq<i32>>;

/// What audrey reads from a stream, scaled to 32-bit full scale: channels,
/// rate and samples; none on an error.
pub uninterp spec fn full_scale_stream(bytes: Seq<u8>) -> Option<(u32, u32, Seq<i32>)>;

/// The frames rmp3 finds in an MPEG stream, in order.
pub uninterp spec fn mp3_frames_of(bytes: Seq<u8>) -> Seq<FrameView>;

/// Relies on claxon's `FlacReader`: the stream info and every sample of a
/// FLAC stream held in memory; `None` when claxon reports an error.
#[verifier::external_body]
fn read_flac(bytes: &[u8]) -> (r: Option<IntStream>)
    ensures
        match r {
            Some(s) => flac_stream(bytes@) == Some((s.channels, s.rate, s.bits, s.samples@)),
            None => flac_stream(bytes@) is None,
        },
{
    let mut reader = claxon::FlacReader::new(std::io::Cursor::new(bytes)).ok()?;
    let info = reader.streaminfo();
    let samples = reader.samples().collect::<Result<Vec<i32>, claxon::Error>>().ok()?;
    Some(IntStream { channels: info.channels, rate: info.sample_rate, bits: info.bits_per_sample, samples })
}

/// Relies on hound's `WavReader::new` and `WavReader::spec`: the format
/// declared by the header of a WAV stream held in memory; `None` when hound
/// rejects the header.
#[verifier::external_body]
fn read_wav_header(bytes: &[u8]) -> (r: Option<WavHeader>)
    ensures
        match r {
            Some(h) => wav_header(bytes@) == Some((h.channels, h.rate, h.bits, h.float)),
            None => wav_header(bytes@) is None,
        },
{
    let reader = hound::WavReader::new(std::io::Cursor::new(bytes)).ok()?;
    let spec = reader.spec();
    let float = match spec.sample_format {
        hound::SampleFormat::Float => true,
        hound::SampleFormat::Int => false,
    };
    Some(WavHeader { channels: spec.channels as u32, rate: spec.sample_rate, bits: spec.bits_per_sample as u32, float })
}

/// Relies on hound's `WavReader::samples`: every integer sample of a WAV
/// stream held in memory; `None` when hound reports an error.
#[verifier::external_body]
fn read_wav_int_samples(bytes: &[u8]) -> (r: Option<Vec<i32>>)
    ensures
        match r {
            Some(s) => wav_int_samples(bytes@) == Some(s@),
            None => wav_int_samples(bytes@) is None,
        },
{
    let mut reader = hound::WavReader::new(std::io::Cursor::new(bytes)).ok()?;
    reader.samples::<i32>().collect::<Result<Vec<i32>, hound::Error>>().ok()
}

/// Relies on audrey's `Reader`: decodes an Ogg Vorbis or a WAV stream held in
/// memory, with every sample converted to 32-bit full scale by audrey's
/// sample conversion; `None` when audrey reports an error.
#[verifier::external_body]
fn read_full_scale(bytes: &[u8]) -> (r: Option<FullScaleStream>)
    ensures
        match r {
            Some(s) => full_scale_stream(bytes@) == Some((s.channels, s.rate, s.samples@)),
            None => full_scale_stream(bytes@) is None,
        },
{
    let mut reader = audrey::Reader::new(std::io::Cursor::new(bytes)).ok()?;
    let desc = reader.description();
    let samples = reader.samples::<i32>().collect::<Result<Vec<i32>, audrey::read::FormatError>>().ok()?;
    Some(FullScaleStream { channels: desc.channel_count(), rate: desc.sample_rate(), samples })
}

/// Relies on rmp3's `Decoder`: every frame of an MPEG stream held in memory,
/// in order, an audio frame with its parameters and samples.
#[verifier::external_body]
fn read_mp3_frames(bytes: &[u8]) -> (r: Vec<Option<Mp3Frame>>)
    ensures
        frames_view(r@) == mp3_frames_of(bytes@),
{
    let mut decoder = rmp3::Decoder::new(bytes);
    let mut frames = Vec::new();
    loop {
        match decoder.next() {
            Some(rmp3::Frame::Audio(a)) => frames.push(Some(Mp3Frame {
                rate: a.sample_rate(),
                channels: a.channels() as u32,
                samples: a.samples().to_vec(),
            })),
            Some(rmp3::Frame::Other(_)) => frames.push(None),
            None => return frames,
        }
    }
}

/// What a FLAC file decodes to.
pub open spec fn flac_decode_spec(bytes: Seq<u8>) -> Result<Pcm, DecodeError> {
    match flac_stream(bytes) {
        Some((c, rt, b, s)) => int_stream_spec(c, rt, b, s),
        None => Err(DecodeError::InvalidStream),
    }
}

/// What a file decodes to through audrey, already at full scale.
pub open spec fn full_scale_decode_spec(bytes: Seq<u8>) -> Result<Pcm, DecodeError> {
    match full_scale_stream(bytes) {
        Some((c, rt, s)) => int_stream_spec(c, rt, 32, s),
        None => Err(DecodeError::InvalidStream),
    }
}

/// What a WAV file decodes to: integer samples through hound, floating-point
/// ones through audrey.
pub open spec fn wav_decode_spec(bytes: Seq<u8>) -> Result<Pcm, DecodeError> {
    match wav_header(bytes) {
        None => Err(DecodeError::InvalidStream),
        Some((c, rt, b, float)) => if float {
            full_scale_decode_spec(bytes)
        } else {
            match wav_int_samples(bytes) {
                Some(s) => int_stream_spec(c, rt, b, s),
                None => Err(DecodeError::InvalidStream),
            }
        },
    }
}

fn handle_claxon(bytes: &[u8]) -> (r: Result<DecodedFile, DecodeError>)
    ensures
        decoded_as(r, flac_decode_spec(bytes@)),
{
    match read_flac(bytes) {
        Some(stream) => normalize_int_stream(stream.channels, stream.rate, stream.bits, &stream.samples),
        None => Err(DecodeError::InvalidStream),
    }
}

fn handle_audrey(bytes: &[u8]) -> (r: Result<DecodedFile, DecodeError>)
    ensures
        decoded_as(r, full_scale_decode_spec(bytes@)),
{
    match read_full_scale(bytes) {
        Some(stream) => normalize_int_stream(stream.channels, stream.rate, 32, &stream.samples),
        None => Err(DecodeError::InvalidStream),
    }
}

fn handle_hound(bytes: &[u8]) -> (r: Result<DecodedFile, DecodeError>)
    ensures
        decoded_as(r, wav_decode_spec(bytes@)),
{
    match read_wav_header(bytes) {
        Some(header) => {
            if header.float {
                handle_audrey(bytes)
            } else {
                match read_wav_int_samples(bytes) {
                    Some(samples) => normalize_int_stream(header.channels, header.rate, header.bits, &samples),
                    None => Err(DecodeError::InvalidStream),
                }
            }
        },
        None => Err(DecodeError::InvalidStream),
    }
}

fn handle_minimp3(bytes: &[u8]) -> (r: Result<DecodedFile, DecodeError>)
    ensures
        decoded_as(r, mp3_spec(mp3_frames_of(bytes@))),
{
    let frames = read_mp3_frames(bytes);
    mp3_frames_to_decoded(&frames)
}

/// The supported audio formats.
#[derive(Debug, Clone, Copy, PartialEq, Eq)]
pub enum AudioFormat {
    Wav,
    Flac,
    Ogg,
    Mp3,
}

/// What a file of a given format decodes to.
pub open spec fn decode_spec(format: AudioFormat, bytes: Seq<u8>) -> Result<Pcm, DecodeError> {
    match format {
        AudioFormat::Ogg => full_scale_decode_spec(bytes),
        AudioFormat::Wav => wav_decode_spec(bytes),
        AudioFormat::Flac => flac_decode_spec(bytes),
        AudioFormat::Mp3 => mp3_spec(mp3_frames_of(bytes)),
    }
}

/// Decodes a whole file held in memory with the handler of its format.
/// Every success has at least one channel and a non-zero sample rate.
pub fn decode_audio(format: AudioFormat, bytes: &[u8]) -> (r: Result<DecodedFile, DecodeError>)
    ensures
        decoded_as(r, decode_spec(format, bytes@)),
        r matches Ok(d) ==> d.channels >= 1 && d.rate >= 1,
{
    let r = match format {
        AudioFormat::Ogg => handle_audrey(bytes),
        AudioFormat::Wav => handle_hound(bytes),
        AudioFormat::Flac => handle_claxon(bytes),
        AudioFormat::Mp3 => handle_minimp3(bytes),
    };
    r
}

/// The format that a lower-case extension names.
pub open spec fn format_spec(ext: Seq<char>) -> Option<AudioFormat> {
    if ext == "ogg"@ {
        Some(AudioFormat::Ogg)
    } else if ext == "wav"@ {
        Some(AudioFormat::Wav)
    } else if ext == "flac"@ {
        Some(AudioFormat::Flac)
    } else if ext == "mp3"@ {
        Some(AudioFormat::Mp3)
    } else {
        None
    }
}

pub fn format_for_extension(lowered: &str) -> (r: Option<AudioFormat>)
    ensures
        r == format_spec(lowered@),
{
    if same_text(lowered, "ogg") {
        Some(AudioFormat::Ogg)
    } else if same_text(lowered, "wav") {
        Some(AudioFormat::Wav)
    } else if same_text(lowered, "flac") {
        Some(AudioFormat::Flac)
    } else if same_text(lowered, "mp3") {
        Some(AudioFormat::Mp3)
    } else {
        None
    }
}

/// The position of the last `c` in `s`, or -1.
pub open spec fn last_index_of(s: Seq<char>, c: char) -> int
    decreases s.len(),
{
    if s.len() == 0 {
        -1
    } else if s.last() == c {
        s.len() - 1
    } else {
        last_index_of(s.drop_last(), c)
    }
}

/// The extension of a path: what follows the last dot of its file name,
/// when that dot is not the file name's first character.
pub open spec fn extension_spec(path: Seq<char>) -> Option<Seq<char>> {
    let slash = last_index_of(path, '/');
    let dot = last_index_of(path, '.');
    if dot > slash + 1 {
        Some(path.subrange(dot + 1, path.len() as int))
    } else {
        None
    }
}

pub fn extension_of(path: &str) -> (r: Option<&str>)
    ensures
        match (r, extension_spec(path@)) {
            (Some(e), Some(x)) => e@ == x,
            (None, None) => true,
            _ => false,
        },
{
    let n = path.unicode_len();
    // positions one past the last slash and the last dot seen; zero for none
    let mut after_slash: usize = 0;
    let mut after_dot: usize = 0;
    let mut i: usize = 0;
    while i < n
        invariant
            n == path@.len(),
            i <= n,
            after_slash == last_index_of(path@.take(i as int), '/') + 1,
            after_dot == last_index_of(path@.take(i as int), '.') + 1,
            after_slash <= i,
            after_dot <= i,
        decreases n - i,
    {
        let c = path.get_char(i);
        proof {
            assert(path@.take(i + 1).drop_last() == path@.take(i as int));
            assert(path@.take(i + 1).last() == c);
        }
        if c == '/' {
            after_slash = i + 1;
        }
        if c == '.' {
            after_dot = i + 1;
        }
        i += 1;
    }
    assert(path@.take(n as int) == path@);
    if after_dot > after_slash && after_dot - after_slash > 1 {
        Some(path.substring_char(after_dot, n))
    } else {
        None
    }
}

pub uninterp spec fn lower_of(s: Seq<char>) -> Seq<char>;

/// Relies on `str::to_lowercase`: the result depends on the characters alone.
#[verifier::external_body]
fn lowercase(s: &str) -> (r: String)
    ensures
        r@ == lower_of(s@),
{
    s.to_lowercase()
}

/// The format of a file, chosen by its lower-cased extension.
pub open spec fn audio_format_spec(path: Seq<char>) -> Result<AudioFormat, DecodeError> {
    match extension_spec(path) {
        Some(e) => match format_spec(lower_of(e)) {
            Some(f) => Ok(f),
            None => Err(DecodeError::UnsupportedFormat),
        },
        None => Err(DecodeError::UnsupportedFormat),
    }
}

pub fn audio_format(path: &str) -> (r: Result<AudioFormat, DecodeError>)
    ensures
        r == audio_format_spec(path@),
{
    match extension_of(path) {
        Some(ext) => {
            let lowered = lowercase(ext);
            match format_for_extension(lowered.as_str()) {
                Some(f) => Ok(f),
                None => Err(DecodeError::UnsupportedFormat),
            }
        },
        None => Err(DecodeError::UnsupportedFormat),
    }
}

} // verus!
