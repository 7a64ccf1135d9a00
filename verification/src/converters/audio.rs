//! Audio conversion: validating WAV sources and deciding how each source
//! reaches its target format.

use vstd::prelude::*;
use crate::config::TargetConfig;
use crate::converters::texture::{stem_or, stem_or_default};
use crate::error::RiftError;
use crate::paths::{extension_or_empty, file_name, join, spec_extension_or_empty, spec_file_name, spec_join};
use crate::text::{all_ascii, ascii_lower_char, chars_of, concat2, concat3, decimal_string, is_digit, lemma_decimal_digits, parse_u32, seq_ends_with, spec_decimal, spec_parse_u32, spec_to_lowercase, spec_trim, spec_trim_end, spec_trim_end_char, spec_trim_end_seq, spec_trim_start, str_eq, string_from_chars, to_lowercase, trim_chars, trim_end_char, trim_end_seq, unsigned_digits};

verus! {

/// The Vorbis quality level for a bitrate in kbit/s: 64k maps to 2,
/// 96k to 3, 128k to 4, 160k to 5, 192k to 6, 256k to 7, 320k to 8;
/// above 320k the level is 6.
pub open spec fn quality_for_kbps(n: nat) -> u32 {
    if n <= 48 {
        1
    } else if n <= 72 {
        2
    } else if n <= 96 {
        3
    } else if n <= 128 {
        4
    } else if n <= 160 {
        5
    } else if n <= 192 {
        6
    } else if n <= 256 {
        7
    } else if n <= 320 {
        8
    } else {
        6
    }
}

/// Up to 320k, a higher bitrate never gets a lower quality level, and
/// every level is from 1 to 8.
pub proof fn law_quality_follows_bitrate(a: nat, b: nat)
    requires
        a <= b <= 320,
    ensures
        quality_for_kbps(a) <= quality_for_kbps(b),
        1 <= quality_for_kbps(a) <= 8,
{
}

/// The number a bitrate text gives: trimmed and lowercased, with trailing
/// `k`s and then trailing `bps`s removed, parsed as a `u32`; 128 when it does
/// not parse.
pub open spec fn spec_bitrate_kbps(bitrate: Seq<char>) -> u32 {
    let t = spec_to_lowercase(spec_trim(bitrate));
    match spec_parse_u32(spec_trim_end_seq(spec_trim_end_char(t, 'k'), "bps"@)) {
        Some(n) => n,
        None => 128,
    }
}

/// A bitrate written as a decimal number and `k` reads back as that number.
proof fn lemma_text_bitrate(bitrate: Seq<char>, n: u32, trimmed: Seq<char>, lower: Seq<char>)
    requires
        bitrate == spec_decimal(n as nat) + seq!['k'],
        trimmed == spec_trim(bitrate),
        all_ascii(trimmed) ==> lower == trimmed.map_values(|c: char| ascii_lower_char(c)),
    ensures
        spec_parse_u32(spec_trim_end_seq(spec_trim_end_char(lower, 'k'), "bps"@)) == Some(n),
{
    let d = spec_decimal(n as nat);
    lemma_decimal_digits(n as nat);
    assert(bitrate.last() == 'k');
    assert(bitrate[0] == d[0]);
    assert(is_digit(d[0]));
    assert(spec_trim_start(bitrate) == bitrate);
    assert(spec_trim_end(bitrate) == bitrate);
    assert forall|i: int| 0 <= i < bitrate.len() implies (bitrate[i] as u32) < 128 && ascii_lower_char(#[trigger] bitrate[i]) == bitrate[i] by {
        if i < d.len() {
            assert(bitrate[i] == d[i]);
            assert(is_digit(d[i]));
        }
    }
    assert(lower =~= bitrate);
    assert(bitrate.drop_last() =~= d);
    assert(d.last() != 'k') by {
        assert(is_digit(d[d.len() - 1]));
    }
    assert(spec_trim_end_char(d, 'k') == d);
    assert(lower.drop_last() == d);
    assert(spec_trim_end_char(lower, 'k') == d);
    reveal_strlit("bps");
    if seq_ends_with(d, "bps"@) {
        assert(d.subrange(d.len() - 3, d.len() as int)[2] == d[d.len() - 1]);
        assert(is_digit(d[d.len() - 1]));
        assert(false);
    }
    assert(spec_trim_end_seq(d, "bps"@) == d);
    assert(is_digit(d[0]));
    assert(unsigned_digits(d) == d);
}

/// The Vorbis quality level for a bitrate text such as "128k".
pub open spec fn spec_vorbis_quality(bitrate: Seq<char>) -> u32 {
    quality_for_kbps(spec_bitrate_kbps(bitrate) as nat)
}

/// Maps a bitrate string like "128k" to a Vorbis quality level (a whole
/// number from 1 to 8).
pub fn bitrate_to_vorbis_quality(bitrate: &str) -> (res: u32)
    ensures
        res == spec_vorbis_quality(bitrate@),
        1 <= res <= 8,
        forall|n: u32| bitrate@ == #[trigger] spec_decimal(n as nat) + seq!['k'] ==> res == quality_for_kbps(
            n as nat,
        ),
{
    let bc = chars_of(bitrate);
    let trimmed = trim_chars(bc.as_slice());
    let ts = string_from_chars(trimmed.as_slice());
    let lower = to_lowercase(ts.as_str());
    let lc = chars_of(lower.as_str());
    let no_k = trim_end_char(lc.as_slice(), 'k');
    let bps = chars_of("bps");
    let digits = trim_end_seq(no_k.as_slice(), bps.as_slice());
    let numeric: u32 = match parse_u32(digits.as_slice()) {
        Some(n) => n,
        None => 128,
    };
    proof {
        assert forall|n: u32| bitrate@ == #[trigger] spec_decimal(n as nat) + seq!['k'] implies numeric == n by {
            lemma_text_bitrate(bitrate@, n, ts@, lower@);
        }
    }
    if numeric <= 48 {
        1
    } else if numeric <= 72 {
        2
    } else if numeric <= 96 {
        3
    } else if numeric <= 128 {
        4
    } else if numeric <= 160 {
        5
    } else if numeric <= 192 {
        6
    } else if numeric <= 256 {
        7
    } else if numeric <= 320 {
        8
    } else {
        6
    }
}

/// The outcome of checking a WAV file, given its size in bytes and what the
/// WAV reader made of its header: (channels, sample rate), or the reader's
/// error message.
pub open spec fn spec_validate_wav(path: Seq<char>, size: u64, header: Result<(u16, u32), String>) -> Result<(), Seq<char>> {
    if size < 44 {
        Err("WAV file too small ("@ + spec_decimal(size as nat) + " bytes) \u{2014} not a valid WAV: "@ + path)
    } else {
        match header {
            Err(m) => Err("Cannot parse WAV: "@ + m@),
            Ok((channels, rate)) => if channels == 0 || channels > 8 {
                Err("Unsupported channel count ("@ + spec_decimal(channels as nat) + "): "@ + path)
            } else if !(4000 <= rate <= 384000) {
                Err("Unsupported sample rate ("@ + spec_decimal(rate as nat) + " Hz): "@ + path)
            } else {
                Ok(())
            },
        }
    }
}

/// A conversion error carries exactly the given message.
pub open spec fn is_conversion_error(e: RiftError, msg: Seq<char>) -> bool {
    e matches RiftError::Conversion(m) && m@ == msg
}

/// Checks a WAV file: at least 44 bytes, a readable header, 1 to 8
/// channels and a sample rate from 4000 to 384000 Hz.
pub fn validate_wav(path: &str, size: u64, header: &Result<(u16, u32), String>) -> (res: Result<
    (),
    RiftError,
>)
    ensures
        match (res, spec_validate_wav(path@, size, *header)) {
            (Ok(()), Ok(())) => true,
            (Err(e), Err(msg)) => is_conversion_error(e, msg),
            _ => false,
        },
{
    if size < 44 {
        let mut m = concat2("WAV file too small (", decimal_string(size).as_str());
        m.append(" bytes) \u{2014} not a valid WAV: ");
        m.append(path);
        return Err(RiftError::Conversion(m));
    }
    match header {
        Err(msg) => Err(RiftError::Conversion(concat2("Cannot parse WAV: ", msg.as_str()))),
        Ok((channels, rate)) => {
            let channels = *channels;
            let rate = *rate;
            if channels == 0 || channels > 8 {
                let mut m = concat2("Unsupported channel count (", decimal_string(channels as u64).as_str());
                m.append("): ");
                m.append(path);
                Err(RiftError::Conversion(m))
            } else if !(4000 <= rate && rate <= 384000) {
                let mut m = concat2("Unsupported sample rate (", decimal_string(rate as u64).as_str());
                m.append(" Hz): ");
                m.append(path);
                Err(RiftError::Conversion(m))
            } else {
                Ok(())
            }
        },
    }
}

/// What is done to produce the target's audio file.
#[derive(Debug, Clone, Copy, PartialEq, Eq)]
pub enum AudioAction {
    /// Encode the WAV source to Ogg Vorbis at this quality level.
    Encode { quality: u32 },
    /// Check the source as a WAV file, then copy it.
    ValidateAndCopy,
    /// Copy the source as it is.
    Copy,
}

/// How an audio source reaches a target.
#[derive(Debug, Clone)]
pub enum AudioPlan {
    /// The source is already in the target format: first check it as a WAV
    /// file when `validate_source`, then copy it under its own name.
    CopyAsIs { validate_source: bool, output_path: String },
    /// Convert: first check the source as a WAV file when `validate_source`,
    /// then produce `output_path` by `action`.
    Convert { validate_source: bool, output_path: String, action: AudioAction },
}

/// The lowercased extension of an audio source.
pub open spec fn audio_ext(source: Seq<char>) -> Seq<char> {
    spec_to_lowercase(spec_extension_or_empty(source))
}

/// The plan is the one for `source` and `target`.
pub open spec fn is_audio_plan(plan: AudioPlan, source: Seq<char>, target: TargetConfig) -> bool {
    let fmt = target.audio.format@;
    let ext = audio_ext(source);
    if ext == fmt {
        plan matches AudioPlan::CopyAsIs { validate_source, output_path } && validate_source == (ext
            == "wav"@) && output_path@ == spec_join(
            target.project@,
            spec_file_name(source)->0,
        )
    } else {
        plan matches AudioPlan::Convert { validate_source, output_path, action } && validate_source
            == (ext == "wav"@) && output_path@ == spec_join(
            target.project@,
            stem_or(source, "audio"@) + "."@ + fmt,
        ) && action == (if fmt == "ogg"@ {
            if ext == "wav"@ {
                AudioAction::Encode { quality: spec_vorbis_quality(target.audio.bitrate@) }
            } else {
                AudioAction::Copy
            }
        } else if fmt == "wav"@ {
            AudioAction::ValidateAndCopy
        } else {
            AudioAction::Copy
        })
    }
}

/// Whether a source is already in the target's audio format (its
/// lowercased extension is the format), so that it is copied as it is.
pub fn copies_as_is(source: &str, target: &TargetConfig) -> (res: bool)
    ensures
        res == (audio_ext(source@) == target.audio.format@),
{
    let raw = extension_or_empty(source);
    let ext = to_lowercase(raw.as_str());
    str_eq(ext.as_str(), target.audio.format.as_str())
}

/// How the audio source at `source` reaches `target`: a WAV source is
/// always checked first; the source is copied as is when it
/// is already in the target format, otherwise encoded (WAV to Ogg), checked
/// and copied (to WAV), or copied under the target format's name.
pub fn plan_conversion(source: &str, target: &TargetConfig) -> (res: AudioPlan)
    requires
        audio_ext(source@) == target.audio.format@ ==> spec_file_name(source@) is Some,
    ensures
        is_audio_plan(res, source@, *target),
{
    let fmt = target.audio.format.as_str();
    let raw = extension_or_empty(source);
    let ext = to_lowercase(raw.as_str());
    if str_eq(ext.as_str(), fmt) {
        let name = match file_name(source) {
            Some(n) => n,
            None => {
                proof {
                    assert(false);
                }
                String::new()
            },
        };
        return AudioPlan::CopyAsIs {
            validate_source: str_eq(ext.as_str(), "wav"),
            output_path: join(target.project.as_str(), name.as_str()),
        };
    }
    let is_wav = str_eq(ext.as_str(), "wav");
    let stem = stem_or_default(source, "audio");
    let out_name = concat3(stem.as_str(), ".", fmt);
    let output_path = join(target.project.as_str(), out_name.as_str());
    let action = if str_eq(fmt, "ogg") {
        if is_wav {
            AudioAction::Encode { quality: bitrate_to_vorbis_quality(target.audio.bitrate.as_str()) }
        } else {
            AudioAction::Copy
        }
    } else if str_eq(fmt, "wav") {
        AudioAction::ValidateAndCopy
    } else {
        AudioAction::Copy
    };
    AudioPlan::Convert { validate_source: is_wav, output_path, action }
}

/// How an audio source reaches its target, by its lowercased extension and
/// the target's format: a source already in the target format is copied
/// under its own name; otherwise a WAV source is encoded to Ogg Vorbis at
/// the bitrate's quality for an `ogg` target, a `wav` target gets a checked
/// copy, and any other pair a plain copy, named `<stem>.<format>`. A WAV
/// source is always checked first, whichever way it goes.
pub proof fn law_audio_plan(plan: AudioPlan, source: Seq<char>, target: TargetConfig)
    requires
        is_audio_plan(plan, source, target),
    ensures
        ({
            let ext = spec_to_lowercase(spec_extension_or_empty(source));
            let fmt = target.audio.format@;
            let named = spec_join(target.project@, stem_or(source, "audio"@) + "."@ + fmt);
            &&& ext == "wav"@ ==> (match plan {
                AudioPlan::CopyAsIs { validate_source, .. } => validate_source,
                AudioPlan::Convert { validate_source, .. } => validate_source,
            })
            &&& ext != "wav"@ ==> (match plan {
                AudioPlan::CopyAsIs { validate_source, .. } => !validate_source,
                AudioPlan::Convert { validate_source, .. } => !validate_source,
            })
            &&& ext == fmt ==> (plan matches AudioPlan::CopyAsIs { output_path, .. } && output_path@
                == spec_join(target.project@, spec_file_name(source)->0))
            &&& (ext != fmt && ext == "wav"@ && fmt == "ogg"@) ==> (plan matches AudioPlan::Convert {
                output_path,
                action,
                ..
            } && output_path@ == named && action == (AudioAction::Encode {
                quality: quality_for_kbps(spec_bitrate_kbps(target.audio.bitrate@) as nat),
            }))
            &&& (ext != fmt && fmt == "wav"@) ==> (plan matches AudioPlan::Convert { output_path, action, .. }
                && output_path@ == named && action == AudioAction::ValidateAndCopy)
            &&& (ext != fmt && !(ext == "wav"@ && fmt == "ogg"@) && fmt != "wav"@) ==> (plan matches AudioPlan::Convert {
                output_path,
                action,
                ..
            } && output_path@ == named && action == AudioAction::Copy)
        }),
{
    reveal_strlit("wav");
    reveal_strlit("ogg");
    assert("wav"@[0] != "ogg"@[0]);
}

/// The Vorbis quality for a bitrate in kbit/s, as documented: up to 48k
/// level 1, up to 72k (64k) level 2, up to 96k level 3, up to 128k level
/// 4, up to 160k level 5, up to 192k level 6, up to 256k level 7, up to
/// 320k level 8, and above 320k level 6.
pub proof fn law_quality_table(n: nat)
    ensures
        n <= 48 ==> quality_for_kbps(n) == 1,
        48 < n <= 72 ==> quality_for_kbps(n) == 2,
        72 < n <= 96 ==> quality_for_kbps(n) == 3,
        96 < n <= 128 ==> quality_for_kbps(n) == 4,
        128 < n <= 160 ==> quality_for_kbps(n) == 5,
        160 < n <= 192 ==> quality_for_kbps(n) == 6,
        192 < n <= 256 ==> quality_for_kbps(n) == 7,
        256 < n <= 320 ==> quality_for_kbps(n) == 8,
        320 < n ==> quality_for_kbps(n) == 6,
{
}

/// The WAV check: a file under 44 bytes is refused as too small; a larger
/// file is accepted exactly when its header was read and has 1 to 8
/// channels and a sample rate from 4000 to 384000 Hz.
pub proof fn law_wav_check(path: Seq<char>, size: u64, header: Result<(u16, u32), String>)
    ensures
        size < 44 ==> spec_validate_wav(path, size, header) is Err,
        size >= 44 ==> (spec_validate_wav(path, size, header) is Ok <==> (header matches Ok((channels, rate))
            && 1 <= channels <= 8 && 4000 <= rate <= 384000)),
{
}

} // verus!
