//! What the user interface asks for: the status snapshot, the update check
//! answer, and the custom sound files.

use vstd::prelude::*;
use base64::Engine;
use crate::config::StageType;
use crate::state::Status;
use crate::text::{decimal_pad2, push_decimal_pad2, str_equals};
use crate::version::{is_newer_version, version_newer};

verus! {

/// The answer to an update check.
pub struct UpdateCheckResponse {
    /// The installed version.
    pub current: String,
    /// The newest released version.
    pub latest: String,
    /// The page of the newest release.
    pub url: String,
    /// Whether the newest release is newer than the installed version.
    pub has_update: bool,
}

/// The status snapshot shown by the user interface.
pub struct StatusResponse {
    pub status: String,
    pub stage_index: usize,
    pub stage_type: String,
    pub remaining_seconds: u64,
    /// The seconds left as `MM:SS`.
    pub remaining_display: String,
}

/// A custom sound file.
pub struct SoundFileInfo {
    /// The name shown (the file name without extension).
    pub name: String,
    /// The file name.
    pub file: String,
    /// The full path.
    pub path: String,
}

/// An entry of the sound folder, as read from the disk.
pub struct DirEntryInfo {
    /// The file name (empty when it is not valid text).
    pub file_name: String,
    /// The file name without extension, when it has one.
    pub stem: Option<String>,
    /// The extension (empty when there is none).
    pub extension: String,
    /// The full path.
    pub path: String,
    /// Whether the entry is a regular file.
    pub is_file: bool,
}

/// Error text: the sound file to import does not exist.
pub const ERR_NO_SOURCE: &'static str = "源文件不存在";

/// Error text: the sound file to import is not in a supported format.
pub const ERR_BAD_FORMAT: &'static str = "不支持的音频格式，请选择 mp3/wav/aac/ogg/flac/m4a 文件";

/// The message returned when a configuration was saved.
pub const SAVED_CONFIG_MESSAGE: &'static str = "配置已保存，需重置计时或重启应用后生效（快捷键已即时更新）";

/// The version assumed when the application declares none.
pub const UNKNOWN_VERSION: &'static str = "0.0.0";

/// Seconds as `MM:SS`, each part zero-padded to two digits (minutes may take more).
pub open spec fn clock_text(secs: nat) -> Seq<char> {
    decimal_pad2(secs / 60) + ":"@ + decimal_pad2(secs % 60)
}

/// The name of a status in the user interface protocol.
pub open spec fn status_name(s: Status) -> Seq<char> {
    match s {
        Status::Running => "running"@,
        Status::Paused => "paused"@,
        Status::Resting => "resting"@,
    }
}

/// The name of a stage kind in the user interface protocol.
pub open spec fn stage_type_name(t: StageType) -> Seq<char> {
    match t {
        StageType::Work => "work"@,
        StageType::Rest => "rest"@,
    }
}

/// A version with every leading `v` removed.
pub open spec fn strip_v(s: Seq<char>) -> Seq<char>
    decreases s.len(),
{
    if s.len() > 0 && s[0] == 'v' {
        strip_v(s.drop_first())
    } else {
        s
    }
}

/// Whether a folder entry is listed as a sound: a regular file with a
/// supported audio extension.
pub open spec fn is_listed_sound(e: DirEntryInfo) -> bool {
    e.is_file && is_audio_extension(lowercase(e.extension@))
}

/// The (name, file, path) shown for a folder entry: its stem, or its file
/// name when it has no stem.
pub open spec fn entry_text(e: DirEntryInfo) -> (Seq<char>, Seq<char>, Seq<char>) {
    (
        match e.stem {
            Some(st) => st@,
            None => e.file_name@,
        },
        e.file_name@,
        e.path@,
    )
}

/// The (name, file, path) of a sound file entry.
pub open spec fn info_text(i: SoundFileInfo) -> (Seq<char>, Seq<char>, Seq<char>) {
    (i.name@, i.file@, i.path@)
}

/// The sounds listed for the folder entries, in their order.
pub open spec fn listed_sounds(es: Seq<DirEntryInfo>) -> Seq<(Seq<char>, Seq<char>, Seq<char>)>
    decreases es.len(),
{
    if es.len() == 0 {
        seq![]
    } else {
        let p = listed_sounds(es.drop_last());
        if is_listed_sound(es.last()) {
            p.push(entry_text(es.last()))
        } else {
            p
        }
    }
}

/// The audio file extensions accepted (compared in lower case).
pub open spec fn is_audio_extension(lower: Seq<char>) -> bool {
    ||| lower == "mp3"@
    ||| lower == "wav"@
    ||| lower == "aac"@
    ||| lower == "ogg"@
    ||| lower == "flac"@
    ||| lower == "m4a"@
}

/// The lower-case form of a text, as `str::to_lowercase` gives it (the
/// Unicode mapping takes tables to state, so it is only named here).
pub uninterp spec fn lowercase(s: Seq<char>) -> Seq<char>;

/// The character for a 6-bit value in the standard base64 alphabet.
pub open spec fn base64_char(v: int) -> char {
    if v < 26 {
        (65 + v) as char
    } else if v < 52 {
        (71 + v) as char
    } else if v < 62 {
        (v - 4) as char
    } else if v == 62 {
        '+'
    } else {
        '/'
    }
}

/// Standard base64 (RFC 4648 alphabet, `=` padding) of a byte sequence:
/// every 3 bytes become 4 characters, and a final group of 1 or 2 bytes is
/// padded to 4 characters with `=`.
pub open spec fn base64_standard(data: Seq<u8>) -> Seq<char>
    decreases data.len(),
{
    if data.len() == 0 {
        seq![]
    } else if data.len() == 1 {
        seq![base64_char((data[0] / 4) as int), base64_char((data[0] % 4) * 16), '=', '=']
    } else if data.len() == 2 {
        seq![
            base64_char((data[0] / 4) as int),
            base64_char((data[0] % 4) * 16 + data[1] / 16),
            base64_char((data[1] % 16) * 4),
            '=',
        ]
    } else {
        seq![
            base64_char((data[0] / 4) as int),
            base64_char((data[0] % 4) * 16 + data[1] / 16),
            base64_char((data[1] % 16) * 4 + data[2] / 64),
            base64_char((data[2] % 64) as int),
        ] + base64_standard(data.subrange(3, data.len() as int))
    }
}

/// Seconds as `MM:SS`.
pub fn fmt_display(secs: u64) -> (s: String)
    ensures
        s@ == clock_text(secs as nat),
{
    let mut s = String::new();
    push_decimal_pad2(&mut s, secs / 60);
    s.append(":");
    push_decimal_pad2(&mut s, secs % 60);
    s
}

/// The protocol name of a status.
pub fn status_str(s: Status) -> (r: &'static str)
    ensures
        r@ == status_name(s),
{
    match s {
        Status::Running => "running",
        Status::Paused => "paused",
        Status::Resting => "resting",
    }
}

/// The protocol name of a stage kind.
pub fn stage_type_str(t: StageType) -> (r: &'static str)
    ensures
        r@ == stage_type_name(t),
{
    match t {
        StageType::Work => "work",
        StageType::Rest => "rest",
    }
}

/// A version without its leading `v`s.
pub fn strip_version_prefix(s: &str) -> (r: String)
    ensures
        r@ == strip_v(s@),
{
    let n = s.unicode_len();
    let mut k: usize = 0;
    assert(s@.subrange(0, n as int) =~= s@);
    while k < n && s.get_char(k) == 'v'
        invariant
            n == s@.len(),
            k <= n,
            strip_v(s@) == strip_v(s@.subrange(k as int, n as int)),
        decreases n - k,
    {
        proof {
            assert(s@.subrange(k as int, n as int).drop_first() =~= s@.subrange(
                k + 1,
                n as int,
            ));
        }
        k = k + 1;
    }
    proof {
        assert(k < n ==> s@.subrange(k as int, n as int)[0] != 'v');
    }
    String::from_str(s.substring_char(k, n))
}

impl StatusResponse {
    /// The snapshot for a status, a stage index and kind, and the seconds left.
    pub fn from_snapshot(status: Status, stage_index: usize, stage_type: StageType, remaining: u64) -> (r: StatusResponse)
        ensures
            r.status@ == status_name(status),
            r.stage_index == stage_index,
            r.stage_type@ == stage_type_name(stage_type),
            r.remaining_seconds == remaining,
            r.remaining_display@ == clock_text(remaining as nat),
    {
        StatusResponse {
            status: String::from_str(status_str(status)),
            stage_index,
            stage_type: String::from_str(stage_type_str(stage_type)),
            remaining_seconds: remaining,
            remaining_display: fmt_display(remaining),
        }
    }
}

impl UpdateCheckResponse {
    /// The answer for the installed version (`0.0.0` when unknown) and the
    /// newest release's tag and page: both versions lose their leading `v`s,
    /// and an update is reported when the release is newer (`version_newer`).
    pub fn from_release(current_version: Option<String>, tag_name: &str, html_url: String) -> (r: UpdateCheckResponse)
        ensures
            r.current@ == strip_v(
                match current_version {
                    Some(v) => v@,
                    None => UNKNOWN_VERSION@,
                },
            ),
            r.latest@ == strip_v(tag_name@),
            r.url@ == html_url@,
            r.has_update == version_newer(r.latest@, r.current@),
    {
        let current = match current_version {
            Some(v) => v,
            None => String::from_str(UNKNOWN_VERSION),
        };
        let current_clean = strip_version_prefix(current.as_str());
        let latest_clean = strip_version_prefix(tag_name);
        let newer = is_newer_version(latest_clean.as_str(), current_clean.as_str());
        UpdateCheckResponse {
            current: current_clean,
            latest: latest_clean,
            url: html_url,
            has_update: newer,
        }
    }
}

impl SoundFileInfo {
    /// The entry for a sound file: shown under its stem, or under its file
    /// name when it has no stem.
    pub fn from_parts(stem: Option<String>, file: String, path: String) -> (r: SoundFileInfo)
        ensures
            r.name@ == (match stem {
                Some(s) => s@,
                None => file@,
            }),
            r.file@ == file@,
            r.path@ == path@,
    {
        let name = match stem {
            Some(s) => s,
            None => file.clone(),
        };
        SoundFileInfo { name, file, path }
    }
}

/// The lower-case form of a text. Trusted: calls `str::to_lowercase` (Unicode
/// `Lowercase` mapping, independent of locale); the contract only names the
/// result `lowercase(s@)`, a function of the text alone, and claims nothing
/// about which characters it holds.
#[verifier::external_body]
fn to_lowercase(s: &str) -> (r: String)
    ensures
        r@ == lowercase(s@),
{
    s.to_lowercase()
}

/// Whether a lower-case extension names a supported audio format.
pub fn is_audio_extension_lower(lower: &str) -> (r: bool)
    ensures
        r == is_audio_extension(lower@),
{
    str_equals(lower, "mp3") || str_equals(lower, "wav") || str_equals(lower, "aac")
        || str_equals(lower, "ogg") || str_equals(lower, "flac") || str_equals(lower, "m4a")
}

/// Whether a file extension (in any case) names a supported audio format.
pub fn is_supported_sound_extension(ext: &str) -> (r: bool)
    ensures
        r == is_audio_extension(lowercase(ext@)),
{
    let lower = to_lowercase(ext);
    is_audio_extension_lower(lower.as_str())
}

/// The sound files of a folder: the regular files with a supported audio
/// extension, in the order read.
pub fn list_sound_files(entries: &Vec<DirEntryInfo>) -> (r: Vec<SoundFileInfo>)
    ensures
        r@.map_values(|i: SoundFileInfo| info_text(i)) == listed_sounds(entries@),
{
    let mut r: Vec<SoundFileInfo> = Vec::new();
    let mut i: usize = 0;
    while i < entries.len()
        invariant
            i <= entries@.len(),
            r@.map_values(|x: SoundFileInfo| info_text(x)) == listed_sounds(
                entries@.subrange(0, i as int),
            ),
        decreases entries@.len() - i,
    {
        let e = &entries[i];
        proof {
            assert(entries@.subrange(0, i + 1).drop_last() =~= entries@.subrange(0, i as int));
            assert(entries@.subrange(0, i + 1).last() == *e);
        }
        let ghost before = r@;
        if e.is_file && is_supported_sound_extension(e.extension.as_str()) {
            let stem = match &e.stem {
                Some(st) => Some(st.clone()),
                None => None,
            };
            let info = SoundFileInfo::from_parts(stem, e.file_name.clone(), e.path.clone());
            r.push(info);
            proof {
                assert(r@.map_values(|x: SoundFileInfo| info_text(x)) =~= before.map_values(
                    |x: SoundFileInfo| info_text(x),
                ).push(info_text(info)));
            }
        }
        i = i + 1;
    }
    proof {
        assert(entries@.subrange(0, entries@.len() as int) =~= entries@);
    }
    r
}

/// Whether a sound file can be imported: the error text when the source is
/// missing or not in a supported format (checked in that order), `None` otherwise.
pub fn sound_source_error(exists: bool, extension: &str) -> (r: Option<&'static str>)
    ensures
        r is None <==> exists && is_audio_extension(lowercase(extension@)),
        r matches Some(e) ==> e@ == (if !exists {
            ERR_NO_SOURCE@
        } else {
            ERR_BAD_FORMAT@
        }),
{
    if !exists {
        return Some(ERR_NO_SOURCE);
    }
    if !is_supported_sound_extension(extension) {
        return Some(ERR_BAD_FORMAT);
    }
    None
}

/// Standard base64 of bytes. Trusted: calls `Engine::encode` of the base64
/// crate's `general_purpose::STANDARD` engine (RFC 4648 standard alphabet,
/// with `=` padding); the contract claims the result is `base64_standard` of
/// the bytes. The crate panics when the encoded length overflows `usize`,
/// which the `requires` rules out.
#[verifier::external_body]
fn base64_encode(data: &[u8]) -> (r: String)
    requires
        data@.len() / 3 * 4 + 4 <= usize::MAX,
    ensures
        r@ == base64_standard(data@),
{
    base64::engine::general_purpose::STANDARD.encode(data)
}

/// The contents of a sound file as the user interface receives them: standard base64.
pub fn encode_sound_data(data: &[u8]) -> (r: String)
    requires
        data@.len() / 3 * 4 + 4 <= usize::MAX,
    ensures
        r@ == base64_standard(data@),
{
    base64_encode(data)
}

} // verus!
