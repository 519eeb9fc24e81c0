//! The music downloader's helper program: which release to install,
//! whether an update is due, and what its runs are called with.
use vstd::prelude::*;
use crate::downloader::push_arg;
use crate::text::{
    ascii_lower, chars_of, contains, ends_with, has_digit, next_char, next_in_class, parse_u64,
    push_decimal, push_str, replace_char, same_chars, slice_chars, spec_ascii_lower, spec_contains,
    spec_decimal, spec_ends_with, spec_has_digit, spec_next_char, spec_next_in_class,
    spec_parse_u64, spec_replace_char, spec_strip, spec_strip_start, spec_trim, string_of, strip,
    strip_start, texts, trim, CharClass,
};

verus! {

/// A request to download from the music service.
#[derive(Debug, Clone)]
pub struct SpotifyDownloadRequest {
    pub id: String,
    pub url: String,
    pub output_path: String,
    /// `mp3`, `m4a`, `flac`, `opus`, `ogg` or `wav`.
    pub audio_format: String,
    /// `128k`, `192k` or `320k`.
    pub audio_quality: String,
    pub embed_lyrics: bool,
    pub threads: Option<i32>,
}

/// What is known of a track, album, playlist or artist.
#[derive(Debug, Clone)]
pub struct SpotifyMediaInfo {
    pub title: String,
    pub artist: Option<String>,
    pub album: Option<String>,
    pub duration: Option<i64>,
    pub thumbnail: Option<String>,
    pub platform: String,
    pub track_count: Option<i32>,
    /// `track`, `album`, `playlist`, `artist` or `unknown`.
    pub content_type: String,
    pub url: String,
}

/// The helper program as it is installed.
#[derive(Debug, Clone)]
pub struct SpotDlInfo {
    pub version: String,
    pub path: String,
    pub is_available: bool,
    pub latest_version: Option<String>,
    pub update_available: bool,
}

/// One file of a published release.
#[derive(Debug, Clone)]
pub struct GithubAsset {
    pub name: String,
    pub browser_download_url: String,
}

/// A published release.
#[derive(Debug, Clone)]
pub struct GithubRelease {
    pub tag_name: String,
    pub assets: Vec<GithubAsset>,
}

/// The operating system that the helper program is to run on.
#[derive(Debug, Clone, Copy, PartialEq, Eq, Structural)]
pub enum Platform {
    Windows,
    MacOs,
    Linux,
    Other,
}

/// Where the helper programs are.
#[derive(Debug, Clone)]
pub struct SpotifyDownloader {
    pub spotdl_path: String,
    pub ffmpeg_path: Option<String>,
}

/// Ways in which the name of a release file can fit a platform.
#[derive(Debug, Clone, Copy, PartialEq, Eq, Structural)]
pub enum AssetRule {
    /// The name holds `win` and ends with `.exe`, whatever its case.
    WindowsBuild,
    /// The name is `spotdl.exe`, whatever its case.
    PlainExe,
    /// The name holds `darwin` or `mac`, whatever its case.
    MacBuild,
    /// The name holds `linux`, whatever its case.
    LinuxBuild,
    /// The name is `spotdl`, whatever its case.
    Plain,
    /// Any name.
    Any,
}

/// `name` fits `rule`.
pub open spec fn rule_matches(rule: AssetRule, name: Seq<char>) -> bool {
    let lower = spec_ascii_lower(name);
    match rule {
        AssetRule::WindowsBuild => spec_contains(lower, "win"@) && spec_ends_with(lower, ".exe"@),
        AssetRule::PlainExe => lower == "spotdl.exe"@,
        AssetRule::MacBuild => spec_contains(lower, "darwin"@) || spec_contains(lower, "mac"@),
        AssetRule::LinuxBuild => spec_contains(lower, "linux"@),
        AssetRule::Plain => lower == "spotdl"@,
        AssetRule::Any => true,
    }
}

/// The rule by which a platform's build is known.
pub open spec fn spec_primary_rule(platform: Platform) -> AssetRule {
    match platform {
        Platform::Windows => AssetRule::WindowsBuild,
        Platform::MacOs => AssetRule::MacBuild,
        Platform::Linux => AssetRule::LinuxBuild,
        Platform::Other => AssetRule::Any,
    }
}

/// The rule that is tried where no build of the platform is found.
pub open spec fn spec_fallback_rule(platform: Platform) -> AssetRule {
    match platform {
        Platform::Windows => AssetRule::PlainExe,
        Platform::MacOs => AssetRule::Plain,
        Platform::Linux => AssetRule::Plain,
        Platform::Other => AssetRule::Any,
    }
}

/// `i` is the first of `assets` whose name fits `rule`.
pub open spec fn is_first_fit(assets: Seq<GithubAsset>, rule: AssetRule, i: int) -> bool {
    &&& 0 <= i < assets.len()
    &&& rule_matches(rule, assets[i].name@)
    &&& forall|j: int| 0 <= j < i ==> !rule_matches(rule, (#[trigger] assets[j]).name@)
}

/// No name of `assets` fits `rule`.
pub open spec fn none_fits(assets: Seq<GithubAsset>, rule: AssetRule) -> bool {
    forall|j: int| 0 <= j < assets.len() ==> !rule_matches(rule, (#[trigger] assets[j]).name@)
}

/// `i` is the file of the release to install on `platform`: the first
/// build of the platform, or, where there is none, the first file of the
/// helper program's plain name.
pub open spec fn is_picked(assets: Seq<GithubAsset>, platform: Platform, i: int) -> bool {
    is_first_fit(assets, spec_primary_rule(platform), i) || (none_fits(
        assets,
        spec_primary_rule(platform),
    ) && is_first_fit(assets, spec_fallback_rule(platform), i))
}

/// Whether `name` fits `rule`.
pub fn rule_holds(rule: AssetRule, name: &str) -> (b: bool)
    ensures
        b == rule_matches(rule, name@),
{
    let n = chars_of(name);
    let lower = ascii_lower(&n);
    match rule {
        AssetRule::WindowsBuild => {
            let win = chars_of("win");
            let exe = chars_of(".exe");
            contains(&lower, &win) && ends_with(&lower, &exe)
        },
        AssetRule::PlainExe => {
            let plain = chars_of("spotdl.exe");
            same_chars(&lower, &plain)
        },
        AssetRule::MacBuild => {
            let darwin = chars_of("darwin");
            let mac = chars_of("mac");
            contains(&lower, &darwin) || contains(&lower, &mac)
        },
        AssetRule::LinuxBuild => {
            let linux = chars_of("linux");
            contains(&lower, &linux)
        },
        AssetRule::Plain => {
            let plain = chars_of("spotdl");
            same_chars(&lower, &plain)
        },
        AssetRule::Any => true,
    }
}

/// Position of the first of `assets` whose name fits `rule`.
pub fn first_fit(assets: &Vec<GithubAsset>, rule: AssetRule) -> (found: Option<usize>)
    ensures
        match found {
            Some(i) => is_first_fit(assets@, rule, i as int),
            None => none_fits(assets@, rule),
        },
{
    let mut i: usize = 0;
    while i < assets.len()
        invariant
            i <= assets.len(),
            forall|j: int| 0 <= j < i ==> !rule_matches(rule, (#[trigger] assets@[j]).name@),
        decreases assets.len() - i,
    {
        if rule_holds(rule, assets[i].name.as_str()) {
            return Some(i);
        }
        i += 1;
    }
    None
}

/// The text of a version as it is compared: without surrounding white
/// space and without a leading `v`.
pub open spec fn spec_clean_version(version: Seq<char>) -> Seq<char> {
    spec_strip_start(spec_trim(version), CharClass::LetterV)
}

/// A word of a version text, stripped: no leading `v`, and nothing but
/// letters, digits and dots at either end.
pub open spec fn spec_clean_token(token: Seq<char>) -> Seq<char> {
    spec_strip(spec_strip_start(spec_trim(token), CharClass::LetterV), CharClass::NotVersionChar)
}

/// A word is a version number when it holds a dot and a digit.
pub open spec fn spec_is_version_token(token: Seq<char>) -> bool {
    spec_next_char(token, '.', 0) < token.len() && spec_has_digit(token)
}

/// The first word of `s` at or after `from` that is a version number. Words
/// stand between white space, round brackets and commas.
pub open spec fn spec_first_version_token(s: Seq<char>, from: int) -> Option<Seq<char>>
    decreases s.len() - from,
{
    if from > s.len() || from < 0 {
        None
    } else {
        let end = spec_next_in_class(s, CharClass::VersionSeparator, from);
        let token = spec_clean_token(s.subrange(from, end));
        if spec_is_version_token(token) {
            Some(token)
        } else if end >= s.len() || end < from {
            None
        } else {
            spec_first_version_token(s, end + 1)
        }
    }
}

/// The version number in a version text: its first word that is a version
/// number, or, where it has none, the text without surrounding white space
/// and leading `v`.
pub open spec fn spec_normalize_version(version: Seq<char>) -> Seq<char> {
    match spec_first_version_token(spec_clean_version(version), 0) {
        Some(token) => token,
        None => spec_clean_version(version),
    }
}

/// The number that a part of a version begins with: its leading digits,
/// of which there must be one, and whose value must fit `u32`.
pub open spec fn spec_segment_value(part: Seq<char>) -> Option<u32> {
    let digits = part.take(spec_next_in_class(part, CharClass::NotDigit, 0));
    if digits.len() == 0 {
        None
    } else {
        match spec_parse_u64(digits) {
            Some(v) => if v <= u32::MAX {
                Some(v as u32)
            } else {
                None
            },
            None => None,
        }
    }
}

/// The numbers of the parts of `s` from `from` on, the parts standing
/// between dots; nothing where one part begins with no number.
pub open spec fn spec_segments_from(s: Seq<char>, from: int) -> Option<Seq<u32>>
    decreases s.len() - from,
{
    if from > s.len() || from < 0 {
        None
    } else {
        let end = spec_next_char(s, '.', from);
        match spec_segment_value(s.subrange(from, end)) {
            None => None,
            Some(v) => if end >= s.len() || end < from {
                Some(seq![v])
            } else {
                match spec_segments_from(s, end + 1) {
                    None => None,
                    Some(rest) => Some(seq![v] + rest),
                }
            },
        }
    }
}

/// The numbers that a version text is made of.
pub open spec fn spec_version_segments(version: Seq<char>) -> Option<Seq<u32>> {
    spec_segments_from(spec_normalize_version(version), 0)
}

/// Number `i` of a version; 0 behind its last number.
pub open spec fn spec_segment(segments: Seq<u32>, i: int) -> u32 {
    if 0 <= i < segments.len() {
        segments[i]
    } else {
        0
    }
}

/// `latest` is newer than `current`, comparing number by number from `from`
/// on, missing numbers counting as 0.
pub open spec fn spec_newer_from(current: Seq<u32>, latest: Seq<u32>, from: int) -> bool
    decreases
        (if current.len() > latest.len() {
            current.len()
        } else {
            latest.len()
        }) - from,
{
    if from >= current.len() && from >= latest.len() {
        false
    } else if spec_segment(latest, from) > spec_segment(current, from) {
        true
    } else if spec_segment(latest, from) < spec_segment(current, from) {
        false
    } else {
        spec_newer_from(current, latest, from + 1)
    }
}

/// Whether an update is due: where both versions are made of numbers, the
/// latest must be the newer one; otherwise the two must differ as texts.
pub open spec fn spec_update_available(current: Seq<char>, latest: Seq<char>) -> bool {
    match (spec_version_segments(current), spec_version_segments(latest)) {
        (Some(c), Some(l)) => spec_newer_from(c, l, 0),
        _ => spec_normalize_version(current) != spec_normalize_version(latest),
    }
}

/// A word of a version text, stripped.
fn clean_token(token: &Vec<char>) -> (out: Vec<char>)
    ensures
        out@ == spec_clean_token(token@),
{
    let t = trim(token);
    let t = strip_start(&t, CharClass::LetterV);
    strip(&t, CharClass::NotVersionChar)
}

/// The number that a part of a version begins with.
fn segment_value(part: &Vec<char>) -> (v: Option<u32>)
    ensures
        v == spec_segment_value(part@),
{
    let end = next_in_class(part, CharClass::NotDigit, 0);
    let digits = slice_chars(part, 0, end);
    proof {
        assert(part@.take(end as int) =~= part@.subrange(0, end as int));
    }
    if digits.len() == 0 {
        return None;
    }
    match parse_u64(&digits) {
        Some(v) => if v <= 4294967295 {
            Some(v as u32)
        } else {
            None
        },
        None => None,
    }
}

impl SpotifyDownloader {
    /// The file of `release` to install on `platform`.
    pub fn pick_spotdl_asset(release: &GithubRelease, platform: Platform) -> (picked: Option<
        usize,
    >)
        ensures
            match picked {
                Some(i) => is_picked(release.assets@, platform, i as int),
                None => none_fits(release.assets@, spec_primary_rule(platform)) && none_fits(
                    release.assets@,
                    spec_fallback_rule(platform),
                ),
            },
    {
        let primary = match platform {
            Platform::Windows => AssetRule::WindowsBuild,
            Platform::MacOs => AssetRule::MacBuild,
            Platform::Linux => AssetRule::LinuxBuild,
            Platform::Other => AssetRule::Any,
        };
        let fallback = match platform {
            Platform::Windows => AssetRule::PlainExe,
            Platform::MacOs => AssetRule::Plain,
            Platform::Linux => AssetRule::Plain,
            Platform::Other => AssetRule::Any,
        };
        match first_fit(&release.assets, primary) {
            Some(i) => Some(i),
            None => first_fit(&release.assets, fallback),
        }
    }

    /// The version number in a version text.
    pub fn normalize_version_token(version: &str) -> (out: String)
        ensures
            out@ == spec_normalize_version(version@),
    {
        let v = chars_of(version);
        let t = trim(&v);
        let cleaned = strip_start(&t, CharClass::LetterV);
        let len = cleaned.len();
        let mut from: usize = 0;
        loop
            invariant
                from <= len,
                len == cleaned@.len(),
                cleaned@ == spec_clean_version(version@),
                spec_first_version_token(cleaned@, 0) == spec_first_version_token(
                    cleaned@,
                    from as int,
                ),
            decreases len - from,
        {
            let end = next_in_class(&cleaned, CharClass::VersionSeparator, from);
            let piece = slice_chars(&cleaned, from, end);
            let token = clean_token(&piece);
            if next_char(&token, '.', 0) < token.len() && has_digit(&token) {
                return string_of(&token);
            }
            if end >= len {
                return string_of(&cleaned);
            }
            from = end + 1;
        }
    }

    /// The numbers that a version text is made of.
    pub fn parse_version_segments(version: &str) -> (segments: Option<Vec<u32>>)
        ensures
            segments is Some == spec_version_segments(version@) is Some,
            segments is Some ==> segments->0@ == spec_version_segments(version@)->0,
    {
        let normalized = SpotifyDownloader::normalize_version_token(version);
        let s = chars_of(normalized.as_str());
        let len = s.len();
        let mut out: Vec<u32> = Vec::new();
        let mut from: usize = 0;
        loop
            invariant
                from <= len,
                len == s@.len(),
                s@ == spec_normalize_version(version@),
                spec_segments_from(s@, 0) == (match spec_segments_from(s@, from as int) {
                    Some(rest) => Some(out@ + rest),
                    None => None,
                }),
            decreases len - from,
        {
            let end = next_char(&s, '.', from);
            let part = slice_chars(&s, from, end);
            let v = match segment_value(&part) {
                Some(v) => v,
                None => {
                    return None;
                },
            };
            let ghost before = out@;
            out.push(v);
            if end >= len {
                proof {
                    assert(before + seq![v] =~= out@);
                }
                return Some(out);
            }
            proof {
                match spec_segments_from(s@, end + 1) {
                    Some(rest) => {
                        assert(before + (seq![v] + rest) =~= out@ + rest);
                    },
                    None => {},
                }
            }
            from = end + 1;
        }
    }

    /// Whether an update from `current_version` to `latest_version` is due.
    pub fn is_update_available(current_version: &str, latest_version: &str) -> (due: bool)
        ensures
            due == spec_update_available(current_version@, latest_version@),
    {
        let current = SpotifyDownloader::parse_version_segments(current_version);
        let latest = SpotifyDownloader::parse_version_segments(latest_version);
        match (current, latest) {
            (Some(c), Some(l)) => {
                let max_len = if c.len() > l.len() {
                    c.len()
                } else {
                    l.len()
                };
                let mut idx: usize = 0;
                while idx < max_len
                    invariant
                        idx <= max_len,
                        max_len >= c@.len(),
                        max_len >= l@.len(),
                        max_len == c@.len() || max_len == l@.len(),
                        spec_update_available(current_version@, latest_version@)
                            == spec_newer_from(c@, l@, 0),
                        spec_newer_from(c@, l@, 0) == spec_newer_from(c@, l@, idx as int),
                    decreases max_len - idx,
                {
                    let cv: u32 = if idx < c.len() {
                        c[idx]
                    } else {
                        0
                    };
                    let lv: u32 = if idx < l.len() {
                        l[idx]
                    } else {
                        0
                    };
                    if lv > cv {
                        return true;
                    }
                    if lv < cv {
                        return false;
                    }
                    idx += 1;
                }
                false
            },
            _ => {
                let a = SpotifyDownloader::normalize_version_token(current_version);
                let b = SpotifyDownloader::normalize_version_token(latest_version);
                !(a == b)
            },
        }
    }

    /// What is reported of the installed helper program: its version as a
    /// number where one can be read from what it printed, the latest
    /// version if known, and whether an update is due.
    pub fn spotdl_info(raw_version: &str, path: &str, latest_version: Option<String>) -> (info:
        SpotDlInfo)
        ensures
            info.version@ == (if spec_normalize_version(raw_version@).len() == 0 {
                raw_version@
            } else {
                spec_normalize_version(raw_version@)
            }),
            info.path@ == path@,
            info.is_available,
            info.latest_version == latest_version,
            info.update_available == (match latest_version {
                Some(l) => spec_update_available(info.version@, l@),
                None => false,
            }),
    {
        let normalized = SpotifyDownloader::normalize_version_token(raw_version);
        let version = if normalized.as_str().unicode_len() == 0 {
            String::from_str(raw_version)
        } else {
            normalized
        };
        let update_available = match &latest_version {
            Some(l) => SpotifyDownloader::is_update_available(version.as_str(), l.as_str()),
            None => false,
        };
        SpotDlInfo {
            version,
            path: String::from_str(path),
            is_available: true,
            latest_version,
            update_available,
        }
    }
}

/// A URL of the music service: one that holds `spotify.com`.
pub open spec fn spec_is_spotify_url(url: Seq<char>) -> bool {
    spec_contains(url, "spotify.com"@)
}

/// Whether `url` is a URL of the music service.
pub fn is_spotify_url(url: &str) -> (b: bool)
    ensures
        b == spec_is_spotify_url(url@),
{
    let u = chars_of(url);
    let needle = chars_of("spotify.com");
    contains(&u, &needle)
}

/// The kind of thing that a URL of the music service names.
pub open spec fn spec_content_type(url: Seq<char>) -> Seq<char> {
    if spec_contains(url, "/track/"@) {
        "track"@
    } else if spec_contains(url, "/album/"@) {
        "album"@
    } else if spec_contains(url, "/playlist/"@) {
        "playlist"@
    } else if spec_contains(url, "/artist/"@) {
        "artist"@
    } else {
        "unknown"@
    }
}

/// The kind of thing that a URL of the music service names.
pub fn content_type(url: &str) -> (kind: String)
    ensures
        kind@ == spec_content_type(url@),
{
    let u = chars_of(url);
    if contains(&u, &chars_of("/track/")) {
        String::from_str("track")
    } else if contains(&u, &chars_of("/album/")) {
        String::from_str("album")
    } else if contains(&u, &chars_of("/playlist/")) {
        String::from_str("playlist")
    } else if contains(&u, &chars_of("/artist/")) {
        String::from_str("artist")
    } else {
        String::from_str("unknown")
    }
}

/// Fragments fetched at once: the requested number of threads, 4 where
/// none is requested, held inside `[2, 8]`.
pub open spec fn spec_concurrent_fragments(threads: Option<i32>) -> i32 {
    let wanted = match threads {
        Some(t) => t,
        None => 4,
    };
    if wanted < 2 {
        2
    } else if wanted > 8 {
        8
    } else {
        wanted
    }
}

/// Fragments fetched at once.
pub fn concurrent_fragments(threads: Option<i32>) -> (n: i32)
    ensures
        n == spec_concurrent_fragments(threads),
        2 <= n <= 8,
{
    let wanted = match threads {
        Some(t) => t,
        None => 4,
    };
    if wanted < 2 {
        2
    } else if wanted > 8 {
        8
    } else {
        wanted
    }
}

/// Progress of a run over several tracks, in hundredths of a percent: 10 %
/// for the preparation and 85 % shared among the tracks.
pub open spec fn spec_track_progress(done: u32, total: u32) -> int {
    if total == 0 {
        1000
    } else if done >= total {
        9500
    } else {
        1000 + done * 8500 / (total as int)
    }
}

/// Progress of a run over several tracks.
pub fn track_progress(done: u32, total: u32) -> (p: u32)
    ensures
        p == spec_track_progress(done, total),
        1000 <= p <= 9500,
{
    if total == 0 {
        1000
    } else if done >= total {
        9500
    } else {
        let q: u64 = (done as u64) * 8500 / (total as u64);
        assert(q <= 8500) by (nonlinear_arith)
            requires
                q == (done as int) * 8500 / (total as int),
                0 <= done < total,
                total > 0,
        ;
        (1000 + q) as u32
    }
}

/// A character of a track's name as it may stand in a file name: the
/// question mark is dropped, the double quote becomes a single one, and the
/// other characters that file systems refuse become a hyphen.
pub open spec fn spec_safe_char(c: char) -> Option<char> {
    if c == '?' {
        None
    } else if c == '"' {
        Some('\'')
    } else if c == '/' || c == '\\' || c == ':' || c == '*' || c == '<' || c == '>' || c == '|' {
        Some('-')
    } else {
        Some(c)
    }
}

/// A track's name as a file name.
pub open spec fn spec_safe_name(name: Seq<char>) -> Seq<char> {
    name.filter_map(|c: char| spec_safe_char(c))
}

/// A track's name as a file name.
pub fn safe_name(name: &str) -> (out: String)
    ensures
        out@ == spec_safe_name(name@),
{
    let n = chars_of(name);
    let mut out: Vec<char> = Vec::new();
    let ghost f = |c: char| spec_safe_char(c);
    let mut i: usize = 0;
    proof {
        assert(n@.take(0).filter_map(f) =~= Seq::<char>::empty());
    }
    while i < n.len()
        invariant
            i <= n.len(),
            f == (|c: char| spec_safe_char(c)),
            out@ == n@.take(i as int).filter_map(f),
        decreases n.len() - i,
    {
        let c = n[i];
        proof {
            assert(n@.take(i + 1).drop_last() =~= n@.take(i as int));
            assert(n@.take(i + 1).last() == c);
        }
        let ghost before = out@;
        if c == '?' {
        } else if c == '"' {
            out.push('\'');
            proof {
                assert(out@ =~= before + seq!['\'']);
            }
        } else if c == '/' || c == '\\' || c == ':' || c == '*' || c == '<' || c == '>' || c == '|' {
            out.push('-');
            proof {
                assert(out@ =~= before + seq!['-']);
            }
        } else {
            out.push(c);
            proof {
                assert(out@ =~= before + seq![c]);
            }
        }
        i += 1;
    }
    proof {
        assert(n@.take(i as int) =~= n@);
    }
    string_of(&out)
}

/// The output template of a track: the output directory with `/` between
/// its parts, the track's safe name, and the extension left to the
/// extractor.
pub open spec fn spec_track_template(output_path: Seq<char>, display_name: Seq<char>) -> Seq<char> {
    spec_replace_char(output_path, '\\', '/') + seq!['/'] + spec_safe_name(display_name)
        + ".%(ext)s"@
}

/// The arguments with which the extractor fetches the audio of one track.
pub open spec fn spec_track_args(
    audio_format: Seq<char>,
    fragments: i32,
    template: Seq<char>,
    ffmpeg_path: Seq<char>,
    url: Seq<char>,
) -> Seq<Seq<char>> {
    seq![
        "-x"@,
        "--audio-format"@,
        audio_format,
        "--audio-quality"@,
        "0"@,
        "--concurrent-fragments"@,
        spec_decimal(fragments as nat),
        "--retries"@,
        "4"@,
        "--fragment-retries"@,
        "4"@,
        "--socket-timeout"@,
        "20"@,
        "-o"@,
        template,
        "--ffmpeg-location"@,
        ffmpeg_path,
        "--no-playlist"@,
        url,
    ]
}

/// The arguments with which the extractor fetches the audio of one track
/// of a request into the request's output directory.
pub fn track_args(
    request: &SpotifyDownloadRequest,
    display_name: &str,
    ffmpeg_path: &str,
    url: &str,
) -> (args: Vec<String>)
    ensures
        texts(args@) == spec_track_args(
            request.audio_format@,
            spec_concurrent_fragments(request.threads),
            spec_track_template(request.output_path@, display_name@),
            ffmpeg_path@,
            url@,
        ),
{
    let dir = chars_of(request.output_path.as_str());
    let mut template = replace_char(&dir, '\\', '/');
    template.push('/');
    let safe = safe_name(display_name);
    push_str(&mut template, safe.as_str());
    push_str(&mut template, ".%(ext)s");
    proof {
        assert(template@ =~= spec_track_template(request.output_path@, display_name@));
    }
    let mut fragments: Vec<char> = Vec::new();
    push_decimal(&mut fragments, concurrent_fragments(request.threads) as u128);
    let mut args: Vec<String> = Vec::new();
    proof {
        assert(texts(args@) =~= Seq::<Seq<char>>::empty());
    }
    push_arg(&mut args, "-x");
    push_arg(&mut args, "--audio-format");
    push_arg(&mut args, request.audio_format.as_str());
    push_arg(&mut args, "--audio-quality");
    push_arg(&mut args, "0");
    push_arg(&mut args, "--concurrent-fragments");
    push_arg(&mut args, string_of(&fragments).as_str());
    push_arg(&mut args, "--retries");
    push_arg(&mut args, "4");
    push_arg(&mut args, "--fragment-retries");
    push_arg(&mut args, "4");
    push_arg(&mut args, "--socket-timeout");
    push_arg(&mut args, "20");
    push_arg(&mut args, "-o");
    push_arg(&mut args, string_of(&template).as_str());
    push_arg(&mut args, "--ffmpeg-location");
    push_arg(&mut args, ffmpeg_path);
    push_arg(&mut args, "--no-playlist");
    push_arg(&mut args, url);
    proof {
        assert(texts(args@) =~= spec_track_args(
            request.audio_format@,
            spec_concurrent_fragments(request.threads),
            spec_track_template(request.output_path@, display_name@),
            ffmpeg_path@,
            url@,
        ));
    }
    args
}


/// A line that names where a track can be fetched: one that holds
/// `youtube.com` or `youtu.be`.
pub open spec fn spec_is_source_line(line: Seq<char>) -> bool {
    spec_contains(line, "youtube.com"@) || spec_contains(line, "youtu.be"@)
}

/// Whether a line names where a track can be fetched.
pub fn is_source_line(line: &str) -> (b: bool)
    ensures
        b == spec_is_source_line(line@),
{
    let l = chars_of(line);
    contains(&l, &chars_of("youtube.com")) || contains(&l, &chars_of("youtu.be"))
}

} // verus!
