//! Names of recorded, converted and cached files. The file system work
//! (renaming, removing, writing) is done by the caller.
use vstd::prelude::*;

use crate::config::{container_extension, container_extension_of, Config};
use crate::converter::paths_equal;
use crate::text::{lower, lower_char};
use crate::text::{chars_of, push_str, string_of};

verus! {

/// Added to the stem of converted audio whose name would otherwise equal
/// the recording's.
pub const CONVERTED_FILE_SUFFIX: &'static str = "_convert";

/// `Path::with_extension` on a path given as text, under the path syntax of
/// the target the library is built for (fixed at build time).
pub uninterp spec fn path_with_extension(path: Seq<char>, extension: Seq<char>) -> Seq<char>;

/// `Path::file_stem` on a path given as text, under the target's path syntax.
pub uninterp spec fn path_file_stem(path: Seq<char>) -> Option<Seq<char>>;

/// `Path::extension` on a path given as text, under the target's path syntax.
pub uninterp spec fn path_extension(path: Seq<char>) -> Option<Seq<char>>;

/// `Path::set_file_name` on a path given as text, under the target's path
/// syntax.
pub uninterp spec fn path_with_file_name(path: Seq<char>, name: Seq<char>) -> Seq<char>;

/// Whether a text holds a path separator of any target (`/` or `\\`).
pub open spec fn has_separator(s: Seq<char>) -> bool {
    exists|i: int| 0 <= i < s.len() && (s[i] == '/' || s[i] == '\\')
}

/// `Path::with_extension`; the result depends on the two texts alone. It
/// panics when the extension holds a separator, which `requires` rules out.
#[verifier::external_body]
fn with_extension(path: &str, extension: &str) -> (r: String)
    requires
        !has_separator(extension@),
    ensures
        r@ == path_with_extension(path@, extension@),
{
    std::path::Path::new(path).with_extension(extension).to_string_lossy().into_owned()
}

/// `Path::file_stem`; the result depends on the text alone.
#[verifier::external_body]
fn file_stem(path: &str) -> (r: Option<String>)
    ensures
        match r {
            Some(s) => path_file_stem(path@) == Some(s@),
            None => path_file_stem(path@) is None,
        },
{
    std::path::Path::new(path).file_stem().map(|stem| stem.to_string_lossy().into_owned())
}

/// `Path::set_file_name`; the result depends on the two texts alone.
#[verifier::external_body]
fn with_file_name(path: &str, name: &str) -> (r: String)
    ensures
        r@ == path_with_file_name(path@, name@),
{
    let mut buffer = std::path::PathBuf::from(path);
    buffer.set_file_name(name);
    buffer.to_string_lossy().into_owned()
}

/// `stem` + `_convert` + `.` + `extension`.
pub fn converted_file_name(stem: &str, extension: &str) -> (r: String)
    ensures
        r@ == stem@ + "_convert."@ + extension@,
{
    let mut out: Vec<char> = Vec::new();
    push_str(&mut out, stem);
    push_str(&mut out, "_convert.");
    push_str(&mut out, extension);
    proof {
        assert(stem@ + "_convert."@ + extension@ =~= stem@ + "_convert."@ + extension@);
    }
    string_of(out.as_slice())
}

/// The path of converted audio: the recording's path with the container's
/// extension, unless that names the recording itself (ignoring ASCII case),
/// in which case the stem gets `_convert`.
pub open spec fn output_path_for(wav: Seq<char>, container: Seq<char>) -> Seq<char> {
    let extension = container_extension_of(container);
    let candidate = path_with_extension(wav, extension);
    if lower(wav) == lower(candidate) {
        let stem = match path_file_stem(wav) {
            Some(s) => s,
            None => Seq::empty(),
        };
        path_with_file_name(candidate, stem + "_convert."@ + extension)
    } else {
        candidate
    }
}

/// Where converted audio is written; never the recording's own path. A
/// container holding a path separator cannot be an extension (the path
/// library panics on it), so it is left out.
pub fn recording_output_path(wav_path: &str, container: &str) -> (r: String)
    requires
        !has_separator(container@),
    ensures
        r@ == output_path_for(wav_path@, container@),
{
    let extension = container_extension(container);
    proof {
        reveal_strlit("ogg");
        if has_separator(extension@) {
            let i = choose|i: int|
                0 <= i < extension@.len() && (extension@[i] == '/' || extension@[i] == '\\');
            if container@.len() > 0 {
                assert(extension@[i] == lower_char(container@[i]));
                assert(container@[i] == '/' || container@[i] == '\\');
            } else {
                assert(i == 0 || i == 1 || i == 2);
            }
        }
    }
    let candidate = with_extension(wav_path, extension.as_str());
    if paths_equal(wav_path, candidate.as_str()) {
        let stem = match file_stem(wav_path) {
            Some(s) => s,
            None => String::new(),
        };
        let name = converted_file_name(stem.as_str(), extension.as_str());
        with_file_name(candidate.as_str(), name.as_str())
    } else {
        candidate
    }
}

/// Whether audio and responses are kept: `KEEP_CACHE` with a cache
/// directory that is set.
pub fn keeps_cache(config: &Config) -> (r: bool)
    ensures
        r == (config.keep_cache && config.cache_dir@.len() > 0),
{
    config.keep_cache && !config.cache_dir.as_str().is_empty()
}

/// The cached name of converted audio: `base` and its extension, or with
/// `_convert` before the extension when the cached recording already took
/// that name.
pub fn cached_output_name(base: &str, extension_with_dot: &str, taken: bool) -> (r: String)
    ensures
        r@ == base@ + (if taken {
            "_convert"@
        } else {
            Seq::empty()
        }) + extension_with_dot@,
{
    let mut out: Vec<char> = Vec::new();
    push_str(&mut out, base);
    if taken {
        push_str(&mut out, "_convert");
    }
    push_str(&mut out, extension_with_dot);
    proof {
        if !taken {
            assert(base@ + Seq::<char>::empty() =~= base@);
        }
    }
    string_of(out.as_slice())
}

/// A response is cached only after an HTTP 200 upload that returned a body.
pub fn keeps_response(upload_succeeded: bool, response: &[u8]) -> (r: bool)
    ensures
        r == (upload_succeeded && response@.len() > 0),
{
    upload_succeeded && response.len() > 0
}

/// `Path::extension`; the result depends on the text alone.
#[verifier::external_body]
fn extension_of(path: &str) -> (r: Option<String>)
    ensures
        match r {
            Some(s) => path_extension(path@) == Some(s@),
            None => path_extension(path@) is None,
        },
{
    std::path::Path::new(path).extension().map(|extension| extension.to_string_lossy().into_owned())
}

/// A path's extension with its dot (`.wav`), or nothing when it has none.
pub fn extension_with_dot(path: &str) -> (r: String)
    ensures
        r@ == match path_extension(path@) {
            Some(e) => "."@ + e,
            None => Seq::<char>::empty(),
        },
{
    match extension_of(path) {
        Some(extension) => {
            let mut out: Vec<char> = Vec::new();
            push_str(&mut out, ".");
            push_str(&mut out, extension.as_str());
            string_of(out.as_slice())
        },
        None => String::new(),
    }
}

/// The name of a temporary file: `RecordTemp_`, the first 16 characters of
/// a random hexadecimal ID, a dot and the extension.
pub fn temporary_file_name(id: &str, extension: &str) -> (r: String)
    requires
        id@.len() >= 16,
    ensures
        r@ == "RecordTemp_"@ + id@.take(16) + "."@ + extension@,
{
    let chars = chars_of(id);
    let mut out: Vec<char> = Vec::new();
    push_str(&mut out, "RecordTemp_");
    let mut i: usize = 0;
    let ghost start = out@;
    while i < 16
        invariant
            0 <= i <= 16,
            chars@ == id@,
            id@.len() >= 16,
            out@ == start + id@.take(i as int),
        decreases 16 - i,
    {
        out.push(chars[i]);
        proof {
            assert(id@.take(i as int + 1) =~= id@.take(i as int).push(id@[i as int]));
        }
        i = i + 1;
    }
    push_str(&mut out, ".");
    push_str(&mut out, extension);
    string_of(out.as_slice())
}

} // verus!
