//! Agent configuration files: names and what they may hold.
use vstd::prelude::*;
use vstd::string::StringExecFns;
use vstd::utf8::encode_utf8;

verus! {

/// A JSON schema that an agent's answer must follow, and how to map it.
#[derive(Clone, Debug)]
pub struct StructuredOutput {
    pub schema: String,
    pub mapper: String,
}

/// The final component of a path, as `Path::file_name` gives it.
pub uninterp spec fn file_name_of(path: Seq<char>) -> Option<Seq<char>>;

/// Relies on `Path::file_name`: the final component of the path, if it has
/// one. A component of a `str` path is valid UTF-8, so it converts back.
#[verifier::external_body]
fn path_file_name(path: &str) -> (r: Option<String>)
    ensures
        match r {
            Some(s) => file_name_of(path@) == Some(s@),
            None => file_name_of(path@) is None,
        },
{
    std::path::Path::new(path).file_name().and_then(|n| n.to_str()).map(|n| n.to_owned())
}

/// The characters before the first `.`, or all of them.
pub open spec fn before_first_dot(s: Seq<char>) -> Seq<char>
    decreases s.len(),
{
    if s.len() == 0 || s[0] == '.' {
        Seq::empty()
    } else {
        seq![s[0]] + before_first_dot(s.skip(1))
    }
}

/// Relies on `str::split`: the first piece of a split on `.` is what comes
/// before the first `.`.
#[verifier::external_body]
fn first_piece_before_dot(s: &String) -> (r: String)
    ensures
        r@ == before_first_dot(s@),
{
    s.split('.').next().unwrap_or("").to_owned()
}

/// The message for a path without a usable file name.
pub const UNKNOWN_FILE_NAME: &'static str = "Unknown file name: ";

/// The name of an agent file: its file name up to the first `.`.
pub fn parse_name_from_file_path(path: &str) -> (r: Result<String, String>)
    ensures
        match file_name_of(path@) {
            Some(n) => r matches Ok(s) && s@ == before_first_dot(n),
            None => r matches Err(e) && e@ == UNKNOWN_FILE_NAME@ + path@,
        },
{
    match path_file_name(path) {
        Some(name) => Ok(first_piece_before_dot(&name)),
        None => {
            let mut message = UNKNOWN_FILE_NAME.to_owned();
            message.append(path);
            Err(message)
        },
    }
}

/// The index of the last `.` among the characters, or -1.
pub open spec fn last_dot(f: Seq<char>) -> int
    decreases f.len(),
{
    if f.len() == 0 {
        -1
    } else if f.last() == '.' {
        f.len() - 1
    } else {
        last_dot(f.drop_last())
    }
}

/// The extension of a file name: what follows its last `.`, unless it has
/// no `.` or its only `.` starts it.
pub open spec fn extension_of_name(f: Seq<char>) -> Option<Seq<char>> {
    if last_dot(f) <= 0 {
        None
    } else {
        Some(f.skip(last_dot(f) + 1))
    }
}

/// The extension of a path: that of its file name, if it has one.
pub open spec fn extension_of(path: Seq<char>) -> Option<Seq<char>> {
    match file_name_of(path) {
        Some(f) => extension_of_name(f),
        None => None,
    }
}

/// Relies on `Path::extension`: none without a file name; none when the file
/// name has no `.`, or starts with its only `.`; otherwise what follows the
/// file name's last `.`. A part of a `str` path is valid UTF-8.
#[verifier::external_body]
fn path_extension(path: &str) -> (r: Option<String>)
    ensures
        match r {
            Some(s) => extension_of(path@) == Some(s@),
            None => extension_of(path@) is None,
        },
{
    std::path::Path::new(path).extension().and_then(|e| e.to_str()).map(|e| e.to_owned())
}

fn same_text(a: &str, b: &str) -> (r: bool)
    ensures
        r == (a@ == b@),
{
    let x: &[u8] = a.as_bytes();
    let y: &[u8] = b.as_bytes();
    if x.len() != y.len() {
        proof {
            if a@ == b@ {
                assert(x@ == y@);
            }
        }
        return false;
    }
    let mut i: usize = 0;
    while i < x.len()
        invariant
            i <= x@.len(),
            x@.len() == y@.len(),
            x@ == encode_utf8(a@),
            y@ == encode_utf8(b@),
            forall|j: int| 0 <= j < i ==> x@[j] == y@[j],
        decreases x@.len() - i,
    {
        if x[i] != y[i] {
            proof {
                if a@ == b@ {
                    assert(x@ == y@);
                }
            }
            return false;
        }
        i = i + 1;
    }
    assert(x@ =~= y@);
    proof {
        vstd::utf8::encode_utf8_decode_utf8(a@);
        vstd::utf8::encode_utf8_decode_utf8(b@);
    }
    true
}

/// Whether a path names an agent file: its extension is `yaml` or `yml`.
pub open spec fn is_agent_file_spec(path: Seq<char>) -> bool {
    extension_of(path) == Some("yaml"@) || extension_of(path) == Some("yml"@)
}

/// Whether a path names an agent file: its extension is `yaml` or `yml`.
pub fn is_agent_file(path: &str) -> (r: bool)
    ensures
        r == is_agent_file_spec(path@),
{
    match path_extension(path) {
        Some(ext) => same_text(ext.as_str(), "yaml") || same_text(ext.as_str(), "yml"),
        None => false,
    }
}

/// The largest agent file that is read, in bytes.
pub const MAX_AGENT_FILE_BYTES: u64 = 1_048_576;

/// Whether an agent file of this many bytes is small enough to read.
pub fn within_agent_file_limit(len: u64) -> (r: bool)
    ensures
        r == (len <= MAX_AGENT_FILE_BYTES),
{
    len <= MAX_AGENT_FILE_BYTES
}

/// The file name under which an agent is saved.
pub fn agent_file_name(name: &str) -> (r: String)
    ensures
        r@ == name@ + ".yaml"@,
{
    let mut file_name = name.to_owned();
    file_name.append(".yaml");
    file_name
}

/// Whether the bytes hold a path separator, a NUL, or two dots in a row.
pub open spec fn has_forbidden_bytes(b: Seq<u8>) -> bool {
    exists|i: int|
        0 <= i < b.len() && (#[trigger] b[i] == 0x2F || b[i] == 0x5C || b[i] == 0x00 || (i + 1 < b.len()
            && b[i] == 0x2E && b[i + 1] == 0x2E))
}

pub const EMPTY_NAME: &'static str = "Agent name cannot be empty";

pub const NAME_PREFIX: &'static str = "Agent name '";

pub const INVALID_SUFFIX: &'static str =
    "' contains invalid characters. Only alphanumeric characters, hyphens, and underscores are allowed.";

pub const RESERVED_SUFFIX: &'static str = "' is reserved";

/// Why a name cannot name an agent file, if it cannot: it is empty; it holds
/// a separator, a NUL or `..`; or it is `.` or `..`.
pub open spec fn agent_name_error(name: Seq<char>) -> Option<Seq<char>> {
    let b = encode_utf8(name);
    if name.len() == 0 {
        Some(EMPTY_NAME@)
    } else if has_forbidden_bytes(b) {
        Some(NAME_PREFIX@ + name + INVALID_SUFFIX@)
    } else if b == seq![0x2Eu8] || b == seq![0x2Eu8, 0x2Eu8] {
        Some(NAME_PREFIX@ + name + RESERVED_SUFFIX@)
    } else {
        None
    }
}

fn scan_forbidden(b: &[u8]) -> (r: bool)
    ensures
        r == has_forbidden_bytes(b@),
{
    let mut i: usize = 0;
    while i < b.len()
        invariant
            i <= b@.len(),
            forall|j: int|
                0 <= j < i ==> !(#[trigger] b@[j] == 0x2F || b@[j] == 0x5C || b@[j] == 0x00 || (j + 1
                    < b@.len() && b@[j] == 0x2E && b@[j + 1] == 0x2E)),
        decreases b@.len() - i,
    {
        let c: u8 = b[i];
        if c == 0x2F || c == 0x5C || c == 0x00 {
            return true;
        }
        if c == 0x2E && i + 1 < b.len() && b[i + 1] == 0x2E {
            return true;
        }
        i = i + 1;
    }
    false
}

/// Keeps agent files inside their folder: refuses names that are empty,
/// that hold a path separator, a NUL or `..`, or that are `.` or `..`.
pub fn validate_agent_name(name: &str) -> (r: Result<(), String>)
    ensures
        match agent_name_error(name@) {
            Some(m) => r matches Err(e) && e@ == m,
            None => r is Ok,
        },
{
    if name.is_empty() {
        return Err(EMPTY_NAME.to_owned());
    }
    let b: &[u8] = name.as_bytes();
    if scan_forbidden(b) {
        let mut message = NAME_PREFIX.to_owned();
        message.append(name);
        message.append(INVALID_SUFFIX);
        return Err(message);
    }
    if (b.len() == 1 && b[0] == 0x2E) || (b.len() == 2 && b[0] == 0x2E && b[1] == 0x2E) {
        assert(b@ =~= seq![0x2Eu8] || b@ =~= seq![0x2Eu8, 0x2Eu8]);
        let mut message = NAME_PREFIX.to_owned();
        message.append(name);
        message.append(RESERVED_SUFFIX);
        return Err(message);
    }
    assert(b@ != seq![0x2Eu8] ==> b@.len() != 1 || b@[0] != 0x2E);
    Ok(())
}

} // verus!
