use vstd::prelude::*;

verus! {

/// What kind of entry a path names.
#[derive(Clone, Copy, Debug, PartialEq, Eq, Structural)]
pub enum FileType {
    File,
    Directory,
    Unknown,
}

/// A directory entry as shown to a client; times are Unix seconds, when
/// known.
#[derive(Clone, Debug)]
pub struct File {
    pub name: String,
    pub path: String,
    pub creation_time: Option<u64>,
    pub modification_time: Option<u64>,
    pub file_type: FileType,
}

/// Whether `e` follows a `.` somewhere in `path` and holds no `.` or `/`:
/// what every platform's reading of an extension has in common.
pub open spec fn is_dot_suffix(path: Seq<char>, e: Seq<char>) -> bool {
    &&& exists|k: int|
        0 <= k && k + e.len() + 1 <= path.len() && #[trigger] path.subrange(k, k + e.len() + 1)
            == seq!['.'] + e
    &&& !e.contains('.')
    &&& !e.contains('/')
}

/// Relies on std::path::Path::extension: the text after the last `.` of the
/// path's file name, when that `.` is not its first character. Which
/// characters end a file name depends on the platform.
#[verifier::external_body]
fn extension_of(path: &str) -> (r: Option<&str>)
    ensures
        r matches Some(e) ==> is_dot_suffix(path@, e@),
{
    std::path::Path::new(path).extension().and_then(|e| e.to_str())
}

/// Extensions of files that only a user allowed to write any file may
/// change: executables, scripts and the instance's own configuration.
pub open spec fn is_protected_extension(e: Seq<char>) -> bool {
    ||| e == "jar"@
    ||| e == "lua"@
    ||| e == "sh"@
    ||| e == "exe"@
    ||| e == "bat"@
    ||| e == "cmd"@
    ||| e == "msi"@
    ||| e == "lodestone_config"@
    ||| e == "out"@
    ||| e == "inf"@
}

/// Whether a file with extension `extension` is protected; a file without
/// an extension is.
pub fn is_extension_protected(extension: Option<&str>) -> (r: bool)
    ensures
        r == match extension {
            Some(e) => is_protected_extension(e@),
            None => true,
        },
{
    match extension {
        None => true,
        Some(e) => {
            let s = String::from_str(e);
            s == String::from_str("jar") || s == String::from_str("lua") || s == String::from_str(
                "sh",
            ) || s == String::from_str("exe") || s == String::from_str("bat") || s
                == String::from_str("cmd") || s == String::from_str("msi") || s == String::from_str(
                "lodestone_config",
            ) || s == String::from_str("out") || s == String::from_str("inf")
        },
    }
}

/// Whether the file at `path` is protected from users who may not write
/// every file: as `is_extension_protected` says of the extension that the
/// platform reads in `path`.
pub fn is_file_protected(path: &str) -> (r: bool)
    ensures
        !r ==> exists|e: Seq<char>| is_dot_suffix(path@, e) && !is_protected_extension(e),
{
    is_extension_protected(extension_of(path))
}

/// The path of `name` inside directory `base`, with `/` between them; an
/// empty `base` is the current directory, and gives `name` itself.
pub open spec fn child_path(base: Seq<char>, name: Seq<char>) -> Seq<char> {
    if base.len() == 0 {
        name
    } else if base.last() == '/' {
        base + name
    } else {
        base + seq!['/'] + name
    }
}

pub fn join_path(base: &str, name: &str) -> (r: String)
    ensures
        r@ == child_path(base@, name@),
{
    let mut r = String::from_str(base);
    let n = base.unicode_len();
    if n > 0 && base.get_char(n - 1) != '/' {
        r.append("/");
    }
    r.append(name);
    proof {
        reveal_strlit("/");
    }
    r
}

} // verus!
