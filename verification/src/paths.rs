//! Where a command runs and where a file lies. Every path a caller gives is
//! taken relative to the workspace root: slashes at its start are dropped, so
//! that an absolute-looking path still lands inside the workspace.
use vstd::prelude::*;
use vstd::utf8::encode_utf8;
use crate::error::WorkspaceError;
use crate::text::{chars_of, run_end, string_of_range, strip_leading, without_leading_char};
use crate::trusted::{shell_escape, shell_quoted, tar_first_entry, tar_pack, tar_unpack_first};

verus! {

/// The mode of a file written into a container.
pub const FILE_MODE: u32 = 0o644;

/// The root of a container's file system.
pub const CONTAINER_ROOT: &'static str = "/";

/// `rel` below `dir`: `dir` itself where `rel` is empty, otherwise the two
/// with exactly one `/` between them where `dir` does not end in one.
pub open spec fn below(dir: Seq<char>, rel: Seq<char>) -> Seq<char> {
    if rel.len() == 0 {
        dir
    } else if dir.len() > 0 && dir.last() == '/' {
        dir + rel
    } else {
        dir.push('/') + rel
    }
}

/// The directory a command runs in: the root, or the working directory
/// below it with the slashes at its start dropped.
pub open spec fn effective_dir(root: Seq<char>, working_dir: Option<Seq<char>>) -> Seq<char> {
    match working_dir {
        None => root,
        Some(dir) => below(root, without_leading_char(dir, '/')),
    }
}

/// Where a file lies: its path, slashes at its start dropped, below the
/// effective directory.
pub open spec fn file_location(root: Seq<char>, working_dir: Option<Seq<char>>, path: Seq<char>) -> Seq<
    char,
> {
    below(effective_dir(root, working_dir), without_leading_char(path, '/'))
}

/// The offset at which the last component of `s[..j]` begins: behind the
/// last `/` before `j`, or zero.
pub open spec fn name_start(s: Seq<char>, j: int) -> int
    decreases j,
{
    if 0 < j <= s.len() && s[j - 1] != '/' {
        name_start(s, j - 1)
    } else {
        j
    }
}

/// The last component of a location: what follows its last `/`.
pub open spec fn file_name(location: Seq<char>) -> Seq<char> {
    location.skip(name_start(location, location.len() as int))
}

/// What stands before the last `/` of a location; `/` where nothing does,
/// and nothing where the location has no `/`.
pub open spec fn parent_dir(location: Seq<char>) -> Seq<char> {
    let start = name_start(location, location.len() as int);
    if start <= 0 {
        Seq::empty()
    } else if start == 1 {
        seq!['/']
    } else {
        location.take(start - 1)
    }
}

/// A `/` put in front of a sequence lengthens the run of slashes at its
/// start by one.
pub proof fn lemma_run_end_shift(s: Seq<char>, i: int)
    requires
        0 <= i <= s.len(),
    ensures
        run_end(seq!['/'] + s, i + 1, '/') == run_end(s, i, '/') + 1,
    decreases s.len() - i,
{
    let longer = seq!['/'] + s;
    if i < s.len() {
        assert(longer[i + 1] == s[i]);
        if s[i] == '/' {
            lemma_run_end_shift(s, i + 1);
        }
    }
}

/// A `/` in front of a path changes nothing once the slashes at its start
/// are dropped.
pub proof fn lemma_leading_slash_dropped(s: Seq<char>)
    ensures
        without_leading_char(seq!['/'] + s, '/') == without_leading_char(s, '/'),
{
    let longer = seq!['/'] + s;
    lemma_run_end_shift(s, 0);
    assert(longer[0] == '/');
    assert(run_end(longer, 0, '/') == run_end(longer, 1, '/'));
    lemma_run_end_bounds(s, 0);
    assert(longer.skip(run_end(s, 0, '/') + 1) =~= s.skip(run_end(s, 0, '/')));
}

/// The run of slashes at the start of a sequence ends inside it.
pub proof fn lemma_run_end_bounds(s: Seq<char>, i: int)
    requires
        0 <= i <= s.len(),
    ensures
        i <= run_end(s, i, '/') <= s.len(),
    decreases s.len() - i,
{
    if i < s.len() && s[i] == '/' {
        lemma_run_end_bounds(s, i + 1);
    }
}

/// A working directory written with a slash in front and the same one
/// written without name the same directory, and a file's path likewise the
/// same file.
pub proof fn lemma_absolute_is_relative(
    root: Seq<char>,
    working_dir: Seq<char>,
    path: Seq<char>,
)
    ensures
        effective_dir(root, Some(seq!['/'] + working_dir)) == effective_dir(
            root,
            Some(working_dir),
        ),
        file_location(root, Some(seq!['/'] + working_dir), path) == file_location(
            root,
            Some(working_dir),
            path,
        ),
        file_location(root, Some(working_dir), seq!['/'] + path) == file_location(
            root,
            Some(working_dir),
            path,
        ),
        file_location(root, None, seq!['/'] + path) == file_location(root, None, path),
{
    lemma_leading_slash_dropped(working_dir);
    lemma_leading_slash_dropped(path);
}

fn join_below(dir: &str, rel: &str) -> (r: String)
    ensures
        r@ == below(dir@, rel@),
{
    let d = chars_of(dir);
    let rl = chars_of(rel);
    let mut out = String::from_str(dir);
    if rl.len() == 0 {
        return out;
    }
    if !(d.len() > 0 && d[d.len() - 1] == '/') {
        proof {
            reveal_strlit("/");
            assert("/"@ =~= seq!['/']);
            assert(dir@ + seq!['/'] =~= dir@.push('/'));
        }
        out.append("/");
    }
    out.append(rel);
    out
}

/// The directory in which a command runs.
pub fn working_directory(root: &str, working_dir: Option<&str>) -> (dir: String)
    ensures
        dir@ == effective_dir(
            root@,
            match working_dir {
                Some(d) => Some(d@),
                None => None,
            },
        ),
{
    match working_dir {
        None => String::from_str(root),
        Some(d) => {
            let rel = strip_leading(d, '/');
            join_below(root, rel.as_str())
        },
    }
}

/// The place of a file in the workspace.
pub fn locate_file(root: &str, working_dir: Option<&str>, path: &str) -> (location: String)
    ensures
        location@ == file_location(
            root@,
            match working_dir {
                Some(d) => Some(d@),
                None => None,
            },
            path@,
        ),
{
    let dir = working_directory(root, working_dir);
    let rel = strip_leading(path, '/');
    join_below(dir.as_str(), rel.as_str())
}

/// Splits a location into the directory that holds the file and the file's name.
pub fn split_location(location: &str) -> (parts: (String, String))
    ensures
        parts.0@ == parent_dir(location@),
        parts.1@ == file_name(location@),
{
    let v = chars_of(location);
    let mut start: usize = v.len();
    while start > 0 && v[start - 1] != '/'
        invariant
            start <= v.len(),
            name_start(v@, v.len() as int) == name_start(v@, start as int),
        decreases start,
    {
        start -= 1;
    }
    proof {
        assert(v@.subrange(start as int, v.len() as int) =~= v@.skip(start as int));
    }
    let name = string_of_range(&v, start, v.len());
    let dir = if start == 0 {
        String::new()
    } else if start == 1 {
        proof {
            reveal_strlit("/");
            assert("/"@ =~= seq!['/']);
        }
        String::from_str("/")
    } else {
        proof {
            assert(v@.subrange(0, start - 1) =~= v@.take(start - 1));
        }
        string_of_range(&v, 0, start - 1)
    };
    (dir, name)
}

/// A file on its way into a container: the directory to unpack in, and the
/// archive that holds the file.
#[derive(Debug, Clone, PartialEq, Eq)]
pub struct Upload {
    pub directory: String,
    pub archive: Vec<u8>,
}

/// What `write_file` answers where the path names no file.
pub open spec fn no_file_name_text() -> Seq<char> {
    "No file name specified in path"@
}

/// What `read_file` answers where the archive holds no entry.
pub open spec fn no_file_found_text() -> Seq<char> {
    "No file found in archive"@
}

/// Makes an upload out of a location and the outcome of packing. A location
/// without a file name is refused whatever the packing gave; a packing error
/// is a backend error with the packer's words.
pub fn upload_from(location: &str, packed: Result<Vec<u8>, String>) -> (r: Result<
    Upload,
    WorkspaceError,
>)
    ensures
        file_name(location@).len() == 0 ==> (r matches Err(WorkspaceError::Validation(m)) && m@
            == no_file_name_text()),
        file_name(location@).len() > 0 ==> match packed {
            Ok(bytes) => r matches Ok(u) && u.directory@ == parent_dir(location@) && u.archive
                == bytes,
            Err(text) => r matches Err(WorkspaceError::Backend(m)) && m == text,
        },
{
    let (directory, name) = split_location(location);
    if name.as_str().unicode_len() == 0 {
        return Err(WorkspaceError::Validation(String::from_str("No file name specified in path")));
    }
    match packed {
        Ok(archive) => Ok(Upload { directory, archive }),
        Err(text) => Err(WorkspaceError::Backend(text)),
    }
}

/// What `write_file` answers where the archive does not give the file back.
pub open spec fn unreadable_archive_text() -> Seq<char> {
    "The archive does not hold the file"@
}

/// The archive's first entry is the file `name` with mode `FILE_MODE` and
/// this content.
pub open spec fn holds_file(archive: Seq<u8>, name: Seq<char>, content: Seq<u8>) -> bool {
    tar_first_entry(archive) == Ok::<Option<(Seq<u8>, u32, Seq<u8>)>, Seq<char>>(
        Some((encode_utf8(name), FILE_MODE, content)),
    )
}

/// What a download finds in an archive: the content of its first entry.
pub open spec fn downloaded(archive: Seq<u8>) -> Option<Seq<u8>> {
    match tar_first_entry(archive) {
        Ok(Some(entry)) => Some(entry.2),
        _ => None,
    }
}

/// The command that makes sure the directory of an upload is there; the
/// directory goes in shell-quoted.
pub open spec fn directory_command(directory: Seq<char>) -> Seq<char> {
    "mkdir -p "@ + shell_quoted(directory)
}

/// Whether two byte strings are the same.
pub fn same_bytes(a: &[u8], b: &[u8]) -> (r: bool)
    ensures
        r == (a@ == b@),
{
    if a.len() != b.len() {
        return false;
    }
    let mut i: usize = 0;
    while i < a.len()
        invariant
            i <= a.len(),
            a.len() == b.len(),
            forall|k: int| 0 <= k < i ==> a@[k] == b@[k],
        decreases a.len() - i,
    {
        if a[i] != b[i] {
            return false;
        }
        i += 1;
    }
    proof {
        assert(a@ =~= b@);
    }
    true
}

/// Lets an upload pass only if unpacking its archive gave the file back:
/// under the name `name`, with mode `FILE_MODE`, holding `content`.
pub fn checked_upload(
    prepared: Upload,
    name: &str,
    content: &[u8],
    entry: Result<Option<(Vec<u8>, u32, Vec<u8>)>, String>,
) -> (r: Result<Upload, WorkspaceError>)
    ensures
        match entry {
            Ok(Some((n, m, c))) if n@ == encode_utf8(name@) && m == FILE_MODE && c@ == content@ => r
                == Ok::<Upload, WorkspaceError>(prepared),
            _ => r matches Err(WorkspaceError::Backend(m)) && m@ == unreadable_archive_text(),
        },
{
    match entry {
        Ok(Some((n, m, c))) => {
            if same_bytes(n.as_slice(), name.as_bytes()) && m == FILE_MODE && same_bytes(
                c.as_slice(),
                content,
            ) {
                return Ok(prepared);
            }
        },
        _ => {},
    }
    Err(WorkspaceError::Backend(String::from_str("The archive does not hold the file")))
}

/// Prepares `content` for upload as the file at `path`. Fails with a
/// validation error exactly when the path names no file, and otherwise only
/// with a backend error. An upload that comes back unpacks in the file's
/// directory, and its archive's first entry is the file under its own name,
/// with mode `FILE_MODE` and exactly `content`: the archive is unpacked once
/// here to make sure of it.
pub fn upload(path: &str, content: &[u8], working_dir: Option<&str>) -> (r: Result<
    Upload,
    WorkspaceError,
>)
    ensures
        ({
            let location = file_location(
                CONTAINER_ROOT@,
                match working_dir {
                    Some(d) => Some(d@),
                    None => None,
                },
                path@,
            );
            &&& file_name(location).len() == 0 ==> (r matches Err(WorkspaceError::Validation(m))
                && m@ == no_file_name_text())
            &&& file_name(location).len() > 0 ==> match r {
                Ok(u) => u.directory@ == parent_dir(location) && holds_file(
                    u.archive@,
                    file_name(location),
                    content@,
                ) && downloaded(u.archive@) == Some(content@),
                Err(e) => e is Backend,
            }
        }),
{
    let location = locate_file(CONTAINER_ROOT, working_dir, path);
    let (_, name) = split_location(location.as_str());
    if name.as_str().unicode_len() == 0 {
        return Err(WorkspaceError::Validation(String::from_str("No file name specified in path")));
    }
    match upload_from(location.as_str(), tar_pack(name.as_str(), FILE_MODE, content)) {
        Ok(prepared) => {
            let entry = tar_unpack_first(prepared.archive.as_slice());
            checked_upload(prepared, name.as_str(), content, entry)
        },
        Err(e) => Err(e),
    }
}

/// The command to run before an upload, so that the directory it unpacks in
/// exists.
pub fn upload_directory_command(prepared: &Upload) -> (cmd: String)
    ensures
        cmd@ == directory_command(prepared.directory@),
{
    let mut cmd = String::from_str("mkdir -p ");
    cmd.append(shell_escape(prepared.directory.as_str()).as_str());
    cmd
}

/// The file that an archive delivers, given what unpacking its first entry
/// gave: the entry's content; not found where the archive is empty; a
/// backend error with the unpacker's words where it failed.
pub fn file_from_entry(entry: Result<Option<(Vec<u8>, u32, Vec<u8>)>, String>) -> (r: Result<
    Vec<u8>,
    WorkspaceError,
>)
    ensures
        match entry {
            Ok(Some((_, _, content))) => r == Ok::<Vec<u8>, WorkspaceError>(content),
            Ok(None) => r matches Err(WorkspaceError::NotFound(m)) && m@ == no_file_found_text(),
            Err(text) => r matches Err(WorkspaceError::Backend(m)) && m == text,
        },
{
    match entry {
        Ok(Some((_, _, content))) => Ok(content),
        Ok(None) => Err(WorkspaceError::NotFound(String::from_str("No file found in archive"))),
        Err(text) => Err(WorkspaceError::Backend(text)),
    }
}

/// Reads a downloaded file out of the archive it came in.
pub fn download(archive: &[u8]) -> (r: Result<Vec<u8>, WorkspaceError>)
    ensures
        match tar_first_entry(archive@) {
            Ok(Some(entry)) => r matches Ok(b) && b@ == entry.2,
            Ok(None) => r matches Err(WorkspaceError::NotFound(m)) && m@ == no_file_found_text(),
            Err(text) => r matches Err(WorkspaceError::Backend(m)) && m@ == text,
        },
        match downloaded(archive@) {
            Some(bytes) => r matches Ok(b) && b@ == bytes,
            None => r is Err,
        },
{
    file_from_entry(tar_unpack_first(archive))
}

} // verus!
