//! The calls that leave this crate. Each function here is believed, not
//! proved: its body makes the calls that its comment names and nothing else,
//! and its contract restates what those functions document.
use vstd::prelude::*;
use vstd::utf8::encode_utf8;
use crate::text::digit_char;

verus! {

/// `String::push`: appends one character to the end of the string and
/// leaves what was there untouched.
#[verifier::external_body]
pub(crate) fn push_char(s: &mut String, c: char)
    ensures
        final(s)@ == old(s)@.push(c),
{
    s.push(c)
}

/// A character that a POSIX shell reads as itself.
pub open spec fn shell_safe_char(c: char) -> bool {
    ||| ('a' <= c && c <= 'z')
    ||| ('A' <= c && c <= 'Z')
    ||| ('0' <= c && c <= '9')
    ||| c == '-'
    ||| c == '_'
    ||| c == '='
    ||| c == '/'
    ||| c == ','
    ||| c == '.'
    ||| c == '+'
}

/// The inside of a single-quoted word: every character as it is, but for
/// `'` and `!`, which leave the quotes, stand behind a backslash and enter
/// them again.
pub open spec fn single_quoted_body(s: Seq<char>) -> Seq<char>
    decreases s.len(),
{
    if s.len() == 0 {
        Seq::empty()
    } else if s.last() == '\'' || s.last() == '!' {
        single_quoted_body(s.drop_last()) + seq!['\'', '\\', s.last(), '\'']
    } else {
        single_quoted_body(s.drop_last()).push(s.last())
    }
}

/// A word as a POSIX shell must be given it: unchanged where it is not empty
/// and made of safe characters only, in single quotes otherwise.
pub open spec fn shell_quoted(s: Seq<char>) -> Seq<char> {
    if s.len() > 0 && (forall|i: int| 0 <= i < s.len() ==> shell_safe_char(#[trigger] s[i])) {
        s
    } else {
        seq!['\''] + single_quoted_body(s) + seq!['\'']
    }
}

/// `shell_escape::unix::escape`: returns its argument where that is not
/// empty and holds only letters, digits and `-_=/,.+`; otherwise the argument
/// between single quotes, each `'` and `!` in it written as `'\c'`.
#[verifier::external_body]
pub(crate) fn shell_escape(s: &str) -> (quoted: String)
    ensures
        quoted@ == shell_quoted(s@),
{
    shell_escape::unix::escape(std::borrow::Cow::Borrowed(s)).into_owned()
}

/// How many characters a UUID has in its hyphenated form.
pub const UUID_TEXT_LEN: usize = 36;

/// The shape of a UUID in its hyphenated form: 36 characters, each a
/// lower-case hexadecimal digit or a hyphen.
pub open spec fn is_uuid_text(id: Seq<char>) -> bool {
    &&& id.len() == UUID_TEXT_LEN
    &&& forall|i: int| 0 <= i < id.len() ==> is_hex_digit(#[trigger] id[i]) || id[i] == '-'
}

/// `uuid::Uuid::new_v4` rendered by `to_string`: a fresh random identifier
/// in the hyphenated form, which is 36 characters long and made of
/// lower-case hexadecimal digits and hyphens. Which identifier comes is left
/// to chance: every call may return another one.
#[verifier::external_body]
pub(crate) fn fresh_uuid() -> (id: String)
    ensures
        is_uuid_text(id@),
{
    uuid::Uuid::new_v4().to_string()
}

/// The SHA-256 digest of a byte string.
pub uninterp spec fn sha256(data: Seq<u8>) -> Seq<u8>;

/// `sha2::Sha256::digest`: the SHA-256 digest of `data`, which is 32 bytes long.
#[verifier::external_body]
pub(crate) fn sha256_digest(data: &[u8]) -> (digest: Vec<u8>)
    ensures
        digest@ == sha256(data@),
        digest@.len() == 32,
{
    <sha2::Sha256 as sha2::Digest>::digest(data).to_vec()
}

/// The lower-case hexadecimal digit that writes `d`, for `d` below sixteen.
pub open spec fn hex_digit(d: int) -> char {
    if d < 10 {
        digit_char(d)
    } else if d == 10 {
        'a'
    } else if d == 11 {
        'b'
    } else if d == 12 {
        'c'
    } else if d == 13 {
        'd'
    } else if d == 14 {
        'e'
    } else {
        'f'
    }
}

/// One of the sixteen lower-case hexadecimal digits.
pub open spec fn is_hex_digit(c: char) -> bool {
    exists|d: int| 0 <= d < 16 && c == hex_digit(d)
}

/// Each byte as two lower-case hexadecimal digits, high digit first.
pub open spec fn hex_text(data: Seq<u8>) -> Seq<char>
    decreases data.len(),
{
    if data.len() == 0 {
        Seq::empty()
    } else {
        hex_text(data.drop_last()) + seq![
            hex_digit(data.last() as int / 16),
            hex_digit(data.last() as int % 16),
        ]
    }
}

/// `hex::encode`: every byte of `data` written as two hexadecimal digits, in
/// lower case.
#[verifier::external_body]
pub(crate) fn hex_encode(data: &[u8]) -> (text: String)
    ensures
        text@ == hex_text(data@),
{
    hex::encode(data)
}

/// `tar::Header::new_gnu`, `set_path`, `set_size`, `set_mode` and
/// `set_cksum`, then `tar::Builder::append` and `into_inner`: an archive
/// that holds one file. How a name is written into the header depends on the
/// platform's path rules, so nothing is claimed of the bytes; an error of the
/// crate comes back as its text.
#[verifier::external_body]
pub(crate) fn tar_pack(file_name: &str, mode: u32, content: &[u8]) -> (archive: Result<
    Vec<u8>,
    String,
>) {
    let mut header = tar::Header::new_gnu();
    header.set_path(file_name).map_err(|e| e.to_string())?;
    header.set_size(content.len() as u64);
    header.set_mode(mode);
    header.set_cksum();
    let mut builder = tar::Builder::new(Vec::new());
    builder.append(&header, content).map_err(|e| e.to_string())?;
    builder.into_inner().map_err(|e| e.to_string())
}

/// What reading the first entry of a tar archive gives: the bytes of the
/// entry's path, its mode and its content; `None` for an archive without
/// entries; or the text of the crate's error.
pub uninterp spec fn tar_first_entry(archive: Seq<u8>) -> Result<
    Option<(Seq<u8>, u32, Seq<u8>)>,
    Seq<char>,
>;

/// `tar::Archive::entries` and the first item of the iterator it returns;
/// of that entry `Entry::path_bytes`, `Header::mode`, and
/// `std::io::Read::read_to_end`.
#[verifier::external_body]
pub(crate) fn tar_unpack_first(archive: &[u8]) -> (entry: Result<
    Option<(Vec<u8>, u32, Vec<u8>)>,
    String,
>)
    ensures
        tar_first_entry(archive@) == match entry {
            Ok(Some((name, mode, content))) => Ok::<Option<(Seq<u8>, u32, Seq<u8>)>, Seq<char>>(
                Some((name@, mode, content@)),
            ),
            Ok(None) => Ok(None),
            Err(text) => Err(text@),
        },
{
    let mut reader = tar::Archive::new(archive);
    let mut entries = reader.entries().map_err(|e| e.to_string())?;
    match entries.next() {
        None => Ok(None),
        Some(entry) => {
            let mut entry = entry.map_err(|e| e.to_string())?;
            let name = entry.path_bytes().into_owned();
            let mode = entry.header().mode().map_err(|e| e.to_string())?;
            let mut content = Vec::new();
            std::io::Read::read_to_end(&mut entry, &mut content).map_err(|e| e.to_string())?;
            Ok(Some((name, mode, content)))
        },
    }
}

/// What parsing a URL gives: its path, and its path segments where it has
/// any (a URL that cannot be a base has none); or the text of the parser's
/// error.
pub uninterp spec fn url_parts(url: Seq<char>) -> Result<
    (Seq<char>, Option<Seq<Seq<char>>>),
    Seq<char>,
>;

/// `url::Url::parse`, then `Url::path` and `Url::path_segments`, the
/// segments collected in order.
#[verifier::external_body]
pub(crate) fn url_parse(url: &str) -> (parts: Result<(String, Option<Vec<String>>), String>)
    ensures
        url_parts(url@) == match parts {
            Ok((path, Some(segments))) => Ok::<(Seq<char>, Option<Seq<Seq<char>>>), Seq<char>>(
                (path@, Some(segments.deep_view())),
            ),
            Ok((path, None)) => Ok((path@, None)),
            Err(text) => Err(text@),
        },
{
    let parsed = url::Url::parse(url).map_err(|e| e.to_string())?;
    let segments = parsed.path_segments().map(|parts| parts.map(String::from).collect());
    Ok((String::from(parsed.path()), segments))
}

/// The path segments of a URL, as parsing gives them.
pub open spec fn url_segments(url: Seq<char>) -> Result<Option<Seq<Seq<char>>>, Seq<char>> {
    match url_parts(url) {
        Ok(parts) => Ok(parts.1),
        Err(text) => Err(text),
    }
}

/// The path of a URL, as parsing gives it.
pub open spec fn url_path_of(url: Seq<char>) -> Result<Seq<char>, Seq<char>> {
    match url_parts(url) {
        Ok(parts) => Ok(parts.0),
        Err(text) => Err(text),
    }
}

/// What a URL reads as once a user name and a password are set in it:
/// `None` where the URL takes no credentials, or the text of the parser's
/// error.
pub uninterp spec fn url_with_credentials(
    url: Seq<char>,
    username: Seq<char>,
    password: Seq<char>,
) -> Result<Option<Seq<char>>, Seq<char>>;

/// The most bytes a URL, a user name or a password may have for
/// credentials to be set.
pub const CREDENTIAL_BYTES_LIMIT: usize = 1_048_576;

/// `url::Url::parse`, `Url::set_username`, `Url::set_password` and the
/// URL's serialization. Both setters are called; `None` comes back where
/// either refused. The setters keep offsets into the URL as 32-bit numbers
/// and do not return where the URL outgrows them, so none of the three texts
/// may have more than `CREDENTIAL_BYTES_LIMIT` bytes: percent-encoded, they
/// then stay far below that size.
#[verifier::external_body]
pub(crate) fn url_set_credentials(url: &str, username: &str, password: &str) -> (r: Result<
    Option<String>,
    String,
>)
    requires
        encode_utf8(url@).len() <= CREDENTIAL_BYTES_LIMIT,
        encode_utf8(username@).len() <= CREDENTIAL_BYTES_LIMIT,
        encode_utf8(password@).len() <= CREDENTIAL_BYTES_LIMIT,
    ensures
        url_with_credentials(url@, username@, password@) == match r {
            Ok(Some(u)) => Ok::<Option<Seq<char>>, Seq<char>>(Some(u@)),
            Ok(None) => Ok(None),
            Err(text) => Err(text@),
        },
{
    let mut parsed = url::Url::parse(url).map_err(|e| e.to_string())?;
    let named = parsed.set_username(username);
    let keyed = parsed.set_password(Some(password));
    match (named, keyed) {
        (Ok(()), Ok(())) => Ok(Some(parsed.to_string())),
        _ => Ok(None),
    }
}

/// What decoding standard Base64 gives: the bytes, or the text of the
/// decoder's error.
pub uninterp spec fn base64_decoded(text: Seq<char>) -> Result<Seq<u8>, Seq<char>>;

/// `base64::Engine::decode` on the engine `general_purpose::STANDARD`.
#[verifier::external_body]
pub(crate) fn base64_decode(text: &str) -> (bytes: Result<Vec<u8>, String>)
    ensures
        base64_decoded(text@) == match bytes {
            Ok(b) => Ok::<Seq<u8>, Seq<char>>(b@),
            Err(e) => Err(e@),
        },
{
    base64::Engine::decode(&base64::engine::general_purpose::STANDARD, text).map_err(
        |e| e.to_string(),
    )
}

/// `rand::Rng::sample_iter` on `rand::thread_rng` with the distribution
/// `Alphanumeric`, cut off after `len` samples. Which bytes come is left to
/// chance; there are `len` of them.
#[verifier::external_body]
pub(crate) fn random_alphanumeric(len: usize) -> (samples: Vec<u8>)
    ensures
        samples@.len() == len,
{
    rand::Rng::sample_iter(rand::thread_rng(), &rand::distributions::Alphanumeric).take(len).collect()
}

} // verus!
