//! Classification of a regular file: too long a path, binary, too large, or
//! normal.
use vstd::prelude::*;

verus! {

/// Longest relative path, in characters, that is still processed.
pub const MAX_PATH_CHARS: usize = 200;

/// How many leading bytes of a file are searched for a null byte.
pub const SNIFF_BYTES: usize = 8192;

/// Largest size, in bytes, of a file that is still processed.
pub const MAX_FILE_BYTES: u64 = 1000000;

/// What becomes of a regular file.
#[derive(PartialEq, Eq, Structural, Clone, Copy, Debug)]
pub enum Classification {
    Binary,
    TooLarge,
    TooLongPath,
    Normal,
}

/// What was learnt of a file on disk.
pub struct FileFacts {
    /// Its first bytes, at most `SNIFF_BYTES` of them; `None` when it could
    /// not be opened or read.
    pub prefix: Option<Vec<u8>>,
    /// Its size in bytes; `None` when its metadata could not be read.
    pub size: Option<u64>,
}

/// The extensions of images, documents, archives, executables and media.
pub open spec fn binary_extensions() -> Seq<Seq<char>> {
    seq![
        "png"@, "jpg"@, "jpeg"@, "gif"@, "bmp"@, "tiff"@,
        "pdf"@, "doc"@, "docx"@, "xls"@, "xlsx"@, "ppt"@, "pptx"@,
        "zip"@, "tar"@, "gz"@, "rar"@, "7z"@,
        "exe"@, "dll"@, "so"@, "dylib"@, "bin"@,
        "mp3"@, "mp4"@, "wav"@, "avi"@, "mov"@,
    ]
}

/// What `str::to_lowercase` makes of a text.
pub uninterp spec fn lower_of(s: Seq<char>) -> Seq<char>;

/// Relies on `str::to_lowercase`: the text in lower case.
#[verifier::external_body]
fn lowercase(s: &str) -> (r: String)
    ensures
        r@ == lower_of(s@),
{
    s.to_lowercase()
}

/// The index of the last dot of a name, or -1 where it has none.
pub open spec fn last_dot(name: Seq<char>) -> int
    decreases name.len(),
{
    if name.len() == 0 {
        -1
    } else if name.last() == '.' {
        name.len() - 1
    } else {
        last_dot(name.drop_last())
    }
}

proof fn lemma_last_dot_bounds(name: Seq<char>)
    ensures
        -1 <= last_dot(name) < name.len(),
        last_dot(name) >= 0 ==> name[last_dot(name)] == '.',
    decreases name.len(),
{
    if name.len() > 0 && name.last() != '.' {
        lemma_last_dot_bounds(name.drop_last());
    }
}

/// The extension of a file name: what follows its last dot, where that dot is
/// not its first character.
pub open spec fn extension_of(name: Seq<char>) -> Option<Seq<char>> {
    let k = last_dot(name);
    if k <= 0 {
        None
    } else {
        Some(name.subrange(k + 1, name.len() as int))
    }
}

/// The extension of a file name, as `Path::extension` has it.
pub fn extension(name: &str) -> (r: Option<String>)
    ensures
        r matches Some(e) ==> extension_of(name@) == Some(e@),
        r is None ==> extension_of(name@) is None,
{
    let len = name.unicode_len();
    let mut k: usize = len;
    assert(name@.subrange(0, len as int) =~= name@);
    while k > 0
        invariant
            k <= len == name@.len(),
            last_dot(name@) == last_dot(name@.subrange(0, k as int)),
        decreases k,
    {
        let ghost pre = name@.subrange(0, k as int);
        assert(pre.drop_last() =~= name@.subrange(0, k - 1));
        if name.get_char(k - 1) == '.' {
            proof {
                lemma_last_dot_bounds(name@);
            }
            if k == 1 {
                return None;
            }
            return Some(String::from_str(name.substring_char(k, len)));
        }
        k = k - 1;
    }
    None
}

/// Whether an extension, already in lower case, is one of the binary ones.
pub fn is_listed_extension(lowered: &String) -> (r: bool)
    ensures
        r == binary_extensions().contains(lowered@),
{
    let mut list: Vec<String> = Vec::new();
    list.push(String::from_str("png"));
    list.push(String::from_str("jpg"));
    list.push(String::from_str("jpeg"));
    list.push(String::from_str("gif"));
    list.push(String::from_str("bmp"));
    list.push(String::from_str("tiff"));
    list.push(String::from_str("pdf"));
    list.push(String::from_str("doc"));
    list.push(String::from_str("docx"));
    list.push(String::from_str("xls"));
    list.push(String::from_str("xlsx"));
    list.push(String::from_str("ppt"));
    list.push(String::from_str("pptx"));
    list.push(String::from_str("zip"));
    list.push(String::from_str("tar"));
    list.push(String::from_str("gz"));
    list.push(String::from_str("rar"));
    list.push(String::from_str("7z"));
    list.push(String::from_str("exe"));
    list.push(String::from_str("dll"));
    list.push(String::from_str("so"));
    list.push(String::from_str("dylib"));
    list.push(String::from_str("bin"));
    list.push(String::from_str("mp3"));
    list.push(String::from_str("mp4"));
    list.push(String::from_str("wav"));
    list.push(String::from_str("avi"));
    list.push(String::from_str("mov"));
    let ghost exts = list@.map_values(|s: String| s@);
    assert(exts =~= binary_extensions());
    let mut i: usize = 0;
    while i < list.len()
        invariant
            i <= list@.len(),
            exts == list@.map_values(|s: String| s@),
            exts == binary_extensions(),
            forall|j: int| 0 <= j < i ==> list@[j]@ != lowered@,
        decreases list@.len() - i,
    {
        if list[i] == *lowered {
            assert(exts[i as int] == lowered@);
            return true;
        }
        i = i + 1;
    }
    assert(!exts.contains(lowered@));
    false
}

/// A file name whose extension, in lower case, is a binary one.
pub open spec fn has_binary_extension(name: Seq<char>) -> bool {
    match extension_of(name) {
        Some(e) => binary_extensions().contains(lower_of(e)),
        None => false,
    }
}

/// Whether the extension of a file name marks it as binary, in any case.
pub fn is_binary_name(name: &str) -> (r: bool)
    ensures
        r == has_binary_extension(name@),
{
    match extension(name) {
        Some(e) => {
            let lowered = lowercase(e.as_str());
            is_listed_extension(&lowered)
        },
        None => false,
    }
}

/// A null byte among the first `SNIFF_BYTES` bytes.
pub open spec fn has_null_prefix(bytes: Seq<u8>) -> bool {
    exists|i: int| 0 <= i < bytes.len() && i < SNIFF_BYTES && #[trigger] bytes[i] == 0
}

/// Whether a null byte stands among the first `SNIFF_BYTES` bytes.
pub fn contains_null(bytes: &[u8]) -> (r: bool)
    ensures
        r == has_null_prefix(bytes@),
{
    let n: usize = if bytes.len() < SNIFF_BYTES { bytes.len() } else { SNIFF_BYTES };
    let mut i: usize = 0;
    while i < n
        invariant
            i <= n <= bytes@.len(),
            n <= SNIFF_BYTES,
            n == bytes@.len() || n == SNIFF_BYTES,
            forall|j: int| 0 <= j < i ==> bytes@[j] != 0,
        decreases n - i,
    {
        if bytes[i] == 0 {
            return true;
        }
        i = i + 1;
    }
    false
}

/// A file is binary when its extension is a binary one, when it could not be
/// read, or when a null byte stands in its first bytes; an empty readable file
/// with another extension is not.
pub open spec fn is_binary(name: Seq<char>, prefix: Option<Seq<u8>>) -> bool {
    has_binary_extension(name) || match prefix {
        Some(b) => has_null_prefix(b),
        None => true,
    }
}

/// The classification of a file, checked in order: the path's length, then
/// binary content, then size. An unknown size counts as small enough.
pub open spec fn classification(
    rel: Seq<char>,
    name: Seq<char>,
    prefix: Option<Seq<u8>>,
    size: Option<u64>,
) -> Classification {
    if rel.len() > MAX_PATH_CHARS {
        Classification::TooLongPath
    } else if is_binary(name, prefix) {
        Classification::Binary
    } else if size matches Some(s) && s > MAX_FILE_BYTES {
        Classification::TooLarge
    } else {
        Classification::Normal
    }
}

/// The view of what was learnt of a file's first bytes.
pub open spec fn prefix_view(p: Option<Vec<u8>>) -> Option<Seq<u8>> {
    match p {
        Some(v) => Some(v@),
        None => None,
    }
}

/// Whether a relative path is too long to be processed; it is checked before
/// the file is opened.
pub fn path_too_long(rel: &str) -> (r: bool)
    ensures
        r == (rel@.len() > MAX_PATH_CHARS),
{
    rel.unicode_len() > MAX_PATH_CHARS
}

/// Classifies the file at relative path `rel` whose base name is `name`.
pub fn classify(rel: &str, name: &str, facts: &FileFacts) -> (r: Classification)
    ensures
        r == classification(rel@, name@, prefix_view(facts.prefix), facts.size),
{
    if path_too_long(rel) {
        return Classification::TooLongPath;
    }
    let binary = is_binary_name(name) || match &facts.prefix {
        Some(b) => contains_null(b.as_slice()),
        None => true,
    };
    if binary {
        Classification::Binary
    } else {
        match facts.size {
            Some(s) => if s > MAX_FILE_BYTES {
                Classification::TooLarge
            } else {
                Classification::Normal
            },
            None => Classification::Normal,
        }
    }
}

/// A file with a null byte among its first bytes, or with a binary extension,
/// is binary whatever its size, once its path is short enough to be looked at.
pub proof fn lemma_binary_whatever_size(
    rel: Seq<char>,
    name: Seq<char>,
    prefix: Option<Seq<u8>>,
    size: Option<u64>,
)
    requires
        rel.len() <= MAX_PATH_CHARS,
        has_binary_extension(name) || (prefix matches Some(b) && has_null_prefix(b)),
    ensures
        classification(rel, name, prefix, size) == Classification::Binary,
{
}

/// A relative path longer than `MAX_PATH_CHARS` characters classifies as too
/// long, whatever the file holds or its size.
pub proof fn lemma_long_path_first(
    rel: Seq<char>,
    name: Seq<char>,
    prefix: Option<Seq<u8>>,
    size: Option<u64>,
)
    requires
        rel.len() > MAX_PATH_CHARS,
    ensures
        classification(rel, name, prefix, size) == Classification::TooLongPath,
{
}

} // verus!
