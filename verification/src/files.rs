//! Typed records for the remote file-browsing collaborator, and the pure
//! rules it uses: permission formatting, extension-based media-type hints,
//! text detection, and the transfer encoding of downloads and uploads.

use vstd::prelude::*;
use vstd::multiset::Multiset;
use vstd::string::*;
use base64::Engine;
use crate::text::{lower_chars, str_eq, to_ascii_lowercase};

verus! {

/// The largest file a download will serve.
pub const MAX_READ_SIZE: u64 = 10 * 1024 * 1024;

/// The largest file a text preview will read.
pub const MAX_PREVIEW_SIZE: u64 = 512 * 1024;

/// One entry of a directory listing.
#[derive(Debug, Clone)]
pub struct FileEntry {
    pub name: String,
    pub path: String,
    pub file_type: String,
    pub size: u64,
    pub modified: u64,
    pub permissions: String,
    pub hidden: bool,
}

/// The result of a file stat query.
#[derive(Debug, Clone)]
pub struct FileStat {
    pub path: String,
    pub name: String,
    pub file_type: String,
    pub size: u64,
    pub modified: u64,
    pub permissions: String,
    pub readable: bool,
    pub writable: bool,
    pub is_text: bool,
    pub mime_hint: String,
}

/// The nine `rwx` flags of a mode word, owner, group and other.
pub open spec fn perm_flags(mode: u32) -> Seq<char> {
    seq![
        if mode & 0o400 != 0 {
            'r'
        } else {
            '-'
        },
        if mode & 0o200 != 0 {
            'w'
        } else {
            '-'
        },
        if mode & 0o100 != 0 {
            'x'
        } else {
            '-'
        },
        if mode & 0o040 != 0 {
            'r'
        } else {
            '-'
        },
        if mode & 0o020 != 0 {
            'w'
        } else {
            '-'
        },
        if mode & 0o010 != 0 {
            'x'
        } else {
            '-'
        },
        if mode & 0o004 != 0 {
            'r'
        } else {
            '-'
        },
        if mode & 0o002 != 0 {
            'w'
        } else {
            '-'
        },
        if mode & 0o001 != 0 {
            'x'
        } else {
            '-'
        },
    ]
}

/// Renders a mode word as the nine `rwx`/`-` permission flags.
pub fn format_permissions(mode: u32) -> (r: String)
    ensures
        r@ == perm_flags(mode),
{
    let mut s = String::new();
    crate::text::push_char(&mut s, if mode & 0o400 != 0 { 'r' } else { '-' });
    crate::text::push_char(&mut s, if mode & 0o200 != 0 { 'w' } else { '-' });
    crate::text::push_char(&mut s, if mode & 0o100 != 0 { 'x' } else { '-' });
    crate::text::push_char(&mut s, if mode & 0o040 != 0 { 'r' } else { '-' });
    crate::text::push_char(&mut s, if mode & 0o020 != 0 { 'w' } else { '-' });
    crate::text::push_char(&mut s, if mode & 0o010 != 0 { 'x' } else { '-' });
    crate::text::push_char(&mut s, if mode & 0o004 != 0 { 'r' } else { '-' });
    crate::text::push_char(&mut s, if mode & 0o002 != 0 { 'w' } else { '-' });
    crate::text::push_char(&mut s, if mode & 0o001 != 0 { 'x' } else { '-' });
    proof {
        assert(s@ =~= perm_flags(mode));
    }
    s
}

/// The index of the last occurrence of `c` in `s`, or `-1`.
pub open spec fn last_index_of(s: Seq<char>, c: char) -> int
    decreases s.len(),
{
    if s.len() == 0 {
        -1
    } else if s.last() == c {
        s.len() - 1
    } else {
        last_index_of(s.drop_last(), c)
    }
}

pub proof fn lemma_last_index_of_bounds(s: Seq<char>, c: char)
    ensures
        -1 <= last_index_of(s, c) < s.len(),
    decreases s.len(),
{
    if s.len() > 0 && s.last() != c {
        lemma_last_index_of_bounds(s.drop_last(), c);
    }
}

/// The extension of a path: what follows the last dot of the final
/// component, provided that dot is not the component's first character.
pub open spec fn ext_of(path: Seq<char>) -> Seq<char> {
    let comp = path.subrange(last_index_of(path, '/') + 1, path.len() as int);
    let d = last_index_of(comp, '.');
    if d <= 0 {
        Seq::empty()
    } else {
        comp.subrange(d + 1, comp.len() as int)
    }
}

/// The index of the last occurrence of `c`, if any.
fn last_idx(s: &str, c: char) -> (r: Option<usize>)
    ensures
        match r {
            Some(i) => i < s@.len() && last_index_of(s@, c) == i as int,
            None => last_index_of(s@, c) == -1,
        },
{
    let mut j = s.unicode_len();
    proof {
        assert(s@.subrange(0, j as int) =~= s@);
    }
    while j > 0
        invariant
            j <= s@.len(),
            last_index_of(s@, c) == last_index_of(s@.subrange(0, j as int), c),
        decreases j,
    {
        let ch = s.get_char(j - 1);
        proof {
            assert(s@.subrange(0, j as int).last() == s@[j - 1]);
            assert(s@.subrange(0, j as int).drop_last() =~= s@.subrange(0, j - 1 as int));
        }
        if ch == c {
            return Some(j - 1);
        }
        j -= 1;
    }
    proof {
        assert(s@.subrange(0, 0) =~= Seq::<char>::empty());
    }
    None
}

/// Extracts the extension of a path, or an empty string.
pub fn extension_of(name: &str) -> (r: String)
    ensures
        r@ == ext_of(name@),
{
    let n = name.unicode_len();
    let cs: usize = match last_idx(name, '/') {
        Some(i) => i + 1,
        None => 0,
    };
    proof {
        lemma_last_index_of_bounds(name@, '/');
    }
    let comp = name.substring_char(cs, n);
    proof {
        lemma_last_index_of_bounds(comp@, '.');
    }
    match last_idx(comp, '.') {
        Some(i) => {
            if i > 0 {
                let e = comp.substring_char(i + 1, comp.unicode_len());
                e.to_owned()
            } else {
                String::new()
            }
        },
        None => String::new(),
    }
}

/// The media-type hint of a file name, by its lowercased extension.
pub open spec fn mime_of(name: Seq<char>) -> Seq<char> {
    let e = lower_chars(ext_of(name));
    if e == "md"@ || e == "markdown"@ {
        "text/markdown"@
    } else if e == "csv"@ {
        "text/csv"@
    } else if e == "json"@ {
        "application/json"@
    } else if e == "toml"@ {
        "application/toml"@
    } else if e == "yaml"@ || e == "yml"@ {
        "application/yaml"@
    } else if e == "xml"@ || e == "html"@ || e == "htm"@ {
        "text/html"@
    } else if e == "js"@ || e == "mjs"@ || e == "cjs"@ {
        "text/javascript"@
    } else if e == "ts"@ || e == "tsx"@ {
        "text/typescript"@
    } else if e == "rs"@ {
        "text/rust"@
    } else if e == "py"@ {
        "text/python"@
    } else if e == "rb"@ {
        "text/ruby"@
    } else if e == "go"@ {
        "text/go"@
    } else if e == "java"@ {
        "text/java"@
    } else if e == "c"@ || e == "h"@ {
        "text/c"@
    } else if e == "cpp"@ || e == "cc"@ || e == "cxx"@ || e == "hpp"@ {
        "text/cpp"@
    } else if e == "css"@ || e == "scss"@ || e == "less"@ {
        "text/css"@
    } else if e == "sh"@ || e == "bash"@ || e == "zsh"@ || e == "fish"@ {
        "text/shell"@
    } else if e == "sql"@ {
        "text/sql"@
    } else if e == "svelte"@ {
        "text/svelte"@
    } else if e == "vue"@ {
        "text/vue"@
    } else if e == "txt"@ || e == "log"@ || e == "env"@ || e == "gitignore"@ || e
        == "dockerignore"@ {
        "text/plain"@
    } else if e == "png"@ {
        "image/png"@
    } else if e == "jpg"@ || e == "jpeg"@ {
        "image/jpeg"@
    } else if e == "gif"@ {
        "image/gif"@
    } else if e == "svg"@ {
        "image/svg+xml"@
    } else if e == "webp"@ {
        "image/webp"@
    } else if e == "pdf"@ {
        "application/pdf"@
    } else if e == "zip"@ || e == "tar"@ || e == "gz"@ || e == "bz2"@ || e == "xz"@ || e == "7z"@ {
        "application/archive"@
    } else {
        "application/octet-stream"@
    }
}

/// The media-type hint of a file name.
pub fn mime_hint(name: &str) -> (r: String)
    ensures
        r@ == mime_of(name@),
{
    let ext = extension_of(name);
    let lo = to_ascii_lowercase(ext.as_str());
    let e = lo.as_str();
    if str_eq(e, "md") || str_eq(e, "markdown") {
        "text/markdown".to_owned()
    } else if str_eq(e, "csv") {
        "text/csv".to_owned()
    } else if str_eq(e, "json") {
        "application/json".to_owned()
    } else if str_eq(e, "toml") {
        "application/toml".to_owned()
    } else if str_eq(e, "yaml") || str_eq(e, "yml") {
        "application/yaml".to_owned()
    } else if str_eq(e, "xml") || str_eq(e, "html") || str_eq(e, "htm") {
        "text/html".to_owned()
    } else if str_eq(e, "js") || str_eq(e, "mjs") || str_eq(e, "cjs") {
        "text/javascript".to_owned()
    } else if str_eq(e, "ts") || str_eq(e, "tsx") {
        "text/typescript".to_owned()
    } else if str_eq(e, "rs") {
        "text/rust".to_owned()
    } else if str_eq(e, "py") {
        "text/python".to_owned()
    } else if str_eq(e, "rb") {
        "text/ruby".to_owned()
    } else if str_eq(e, "go") {
        "text/go".to_owned()
    } else if str_eq(e, "java") {
        "text/java".to_owned()
    } else if str_eq(e, "c") || str_eq(e, "h") {
        "text/c".to_owned()
    } else if str_eq(e, "cpp") || str_eq(e, "cc") || str_eq(e, "cxx") || str_eq(e, "hpp") {
        "text/cpp".to_owned()
    } else if str_eq(e, "css") || str_eq(e, "scss") || str_eq(e, "less") {
        "text/css".to_owned()
    } else if str_eq(e, "sh") || str_eq(e, "bash") || str_eq(e, "zsh") || str_eq(e, "fish") {
        "text/shell".to_owned()
    } else if str_eq(e, "sql") {
        "text/sql".to_owned()
    } else if str_eq(e, "svelte") {
        "text/svelte".to_owned()
    } else if str_eq(e, "vue") {
        "text/vue".to_owned()
    } else if str_eq(e, "txt") || str_eq(e, "log") || str_eq(e, "env") || str_eq(e, "gitignore")
        || str_eq(e, "dockerignore") {
        "text/plain".to_owned()
    } else if str_eq(e, "png") {
        "image/png".to_owned()
    } else if str_eq(e, "jpg") || str_eq(e, "jpeg") {
        "image/jpeg".to_owned()
    } else if str_eq(e, "gif") {
        "image/gif".to_owned()
    } else if str_eq(e, "svg") {
        "image/svg+xml".to_owned()
    } else if str_eq(e, "webp") {
        "image/webp".to_owned()
    } else if str_eq(e, "pdf") {
        "application/pdf".to_owned()
    } else if str_eq(e, "zip") || str_eq(e, "tar") || str_eq(e, "gz") || str_eq(e, "bz2") || str_eq(
        e,
        "xz",
    ) || str_eq(e, "7z") {
        "application/archive".to_owned()
    } else {
        "application/octet-stream".to_owned()
    }
}

/// Whether a media type alone marks a file as text: any `text/` type, or the
/// structured-text application types.
pub open spec fn mime_is_text(m: Seq<char>) -> bool {
    (m.len() >= 5 && m.subrange(0, 5) == "text/"@) || m == "application/json"@ || m
        == "application/toml"@ || m == "application/yaml"@
}

/// Whether a media type alone marks a file as text.
pub fn mime_text_hint(m: &str) -> (r: bool)
    ensures
        r == mime_is_text(m@),
{
    if m.unicode_len() >= 5 {
        let p = m.substring_char(0, 5);
        if str_eq(p, "text/") {
            return true;
        }
    }
    str_eq(m, "application/json") || str_eq(m, "application/toml") || str_eq(
        m,
        "application/yaml",
    )
}

/// Whether the head of a file's bytes contains no NUL, the content test for
/// files whose media type does not decide.
pub open spec fn head_has_no_nul(b: Seq<u8>, limit: int) -> bool {
    forall|i: int| 0 <= i < b.len() && i < limit ==> b[i] != 0
}

/// Checks the first 512 bytes for binary content: any NUL byte marks the
/// file as not text.
pub fn bytes_look_text(b: &Vec<u8>) -> (r: bool)
    ensures
        r == head_has_no_nul(b@, 512),
{
    let limit: usize = if b.len() < 512 {
        b.len()
    } else {
        512
    };
    let mut i: usize = 0;
    while i < limit
        invariant
            limit <= b@.len(),
            limit == if b@.len() < 512 {
                b@.len() as int
            } else {
                512
            },
            i <= limit,
            forall|j: int| 0 <= j < i ==> b@[j] != 0,
        decreases limit - i,
    {
        if b[i] == 0 {
            return false;
        }
        i += 1;
    }
    true
}

/// What the STANDARD engine encodes a byte sequence to.
pub uninterp spec fn b64_encoding(bytes: Seq<u8>) -> Seq<char>;

/// What the STANDARD engine decodes a text to, when it decodes at all.
pub uninterp spec fn b64_decoding(s: Seq<char>) -> Option<Seq<u8>>;

/// Relies on base64's STANDARD engine encode: the padded standard-alphabet
/// encoding, a function of the bytes alone, which the engine's own decode
/// inverts.
#[verifier::external_body]
fn b64_encode(bytes: &Vec<u8>) -> (r: String)
    ensures
        r@ == b64_encoding(bytes@),
        b64_decoding(r@) == Some(bytes@),
{
    base64::engine::general_purpose::STANDARD.encode(bytes)
}

/// Relies on base64's STANDARD engine decode: succeeds exactly on texts the
/// STANDARD engine accepts, giving the decoded bytes; the failure carries
/// the engine's diagnostic.
#[verifier::external_body]
fn b64_decode(data: &str) -> (r: Result<Vec<u8>, String>)
    ensures
        match r {
            Ok(v) => b64_decoding(data@) == Some(v@),
            Err(_) => b64_decoding(data@) is None,
        },
{
    match base64::engine::general_purpose::STANDARD.decode(data) {
        Ok(v) => Ok(v),
        Err(e) => Err(format!("invalid base64: {}", e)),
    }
}

/// Encodes a file's bytes for a download payload. Decoding the result gives
/// the bytes back.
pub fn encode_file_data(bytes: &Vec<u8>) -> (r: String)
    ensures
        r@ == b64_encoding(bytes@),
        b64_decoding(r@) == Some(bytes@),
{
    b64_encode(bytes)
}

/// Decodes an upload payload: exactly the texts the transfer encoding
/// accepts give bytes, and an encoded download round-trips to the bytes it
/// was made from.
pub fn decode_file_data(data: &str) -> (r: Result<Vec<u8>, String>)
    ensures
        match r {
            Ok(v) => b64_decoding(data@) == Some(v@),
            Err(_) => b64_decoding(data@) is None,
        },
{
    b64_decode(data)
}

/// Code-point lexicographic order on character sequences, matching the byte
/// order of their encoded forms.
pub open spec fn lex_le(x: Seq<char>, y: Seq<char>) -> bool
    decreases x.len(),
{
    if x.len() == 0 {
        true
    } else if y.len() == 0 {
        false
    } else if x[0] != y[0] {
        (x[0] as u32) < (y[0] as u32)
    } else {
        lex_le(x.drop_first(), y.drop_first())
    }
}

pub proof fn lemma_lex_le_total(x: Seq<char>, y: Seq<char>)
    ensures
        lex_le(x, y) || lex_le(y, x),
    decreases x.len(),
{
    if x.len() > 0 && y.len() > 0 {
        if x[0] == y[0] {
            lemma_lex_le_total(x.drop_first(), y.drop_first());
        } else {
            vstd::utf8::char_u32_cast(x[0], x[0] as u32);
            vstd::utf8::char_u32_cast(y[0], y[0] as u32);
        }
    }
}

pub proof fn lemma_lex_le_trans(x: Seq<char>, y: Seq<char>, z: Seq<char>)
    requires
        lex_le(x, y),
        lex_le(y, z),
    ensures
        lex_le(x, z),
    decreases x.len(),
{
    if x.len() > 0 && y.len() > 0 && z.len() > 0 {
        if x[0] == y[0] && y[0] == z[0] {
            lemma_lex_le_trans(x.drop_first(), y.drop_first(), z.drop_first());
        } else {
            vstd::utf8::char_u32_cast(x[0], x[0] as u32);
            vstd::utf8::char_u32_cast(y[0], y[0] as u32);
            vstd::utf8::char_u32_cast(z[0], z[0] as u32);
        }
    }
}

/// The listing order: directories first, then names compared
/// case-insensitively.
pub open spec fn entry_le(a: FileEntry, b: FileEntry) -> bool {
    let an = (a.file_type@ != "dir"@);
    let bn = (b.file_type@ != "dir"@);
    if an != bn {
        !an
    } else {
        lex_le(lower_chars(a.name@), lower_chars(b.name@))
    }
}

pub proof fn lemma_entry_le_total(a: FileEntry, b: FileEntry)
    ensures
        entry_le(a, b) || entry_le(b, a),
{
    lemma_lex_le_total(lower_chars(a.name@), lower_chars(b.name@));
}

pub proof fn lemma_entry_le_trans(a: FileEntry, b: FileEntry, c: FileEntry)
    requires
        entry_le(a, b),
        entry_le(b, c),
    ensures
        entry_le(a, c),
{
    let an = (a.file_type@ != "dir"@);
    let bn = (b.file_type@ != "dir"@);
    let cn = (c.file_type@ != "dir"@);
    if an == bn && bn == cn {
        lemma_lex_le_trans(
            lower_chars(a.name@),
            lower_chars(b.name@),
            lower_chars(c.name@),
        );
    }
}

/// Compares two character sequences in the listing order.
fn lex_le_exec(x: &str, y: &str) -> (r: bool)
    ensures
        r == lex_le(x@, y@),
{
    let nx = x.unicode_len();
    let ny = y.unicode_len();
    let mut i: usize = 0;
    proof {
        assert(x@.subrange(0, nx as int) =~= x@);
        assert(y@.subrange(0, ny as int) =~= y@);
    }
    while i < nx && i < ny
        invariant
            nx == x@.len(),
            ny == y@.len(),
            i <= nx,
            i <= ny,
            lex_le(x@, y@) == lex_le(
                x@.subrange(i as int, nx as int),
                y@.subrange(i as int, ny as int),
            ),
        decreases nx - i,
    {
        let cx = x.get_char(i);
        let cy = y.get_char(i);
        proof {
            assert(x@.subrange(i as int, nx as int)[0] == x@[i as int]);
            assert(y@.subrange(i as int, ny as int)[0] == y@[i as int]);
            assert(x@.subrange(i as int, nx as int).drop_first() =~= x@.subrange(
                i + 1 as int,
                nx as int,
            ));
            assert(y@.subrange(i as int, ny as int).drop_first() =~= y@.subrange(
                i + 1 as int,
                ny as int,
            ));
        }
        if cx != cy {
            return (cx as u32) < (cy as u32);
        }
        i += 1;
    }
    i == nx
}

/// Compares two listing entries.
pub fn entry_le_exec(a: &FileEntry, b: &FileEntry) -> (r: bool)
    ensures
        r == entry_le(*a, *b),
{
    let an = !str_eq(a.file_type.as_str(), "dir");
    let bn = !str_eq(b.file_type.as_str(), "dir");
    if an != bn {
        !an
    } else {
        let la = to_ascii_lowercase(a.name.as_str());
        let lb = to_ascii_lowercase(b.name.as_str());
        lex_le_exec(la.as_str(), lb.as_str())
    }
}

proof fn lemma_insert_multiset(s: Seq<FileEntry>, j: int, e: FileEntry)
    requires
        0 <= j <= s.len(),
    ensures
        s.insert(j, e).to_multiset() == s.to_multiset().insert(e),
{
    broadcast use vstd::seq_lib::group_to_multiset_ensures;

    let t = s.insert(j, e);
    assert(t[j] == e);
    assert(t.remove(j) =~= s);
    assert(t.remove(j).to_multiset() =~= t.to_multiset().remove(e));
    assert(t.contains(e));
    assert(t.to_multiset().count(e) > 0);
    assert(t.to_multiset() =~= s.to_multiset().insert(e));
}

/// Sorts a listing: directories first, then case-insensitive name order.
/// The result holds exactly the given entries.
pub fn sort_entries(v: Vec<FileEntry>) -> (r: Vec<FileEntry>)
    ensures
        r@.to_multiset() == v@.to_multiset(),
        forall|i: int, j: int| 0 <= i < j < r@.len() ==> entry_le(#[trigger] r@[i], #[trigger] r@[j]),
{
    broadcast use vstd::seq_lib::group_to_multiset_ensures;

    let ghost orig = v@;
    let mut v = v;
    let mut r: Vec<FileEntry> = Vec::new();
    while v.len() > 0
        invariant
            r@.to_multiset().add(v@.to_multiset()) =~= orig.to_multiset(),
            forall|i: int, j: int|
                0 <= i < j < r@.len() ==> entry_le(#[trigger] r@[i], #[trigger] r@[j]),
        decreases v@.len(),
    {
        let ghost vpre = v@;
        let e = v.remove(0);
        let mut j = r.len();
        while j > 0 && !entry_le_exec(&r[j - 1], &e)
            invariant
                j <= r@.len(),
                forall|m: int| j <= m < r@.len() ==> !entry_le(#[trigger] r@[m], e),
            decreases j,
        {
            j -= 1;
        }
        proof {
            assert forall|m: int| 0 <= m < j implies entry_le(#[trigger] r@[m], e) by {
                if m < j - 1 {
                    lemma_entry_le_trans(r@[m], r@[j - 1], e);
                }
            }
            assert forall|m: int| j <= m < r@.len() implies entry_le(e, #[trigger] r@[m]) by {
                lemma_entry_le_total(r@[m], e);
            }
        }
        let ghost rpre = r@;
        proof {
            lemma_insert_multiset(rpre, j as int, e);
        }
        r.insert(j, e);
        proof {
            vpre.to_multiset_ensures();
            assert(vpre[0] == e);
            assert(v@ == vpre.remove(0));
            assert(vpre.remove(0).to_multiset() =~= vpre.to_multiset().remove(vpre[0]));
            assert(v@.to_multiset() =~= vpre.to_multiset().remove(e));
            assert(vpre.contains(e));
            assert(vpre.to_multiset().count(e) > 0);
            assert(r@.to_multiset() =~= rpre.to_multiset().insert(e));
            assert(r@.to_multiset().add(v@.to_multiset()) =~= orig.to_multiset());
        }
        proof {
            let t = r@;
            assert forall|i1: int, j1: int|
                0 <= i1 < j1 < t.len() implies entry_le(#[trigger] t[i1], #[trigger] t[j1]) by {
                let jj = j as int;
                if i1 < jj && j1 == jj {
                } else if i1 == jj && j1 > jj {
                } else if j1 < jj {
                    assert(t[i1] == rpre[i1] && t[j1] == rpre[j1]);
                } else if i1 > jj {
                    assert(t[i1] == rpre[i1 - 1] && t[j1] == rpre[j1 - 1]);
                } else {
                    assert(i1 < jj && j1 > jj);
                    assert(t[i1] == rpre[i1] && t[j1] == rpre[j1 - 1]);
                    lemma_entry_le_trans(rpre[i1], e, rpre[j1 - 1]);
                }
            }
        }
    }
    proof {
        assert(v@.to_multiset() =~= Multiset::<FileEntry>::empty());
        assert(r@.to_multiset() =~= orig.to_multiset());
    }
    r
}

} // verus!