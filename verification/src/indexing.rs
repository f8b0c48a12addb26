//! Indexing local files for knowledge search: which files are read, how
//! their text is prepared and chunked, when a stored document is left as
//! it is, and which retrieved chunks go into a prompt.
use vstd::prelude::*;
use crate::chunking::{chunk_text, chunk_text_spec, chunks_view, PreparedChunk};
use crate::digits::{fnv1a, hash_bytes, hex_digits, int_text_padded, push_int_padded};
use crate::chat::opt_string_view;
use crate::domain::string_result_view;
use crate::text::{
    chars_of, chars_eq, extend_chars, extend_str, join_chars, join_with, lower_seq, string_of,
    to_ascii_lower, trim, trim_str, views,
};

verus! {

/// Largest file read, in bytes.
pub const MAX_FILE_BYTES: u64 = 2 * 1024 * 1024;

/// Results asked of the index for a prompt.
pub const PROMPT_SEARCH_LIMIT: i64 = 32;

/// Most chunks put into a prompt.
pub const PROMPT_CHUNK_LIMIT: usize = 8;

/// Most chunks of one document put into a prompt.
pub const PROMPT_CHUNKS_PER_DOCUMENT: usize = 2;

pub open spec fn supported_list() -> Seq<Seq<char>> {
    seq![
        "md"@, "txt"@, "json"@, "rs"@, "ts"@, "tsx"@, "js"@, "jsx"@, "py"@, "toml"@, "yaml"@,
        "yml"@,
    ]
}

/// `supported_extensions`: the file extensions that are indexed.
pub fn supported_extensions() -> (r: Vec<&'static str>)
    ensures
        r@.map_values(|e: &'static str| e@) == supported_list(),
{
    let r = vec!["md", "txt", "json", "rs", "ts", "tsx", "js", "jsx", "py", "toml", "yaml", "yml"];
    assert(r@.map_values(|e: &'static str| e@) =~= supported_list());
    r
}

/// The extension of a file name as `Path::extension` reads it: the text
/// after the last '.', unless that '.' starts the name.
pub open spec fn name_extension(name: Seq<char>) -> Option<Seq<char>> {
    if exists|i: int| 0 < i < name.len() && name[i] == '.' {
        let i = choose|i: int|
            0 < i < name.len() && name[i] == '.' && forall|j: int| i < j < name.len() ==> name[j] != '.';
        Some(name.skip(i + 1))
    } else {
        None
    }
}

/// The indexed extension of a file name: its extension in
/// lower case, when that is a supported one.
pub open spec fn supported_extension(name: Seq<char>) -> Option<Seq<char>> {
    match name_extension(name) {
        Some(e) => if supported_list().contains(lower_seq(e)) {
            Some(lower_seq(e))
        } else {
            None
        },
        None => None,
    }
}

/// A file is indexed under extension `e` exactly when its name has an
/// extension (as `Path::extension` reads it) whose ASCII lower-case form is
/// `e` and `e` is one of the supported extensions.
pub proof fn lemma_supported_extension_iff(name: Seq<char>, e: Seq<char>)
    ensures
        supported_extension(name) == Some(e) <==> (exists|x: Seq<char>|
            name_extension(name) == Some(x) && e == lower_seq(x) && #[trigger] supported_list().contains(
                e,
            )),
{
    if supported_extension(name) == Some(e) {
        let x = name_extension(name)->0;
        assert(name_extension(name) == Some(x) && e == lower_seq(x) && supported_list().contains(e));
    }
}

/// The indexed extension of a path, read from its file name (the path's
/// last component), if it has one.
pub fn extension_for_path(name: &str) -> (r: Option<String>)
    ensures
        match r {
            Some(e) => supported_extension(name@) == Some(e@),
            None => supported_extension(name@) is None,
        },
{
    let v = chars_of(name);
    let n = v.len();
    let mut k = n;
    while k > 1 && v[k - 1] != '.'
        invariant
            k <= n == v@.len(),
            forall|j: int| k <= j < n ==> v@[j] != '.',
        decreases k,
    {
        k = k - 1;
    }
    if k <= 1 {
        proof {
            if exists|i: int| 0 < i < v@.len() && v@[i] == '.' {
                let i = choose|i: int| 0 < i < v@.len() && v@[i] == '.';
                assert(false);
            }
        }
        return None;
    }
    let dot = k - 1;
    proof {
        let i = choose|i: int|
            0 < i < v@.len() && v@[i] == '.' && forall|j: int| i < j < v@.len() ==> v@[j] != '.';
        assert(v@[dot as int] == '.');
        assert(i == dot);
        assert(name_extension(name@) == Some(v@.skip(dot + 1)));
    }
    let mut ext: Vec<char> = Vec::new();
    let mut i = dot + 1;
    while i < n
        invariant
            dot + 1 <= i <= n == v@.len(),
            ext@ == lower_seq(v@.subrange(dot + 1, i as int)),
        decreases n - i,
    {
        ext.push(to_ascii_lower(v[i]));
        assert(lower_seq(v@.subrange(dot + 1, i as int + 1)) =~= lower_seq(
            v@.subrange(dot + 1, i as int),
        ).push(crate::text::lower_char(v@[i as int])));
        i = i + 1;
    }
    assert(v@.subrange(dot + 1, n as int) =~= v@.skip(dot + 1));
    let supported = supported_extensions();
    let mut j: usize = 0;
    while j < supported.len()
        invariant
            j <= supported@.len(),
            supported@.map_values(|e: &'static str| e@) == supported_list(),
            forall|x: int| 0 <= x < j ==> supported_list()[x] != ext@,
            dot < v@.len(),
            ext@ == lower_seq(v@.skip(dot + 1)),
            name_extension(name@) == Some(v@.skip(dot + 1)),
        decreases supported@.len() - j,
    {
        let s = chars_of(supported[j]);
        assert(supported@.map_values(|e: &'static str| e@)[j as int] == supported@[j as int]@);
        if chars_eq(&s, &ext) {
            assert(supported_list()[j as int] == ext@);
            assert(ext@ == lower_seq(v@.skip(dot + 1)));
            assert(supported_list().contains(ext@));
            return Some(string_of(&ext));
        }
        j = j + 1;
    }
    None
}

/// `chunk_id`: a document id and a chunk index padded to four digits.
pub open spec fn chunk_id_text(document_id: Seq<char>, index: int) -> Seq<char> {
    document_id + ":"@ + int_text_padded(index, 4)
}

pub fn chunk_id(document_id: &str, chunk_index: i64) -> (r: String)
    ensures
        r@ == chunk_id_text(document_id@, chunk_index as int),
{
    let mut out = chars_of(document_id);
    extend_str(&mut out, ":");
    push_int_padded(&mut out, chunk_index, 4);
    string_of(&out)
}

// ---------------------------------------------------------------------------
// Preparing a file's text
// ---------------------------------------------------------------------------

/// `s` with every "\r\n" replaced by "\n", left to right.
pub open spec fn unix_newlines(s: Seq<char>) -> Seq<char>
    decreases s.len(),
{
    if s.len() == 0 {
        s
    } else if s.len() >= 2 && s[0] == '\r' && s[1] == '\n' {
        seq!['\n'] + unix_newlines(s.skip(2))
    } else {
        seq![s[0]] + unix_newlines(s.skip(1))
    }
}

/// `str::replace("\r\n", "\n")`.
pub fn normalize_line_endings(v: &Vec<char>) -> (r: Vec<char>)
    ensures
        r@ == unix_newlines(v@),
{
    let mut out: Vec<char> = Vec::new();
    let mut i: usize = 0;
    assert(v@.skip(0) =~= v@);
    while i < v.len()
        invariant
            i <= v@.len(),
            out@ + unix_newlines(v@.skip(i as int)) == unix_newlines(v@),
        decreases v@.len() - i,
    {
        let ghost rest = v@.skip(i as int);
        if i + 1 < v.len() && v[i] == '\r' && v[i + 1] == '\n' {
            assert(rest.skip(2) =~= v@.skip(i as int + 2));
            assert(out@.push('\n') + unix_newlines(v@.skip(i as int + 2)) =~= out@ + unix_newlines(
                rest,
            ));
            out.push('\n');
            i = i + 2;
        } else {
            assert(rest.skip(1) =~= v@.skip(i as int + 1));
            assert(out@.push(v@[i as int]) + unix_newlines(v@.skip(i as int + 1)) =~= out@
                + unix_newlines(rest));
            out.push(v[i]);
            i = i + 1;
        }
    }
    assert(v@.skip(v@.len() as int) =~= Seq::<char>::empty());
    assert(out@ + Seq::<char>::empty() =~= out@);
    out
}

/// `String::from_utf8` from std: the text whose UTF-8 encoding the bytes
/// are, if they are valid UTF-8.
#[verifier::external_body]
fn decode_utf8(bytes: Vec<u8>) -> (r: Option<String>)
    ensures
        match r {
            Some(s) => vstd::utf8::encode_utf8(s@) == bytes@,
            None => forall|s: Seq<char>| vstd::utf8::encode_utf8(s) != bytes@,
        },
{
    String::from_utf8(bytes).ok()
}

/// A file's text made ready for the index.
pub struct PreparedContent {
    pub content_hash: String,
    pub chunks: Vec<PreparedChunk>,
}

pub open spec fn has_zero(bytes: Seq<u8>) -> bool {
    exists|i: int| 0 <= i < bytes.len() && bytes[i] == 0
}

/// The text of a file's bytes with Unix line endings, when the file is read
/// at all: at most `MAX_FILE_BYTES` long, without a zero byte, valid UTF-8.
pub open spec fn file_text(bytes: Seq<u8>) -> Option<Seq<char>> {
    if bytes.len() > MAX_FILE_BYTES || has_zero(bytes) || !vstd::utf8::valid_utf8(bytes) {
        None
    } else {
        Some(unix_newlines(vstd::utf8::decode_utf8(bytes)))
    }
}

/// Whether a file's bytes are indexed: its text is read and has something
/// to chunk.
pub open spec fn file_indexed(bytes: Seq<u8>) -> bool {
    match file_text(bytes) {
        Some(t) => chunk_text_spec(t).len() > 0,
        None => false,
    }
}

/// What indexing makes of a file's bytes: files
/// larger than `MAX_FILE_BYTES`, holding a zero byte, not UTF-8 or without
/// any text to chunk are skipped; otherwise the hash of the bytes and the
/// chunks of the text with Unix line endings.
pub fn prepare_contents(bytes: Vec<u8>) -> (r: Option<PreparedContent>)
    ensures
        r is Some <==> file_indexed(bytes@),
        r matches Some(p) ==> file_text(bytes@) matches Some(t) && chunks_view(p.chunks@)
            == chunk_text_spec(t),
        r is Some ==> bytes@.len() <= MAX_FILE_BYTES && !has_zero(bytes@),
        bytes@.len() > MAX_FILE_BYTES || has_zero(bytes@) ==> r is None,
        match r {
            Some(p) => exists|s: Seq<char>|
                vstd::utf8::encode_utf8(s) == bytes@ && chunks_view(p.chunks@) == chunk_text_spec(
                    unix_newlines(s),
                ) && p.chunks@.len() > 0,
            None => true,
        },
        r matches Some(p) ==> p.content_hash@ == hex_digits(fnv1a(bytes@) as nat, 16),
{
    if bytes.len() as u64 > MAX_FILE_BYTES {
        return None;
    }
    let mut i: usize = 0;
    while i < bytes.len()
        invariant
            i <= bytes@.len(),
            forall|j: int| 0 <= j < i ==> bytes@[j] != 0,
        decreases bytes@.len() - i,
    {
        if bytes[i] == 0 {
            return None;
        }
        i = i + 1;
    }
    let content_hash = hash_bytes(bytes.as_slice());
    let ghost given = bytes@;
    let text = match decode_utf8(bytes) {
        Some(t) => t,
        None => {
            proof {
                if vstd::utf8::valid_utf8(given) {
                    vstd::utf8::decode_utf8_encode_utf8(given);
                }
            }
            return None;
        },
    };
    proof {
        vstd::utf8::encode_utf8_valid_utf8(text@);
        vstd::utf8::encode_utf8_decode_utf8(text@);
        assert(!has_zero(given));
        assert(file_text(given) == Some(unix_newlines(text@)));
    }
    let v = chars_of(text.as_str());
    let normalized = normalize_line_endings(&v);
    proof {
        crate::text::lemma_utf8_len_encode(text@);
        lemma_unix_newlines_len(v@);
        crate::text::lemma_utf8_len_bounds(normalized@);
    }
    let s = string_of(&normalized);
    let chunks = chunk_text(s.as_str());
    if chunks.len() == 0 {
        return None;
    }
    Some(PreparedContent { content_hash, chunks })
}

/// Replacing line endings never lengthens a text, counted in UTF-8 bytes.
proof fn lemma_unix_newlines_len(s: Seq<char>)
    ensures
        crate::text::utf8_len(unix_newlines(s)) <= crate::text::utf8_len(s),
    decreases s.len(),
{
    if s.len() > 0 {
        if s.len() >= 2 && s[0] == '\r' && s[1] == '\n' {
            lemma_unix_newlines_len(s.skip(2));
            crate::text::lemma_utf8_len_concat(seq!['\n'], unix_newlines(s.skip(2)));
            assert(s =~= seq![s[0], s[1]] + s.skip(2));
            crate::text::lemma_utf8_len_concat(seq![s[0], s[1]], s.skip(2));
            crate::text::lemma_utf8_len_concat(seq![s[0]], seq![s[1]]);
            assert(seq![s[0]] + seq![s[1]] =~= seq![s[0], s[1]]);
        } else {
            lemma_unix_newlines_len(s.skip(1));
            crate::text::lemma_utf8_len_concat(seq![s[0]], unix_newlines(s.skip(1)));
            assert(s =~= seq![s[0]] + s.skip(1));
            crate::text::lemma_utf8_len_concat(seq![s[0]], s.skip(1));
        }
    }
}

// ---------------------------------------------------------------------------
// Documents already indexed
// ---------------------------------------------------------------------------

/// What indexing reads of a stored document.
pub struct StoredDocument {
    pub deleted: bool,
    pub content_hash: String,
    pub chunk_count: i64,
}

/// A stored document is left as it is (only its file details are
/// refreshed) when it is live, has chunks, and its text hash is unchanged.
pub open spec fn unchanged(existing: Option<StoredDocument>, content_hash: Seq<char>) -> bool {
    match existing {
        Some(d) => !d.deleted && d.content_hash@ == content_hash && d.chunk_count > 0,
        None => false,
    }
}

/// Whether a stored document is left as it is.
pub fn document_unchanged(existing: &Option<StoredDocument>, content_hash: &str) -> (r: bool)
    ensures
        r == unchanged(*existing, content_hash@),
{
    match existing {
        Some(d) => !d.deleted && crate::text::str_eq(d.content_hash.as_str(), content_hash)
            && d.chunk_count > 0,
        None => false,
    }
}

/// The ids of a document's chunks, in order.
pub fn chunk_ids(document_id: &str, chunks: &Vec<PreparedChunk>) -> (r: Vec<String>)
    ensures
        r@.len() == chunks@.len(),
        forall|i: int|
            0 <= i < r@.len() ==> (#[trigger] r@[i])@ == chunk_id_text(
                document_id@,
                chunks@[i].chunk_index as int,
            ),
{
    let mut ids: Vec<String> = Vec::new();
    let mut i: usize = 0;
    while i < chunks.len()
        invariant
            i <= chunks@.len(),
            ids@.len() == i,
            forall|k: int|
                0 <= k < i ==> (#[trigger] ids@[k])@ == chunk_id_text(
                    document_id@,
                    chunks@[k].chunk_index as int,
                ),
        decreases chunks@.len() - i,
    {
        ids.push(chunk_id(document_id, chunks[i].chunk_index));
        i = i + 1;
    }
    ids
}

/// What an indexing run counts.
pub struct DocumentIndexStats {
    pub workspace_id: String,
    pub discovered_files: i64,
    pub indexed_files: i64,
    pub unchanged_files: i64,
    pub skipped_files: i64,
    pub removed_files: i64,
    pub chunk_count: i64,
}

/// `empty_index_stats`: nothing counted yet.
pub fn empty_index_stats(workspace_id: &str) -> (r: DocumentIndexStats)
    ensures
        r.workspace_id@ == workspace_id@,
        r.discovered_files == 0 && r.indexed_files == 0 && r.unchanged_files == 0
            && r.skipped_files == 0 && r.removed_files == 0 && r.chunk_count == 0,
{
    DocumentIndexStats {
        workspace_id: String::from_str(workspace_id),
        discovered_files: 0,
        indexed_files: 0,
        unchanged_files: 0,
        skipped_files: 0,
        removed_files: 0,
        chunk_count: 0,
    }
}

// ---------------------------------------------------------------------------
// Paths to index
// ---------------------------------------------------------------------------

/// The path asked for, trimmed; a blank one is refused.
pub open spec fn path_input(input: Seq<char>) -> Result<Seq<char>, Seq<char>> {
    if trim(input).len() == 0 {
        Err("Enter a folder or file path to index."@)
    } else {
        Ok(trim(input))
    }
}

/// The path to index as typed, before the file system is asked about it.
pub fn validate_path_input(input: &str) -> (r: Result<String, String>)
    ensures
        string_result_view(r) == path_input(input@),
{
    let t = trim_str(input);
    if t.len() == 0 {
        Err(String::from_str("Enter a folder or file path to index."))
    } else {
        Ok(string_of(&t))
    }
}

/// What the file system says of the resolved path to index.
pub struct PathFacts {
    /// The path is a symbolic link.
    pub is_symlink: bool,
    pub is_file: bool,
    pub is_dir: bool,
    /// The last component of the path, when it has one that is UTF-8.
    pub file_name: Option<String>,
}

/// A path that may be indexed.
pub struct CheckedPath {
    /// The name of its workspace.
    pub name: String,
    pub is_file: bool,
}

/// A workspace is named by the trimmed file name, or "Knowledge workspace"
/// when there is none.
pub open spec fn workspace_name(file_name: Option<Seq<char>>) -> Seq<char> {
    match file_name {
        Some(n) => if trim(n).len() > 0 {
            trim(n)
        } else {
            "Knowledge workspace"@
        },
        None => "Knowledge workspace"@,
    }
}

pub open spec fn unsupported_file_message() -> Seq<char> {
    "That file type is not supported. Supported extensions: "@ + join_with(supported_list(), ", "@)
}

/// Symbolic links and what is neither a file nor a folder are refused, and
/// so is a file whose type is not indexed; else the path's workspace name.
pub open spec fn path_check(facts: PathFacts) -> Result<(Seq<char>, bool), Seq<char>> {
    if facts.is_symlink {
        Err("Symlink roots are not indexed."@)
    } else if !facts.is_file && !facts.is_dir {
        Err("Only folders and files can be indexed."@)
    } else if facts.is_file && match facts.file_name {
        Some(n) => supported_extension(n@) is None,
        None => true,
    } {
        Err(unsupported_file_message())
    } else {
        Ok((workspace_name(opt_string_view(facts.file_name)), facts.is_file))
    }
}

pub open spec fn checked_path_view(r: Result<CheckedPath, String>) -> Result<(Seq<char>, bool), Seq<char>> {
    match r {
        Ok(c) => Ok((c.name@, c.is_file)),
        Err(e) => Err(e@),
    }
}

fn unsupported_file_text() -> (r: String)
    ensures
        r@ == unsupported_file_message(),
{
    let supported = supported_extensions();
    let mut parts: Vec<Vec<char>> = Vec::new();
    let mut i: usize = 0;
    while i < supported.len()
        invariant
            i <= supported@.len(),
            supported@.map_values(|e: &'static str| e@) == supported_list(),
            views(parts@) == supported_list().take(i as int),
        decreases supported@.len() - i,
    {
        let part = chars_of(supported[i]);
        assert(supported@.map_values(|e: &'static str| e@)[i as int] == supported@[i as int]@);
        let ghost before = parts@;
        parts.push(part);
        assert(parts@ == before.push(part));
        assert(views(parts@) =~= views(before).push(part@));
        assert(views(parts@) =~= supported_list().take(i as int + 1));
        i = i + 1;
    }
    assert(supported_list().take(supported@.len() as int) =~= supported_list());
    let mut out = chars_of("That file type is not supported. Supported extensions: ");
    let joined = join_chars(&parts, &chars_of(", "));
    extend_chars(&mut out, &joined);
    string_of(&out)
}

/// Whether a resolved path may be indexed, and the name of its workspace.
pub fn check_path(facts: &PathFacts) -> (r: Result<CheckedPath, String>)
    ensures
        checked_path_view(r) == path_check(*facts),
{
    if facts.is_symlink {
        return Err(String::from_str("Symlink roots are not indexed."));
    }
    if !facts.is_file && !facts.is_dir {
        return Err(String::from_str("Only folders and files can be indexed."));
    }
    if facts.is_file {
        let supported = match &facts.file_name {
            Some(n) => extension_for_path(n.as_str()).is_some(),
            None => false,
        };
        if !supported {
            return Err(unsupported_file_text());
        }
    }
    let name = match &facts.file_name {
        Some(n) => {
            let t = trim_str(n.as_str());
            if t.len() > 0 {
                string_of(&t)
            } else {
                String::from_str("Knowledge workspace")
            }
        },
        None => String::from_str("Knowledge workspace"),
    };
    Ok(CheckedPath { name, is_file: facts.is_file })
}

/// What a folder walk does with one entry.
#[derive(Clone, Copy, Debug, PartialEq, Eq, Structural)]
pub enum EntryAction {
    /// Passed over.
    Skip,
    /// A folder to walk into.
    Descend,
    /// A file of an indexed type: kept when it lies under the root.
    Keep,
}

/// Symbolic links are passed over, and so are hidden folders (whose name
/// starts with '.'); files are kept when their type is indexed (a name
/// that is not UTF-8 has no type that is).
pub open spec fn entry_action_of(
    is_symlink: bool,
    is_dir: bool,
    is_file: bool,
    name: Seq<char>,
    name_is_utf8: bool,
) -> EntryAction {
    if is_symlink {
        EntryAction::Skip
    } else if is_dir {
        if name.len() > 0 && name[0] == '.' {
            EntryAction::Skip
        } else {
            EntryAction::Descend
        }
    } else if !is_file || !name_is_utf8 || supported_extension(name) is None {
        EntryAction::Skip
    } else {
        EntryAction::Keep
    }
}

/// The walk's decision for one folder entry, given its name as text.
pub fn entry_action(
    is_symlink: bool,
    is_dir: bool,
    is_file: bool,
    name: &str,
    name_is_utf8: bool,
) -> (r: EntryAction)
    ensures
        r == entry_action_of(is_symlink, is_dir, is_file, name@, name_is_utf8),
{
    if is_symlink {
        return EntryAction::Skip;
    }
    if is_dir {
        let v = chars_of(name);
        if v.len() > 0 && v[0] == '.' {
            return EntryAction::Skip;
        }
        return EntryAction::Descend;
    }
    if !is_file || !name_is_utf8 {
        return EntryAction::Skip;
    }
    match extension_for_path(name) {
        Some(_) => EntryAction::Keep,
        None => EntryAction::Skip,
    }
}

// ---------------------------------------------------------------------------
// Chunks for a prompt
// ---------------------------------------------------------------------------

pub open spec fn count_of(ids: Seq<Seq<char>>, id: Seq<char>) -> nat
    decreases ids.len(),
{
    if ids.len() == 0 {
        0
    } else {
        count_of(ids.drop_last(), id) + if ids.last() == id {
            1nat
        } else {
            0
        }
    }
}

/// The positions kept of the ranked chunk results for a prompt, by
/// their document ids: at most two per document, at most eight in all,
/// best ranked first.
pub open spec fn prompt_selection(docs: Seq<Seq<char>>) -> Seq<int>
    decreases docs.len(),
{
    if docs.len() == 0 {
        Seq::empty()
    } else {
        let prev = prompt_selection(docs.drop_last());
        let d = docs.last();
        let taken = prev.map_values(|k: int| docs[k]);
        if prev.len() < PROMPT_CHUNK_LIMIT && count_of(taken, d) < PROMPT_CHUNKS_PER_DOCUMENT {
            prev.push(docs.len() - 1)
        } else {
            prev
        }
    }
}

proof fn lemma_selection_indices(docs: Seq<Seq<char>>)
    ensures
        forall|j: int|
            0 <= j < prompt_selection(docs).len() ==> 0 <= #[trigger] prompt_selection(docs)[j]
                < docs.len(),
        prompt_selection(docs).len() <= PROMPT_CHUNK_LIMIT,
    decreases docs.len(),
{
    if docs.len() > 0 {
        lemma_selection_indices(docs.drop_last());
    }
}

proof fn lemma_selection_prefix(docs: Seq<Seq<char>>, k: int)
    requires
        0 <= k <= docs.len(),
    ensures
        prompt_selection(docs.take(k)).map_values(|i: int| docs.take(k)[i])
            == prompt_selection(docs.take(k)).map_values(|i: int| docs[i]),
{
    lemma_selection_indices(docs.take(k));
    assert(prompt_selection(docs.take(k)).map_values(|i: int| docs.take(k)[i])
        =~= prompt_selection(docs.take(k)).map_values(|i: int| docs[i]));
}

/// The chunks chosen for a prompt: the positions of the kept
/// results, given each result's document id in rank order.
pub fn select_prompt_chunks(document_ids: &Vec<String>) -> (r: Vec<usize>)
    ensures
        r@.map_values(|i: usize| i as int) == prompt_selection(
            document_ids@.map_values(|d: String| d@),
        ),
{
    let ghost docs = document_ids@.map_values(|d: String| d@);
    let mut selected: Vec<usize> = Vec::new();
    let mut taken: Vec<Vec<char>> = Vec::new();
    let mut i: usize = 0;
    while i < document_ids.len() && selected.len() < PROMPT_CHUNK_LIMIT
        invariant
            i <= document_ids@.len(),
            docs == document_ids@.map_values(|d: String| d@),
            selected@.map_values(|x: usize| x as int) == prompt_selection(docs.take(i as int)),
            crate::text::views(taken@) == prompt_selection(docs.take(i as int)).map_values(
                |k: int| docs[k],
            ),
            selected@.len() <= PROMPT_CHUNK_LIMIT,
        decreases document_ids@.len() - i,
    {
        let ghost t = docs.take(i as int + 1);
        assert(t.drop_last() =~= docs.take(i as int));
        proof {
            lemma_selection_prefix(docs, i as int);
            lemma_selection_indices(docs.take(i as int));
        }
        let d = chars_of(document_ids[i].as_str());
        assert(d@ == docs[i as int]);
        proof {
            assert(t.last() == docs[i as int]);
            assert(prompt_selection(docs.take(i as int)).map_values(|k: int| t[k]) =~= prompt_selection(
                docs.take(i as int),
            ).map_values(|k: int| docs[k]));
        }
        let mut count: usize = 0;
        let mut j: usize = 0;
        while j < taken.len()
            invariant
                j <= taken@.len(),
                count as nat == count_of(crate::text::views(taken@).take(j as int), d@),
                count <= j,
            decreases taken@.len() - j,
        {
            let ghost tt = crate::text::views(taken@).take(j as int + 1);
            assert(tt.drop_last() =~= crate::text::views(taken@).take(j as int));
            if chars_eq(&taken[j], &d) {
                count = count + 1;
            }
            j = j + 1;
        }
        assert(crate::text::views(taken@).take(taken@.len() as int) =~= crate::text::views(taken@));
        if count < PROMPT_CHUNKS_PER_DOCUMENT {
            let ghost before_sel = selected@.map_values(|x: usize| x as int);
            let ghost before_taken = crate::text::views(taken@);
            selected.push(i);
            taken.push(d);
            proof {
                assert(selected@.map_values(|x: usize| x as int) =~= before_sel.push(i as int));
                assert(crate::text::views(taken@) =~= before_taken.push(d@));
                lemma_selection_indices(t);
                assert(prompt_selection(t) == prompt_selection(docs.take(i as int)).push(i as int));
                assert(prompt_selection(t).map_values(|k: int| docs[k]) =~= prompt_selection(
                    docs.take(i as int),
                ).map_values(|k: int| docs[k]).push(docs[i as int]));
            }
        } else {
            proof {
                assert(prompt_selection(t) == prompt_selection(docs.take(i as int)));
            }
        }
        i = i + 1;
    }
    proof {
        if i < document_ids@.len() {
            lemma_selection_full(docs, i as int);
        }
        assert(docs.take(docs.len() as int) =~= docs);
    }
    selected
}

/// The document ids of the results a prompt keeps.
pub open spec fn selected_docs(docs: Seq<Seq<char>>) -> Seq<Seq<char>> {
    prompt_selection(docs).map_values(|k: int| docs[k])
}

/// A prompt gets at most eight retrieved chunks, at most two from any one
/// document, taken in rank order.
pub proof fn lemma_prompt_selection_limits(docs: Seq<Seq<char>>)
    ensures
        prompt_selection(docs).len() <= PROMPT_CHUNK_LIMIT,
        forall|d: Seq<char>| #[trigger] count_of(selected_docs(docs), d) <= PROMPT_CHUNKS_PER_DOCUMENT,
        forall|a: int, b: int|
            0 <= a < b < prompt_selection(docs).len() ==> prompt_selection(docs)[a]
                < prompt_selection(docs)[b],
        forall|a: int|
            0 <= a < prompt_selection(docs).len() ==> 0 <= #[trigger] prompt_selection(docs)[a]
                < docs.len(),
    decreases docs.len(),
{
    lemma_selection_indices(docs);
    if docs.len() > 0 {
        let p = docs.drop_last();
        lemma_prompt_selection_limits(p);
        let prev = prompt_selection(p);
        let taken = prev.map_values(|k: int| docs[k]);
        assert(taken =~= prev.map_values(|k: int| p[k]));
        let last = docs.last();
        if prev.len() < PROMPT_CHUNK_LIMIT && count_of(taken, last) < PROMPT_CHUNKS_PER_DOCUMENT {
            let sel = prev.push(docs.len() - 1);
            assert(sel.map_values(|k: int| docs[k]) =~= taken.push(last));
            assert(taken.push(last).drop_last() =~= taken);
            assert(selected_docs(docs) == taken.push(last));
            assert forall|d: Seq<char>| #[trigger]
                count_of(selected_docs(docs), d) <= PROMPT_CHUNKS_PER_DOCUMENT by {
                assert(count_of(selected_docs(p), d) <= PROMPT_CHUNKS_PER_DOCUMENT);
                assert(selected_docs(p) == taken);
            }
        } else {
            assert(selected_docs(docs) == taken);
            assert forall|d: Seq<char>| #[trigger]
                count_of(selected_docs(docs), d) <= PROMPT_CHUNKS_PER_DOCUMENT by {
                assert(count_of(selected_docs(p), d) <= PROMPT_CHUNKS_PER_DOCUMENT);
                assert(selected_docs(p) == taken);
            }
        }
    }
}

/// Once eight results are kept, later results change nothing.
proof fn lemma_selection_full(docs: Seq<Seq<char>>, i: int)
    requires
        0 <= i <= docs.len(),
        prompt_selection(docs.take(i)).len() >= PROMPT_CHUNK_LIMIT,
    ensures
        prompt_selection(docs) == prompt_selection(docs.take(i)),
    decreases docs.len() - i,
{
    if i < docs.len() {
        let t = docs.take(i + 1);
        assert(t.drop_last() =~= docs.take(i));
        lemma_selection_full(docs, i + 1);
    } else {
        assert(docs.take(i) =~= docs);
    }
}

} // verus!
