//! Splitting indexed documents into prompt-sized chunks that remember where
//! in the source file they came from.
use vstd::prelude::*;
use crate::text::{
    starts_with, starts_with_str, string_of, trim, trim_bounds, trim_chars, utf8_len, chars_of,
    extend_chars, sub_chars, utf8_len_of, lemma_utf8_len_subrange, lemma_utf8_len_bounds, lemma_trim_len,
    all_ws, is_ws, lemma_trim_empty_iff_all_ws,
};

verus! {

/// A paragraph break closes the current chunk once it holds this many characters.
pub const TARGET_CHUNK_CHARS: usize = 1_400;

/// A chunk never grows past this many characters by taking in another line.
pub const MAX_CHUNK_CHARS: usize = 2_400;

/// A chunk as the specification sees it.
pub struct ChunkView {
    pub chunk_index: int,
    pub content: Seq<char>,
    pub start_byte: int,
    pub end_byte: int,
    pub start_line: int,
    pub end_line: int,
    pub token_count_estimate: int,
}

/// One chunk of a prepared document.
pub struct PreparedChunk {
    pub chunk_index: i64,
    pub content: String,
    pub start_byte: i64,
    pub end_byte: i64,
    pub start_line: i64,
    pub end_line: i64,
    pub token_count_estimate: i64,
}

impl View for PreparedChunk {
    type V = ChunkView;

    open spec fn view(&self) -> ChunkView {
        ChunkView {
            chunk_index: self.chunk_index as int,
            content: self.content@,
            start_byte: self.start_byte as int,
            end_byte: self.end_byte as int,
            start_line: self.start_line as int,
            end_line: self.end_line as int,
            token_count_estimate: self.token_count_estimate as int,
        }
    }
}

pub open spec fn chunks_view(v: Seq<PreparedChunk>) -> Seq<ChunkView> {
    v.map_values(|c: PreparedChunk| c@)
}

/// `ceil(n / 4)`: the token estimate for `n` characters.
pub open spec fn ceil_quarter(n: nat) -> int {
    ((n + 3) / 4) as int
}

/// The chunker's running state between two lines.
pub struct ChunkState {
    pub chunks: Seq<ChunkView>,
    pub current: Seq<char>,
    pub start_byte: int,
    pub start_line: int,
    pub byte_offset: int,
    pub line_number: int,
}

pub open spec fn initial_chunk_state() -> ChunkState {
    ChunkState {
        chunks: Seq::empty(),
        current: Seq::empty(),
        start_byte: 0,
        start_line: 1,
        byte_offset: 0,
        line_number: 1,
    }
}

/// Closes the current text: its trimmed form becomes the next chunk unless
/// it is blank.
pub open spec fn emit(
    chunks: Seq<ChunkView>,
    current: Seq<char>,
    start_byte: int,
    start_line: int,
    end_byte: int,
    end_line: int,
) -> Seq<ChunkView> {
    let content = trim(current);
    if content.len() == 0 {
        chunks
    } else {
        chunks.push(
            ChunkView {
                chunk_index: chunks.len() as int,
                content,
                start_byte,
                end_byte,
                start_line,
                end_line: if end_line >= start_line {
                    end_line
                } else {
                    start_line
                },
                token_count_estimate: ceil_quarter(content.len()),
            },
        )
    }
}

/// Lines that begin a new code item (after trimming) are preferred places
/// to start a chunk.
pub open spec fn is_code_boundary_line(line: Seq<char>) -> bool {
    ||| starts_with(line, "fn "@)
    ||| starts_with(line, "pub fn "@)
    ||| starts_with(line, "async fn "@)
    ||| starts_with(line, "pub async fn "@)
    ||| starts_with(line, "def "@)
    ||| starts_with(line, "class "@)
    ||| starts_with(line, "function "@)
    ||| starts_with(line, "export function "@)
    ||| starts_with(line, "export default function "@)
    ||| starts_with(line, "const "@)
    ||| starts_with(line, "export const "@)
    ||| starts_with(line, "impl "@)
    ||| starts_with(line, "interface "@)
    ||| starts_with(line, "type "@)
}

/// `is_code_boundary`.
pub fn is_code_boundary(line: &Vec<char>) -> (r: bool)
    ensures
        r == is_code_boundary_line(line@),
{
    starts_with_str(line, "fn ") || starts_with_str(line, "pub fn ") || starts_with_str(
        line,
        "async fn ",
    ) || starts_with_str(line, "pub async fn ") || starts_with_str(line, "def ")
        || starts_with_str(line, "class ") || starts_with_str(line, "function ")
        || starts_with_str(line, "export function ") || starts_with_str(
        line,
        "export default function ",
    ) || starts_with_str(line, "const ") || starts_with_str(line, "export const ")
        || starts_with_str(line, "impl ") || starts_with_str(line, "interface ")
        || starts_with_str(line, "type ")
}

/// Processing one line (`split_inclusive('\n')` segment) of the document.
pub open spec fn chunk_step(st: ChunkState, seg: Seq<char>) -> ChunkState {
    let trimmed = trim(seg);
    let flush = trim(st.current).len() > 0 && (st.current.len() + seg.len() > MAX_CHUNK_CHARS
        || (is_code_boundary_line(trimmed) && st.current.len() >= TARGET_CHUNK_CHARS));
    let s1 = if flush {
        ChunkState {
            chunks: emit(
                st.chunks,
                st.current,
                st.start_byte,
                st.start_line,
                st.byte_offset,
                if st.line_number >= 1 {
                    st.line_number - 1
                } else {
                    0
                },
            ),
            current: Seq::empty(),
            start_byte: st.byte_offset,
            start_line: st.line_number,
            ..st
        }
    } else {
        st
    };
    let s2 = ChunkState {
        current: s1.current + seg,
        byte_offset: s1.byte_offset + utf8_len(seg),
        ..s1
    };
    if seg.len() > 0 && seg.last() == '\n' {
        let s3 = if trimmed.len() == 0 && s2.current.len() >= TARGET_CHUNK_CHARS {
            ChunkState {
                chunks: emit(
                    s2.chunks,
                    s2.current,
                    s2.start_byte,
                    s2.start_line,
                    s2.byte_offset,
                    s2.line_number,
                ),
                current: Seq::empty(),
                start_byte: s2.byte_offset,
                start_line: s2.line_number + 1,
                ..s2
            }
        } else {
            s2
        };
        ChunkState { line_number: s3.line_number + 1, ..s3 }
    } else {
        s2
    }
}

/// Length of the first `split_inclusive('\n')` segment of `s`.
pub open spec fn seg_len(s: Seq<char>) -> nat
    decreases s.len(),
{
    if s.len() == 0 {
        0
    } else if s[0] == '\n' {
        1
    } else {
        1 + seg_len(s.drop_first())
    }
}

/// Runs the chunker over the remaining text `s`, one segment at a time.
pub open spec fn chunk_run(st: ChunkState, s: Seq<char>) -> ChunkState
    decreases s.len(),
{
    if s.len() == 0 {
        st
    } else {
        let k = seg_len(s);
        if 0 < k <= s.len() {
            chunk_run(chunk_step(st, s.take(k as int)), s.skip(k as int))
        } else {
            st
        }
    }
}

/// `chunk_text`: the chunks of a document.
pub open spec fn chunk_text_spec(content: Seq<char>) -> Seq<ChunkView> {
    let st = chunk_run(initial_chunk_state(), content);
    emit(st.chunks, st.current, st.start_byte, st.start_line, utf8_len(content) as int, st.line_number)
}

proof fn lemma_seg_len(s: Seq<char>, k: int)
    requires
        1 <= k <= s.len(),
        forall|x: int| 0 <= x < k - 1 ==> s[x] != '\n',
        k == s.len() || s[k - 1] == '\n',
    ensures
        seg_len(s) == k,
    decreases k,
{
    if s[0] == '\n' {
        if k > 1 {
            assert(s[0] != '\n');
        }
    } else {
        if k == 1 {
            assert(s.drop_first().len() == 0);
            assert(seg_len(s.drop_first()) == 0);
        } else {
            let t = s.drop_first();
            assert forall|x: int| 0 <= x < k - 2 implies t[x] != '\n' by {
                assert(t[x] == s[x + 1]);
            }
            if k != s.len() {
                assert(t[k - 2] == s[k - 1]);
            }
            lemma_seg_len(t, k - 1);
        }
    }
}

/// End of the segment that starts at `i`.
fn segment_end(v: &Vec<char>, i: usize) -> (j: usize)
    requires
        i < v.len(),
    ensures
        i < j <= v.len(),
        j - i == seg_len(v@.skip(i as int)),
        forall|x: int| i <= x < j - 1 ==> v@[x] != '\n',
        j == v.len() || v@[j - 1] == '\n',
{
    let mut j = i;
    while j < v.len() && v[j] != '\n'
        invariant
            i <= j <= v.len(),
            forall|x: int| i <= x < j ==> v@[x] != '\n',
        decreases v.len() - j,
    {
        j = j + 1;
    }
    if j < v.len() {
        j = j + 1;
    }
    proof {
        let s = v@.skip(i as int);
        assert forall|x: int| 0 <= x < (j - i) - 1 implies s[x] != '\n' by {
            assert(s[x] == v@[i + x]);
        }
        if j - i != s.len() {
            assert(s[(j - i) - 1] == v@[j - 1]);
        }
        lemma_seg_len(s, (j - i) as int);
    }
    j
}

/// Ends the chunk being read: a chunk that is not blank once trimmed is
/// added with the given byte and line range, and the text read is cleared.
pub fn push_chunk(
    chunks: &mut Vec<PreparedChunk>,
    current: &mut Vec<char>,
    start_byte: i64,
    end_byte: i64,
    start_line: i64,
    end_line: i64,
)
    requires
        old(chunks).len() < i64::MAX,
        old(current).len() < i64::MAX,
    ensures
        chunks_view(final(chunks)@) == emit(
            chunks_view(old(chunks)@),
            old(current)@,
            start_byte as int,
            start_line as int,
            end_byte as int,
            end_line as int,
        ),
        final(current)@ == Seq::<char>::empty(),
{
    let content = trim_chars(current);
    *current = Vec::new();
    if content.len() == 0 {
        return ;
    }
    let n = content.len();
    let tokens = n / 4 + if n % 4 != 0 {
        1usize
    } else {
        0usize
    };
    let chunk = PreparedChunk {
        chunk_index: chunks.len() as i64,
        content: string_of(&content),
        start_byte,
        end_byte,
        start_line,
        end_line: if end_line >= start_line {
            end_line
        } else {
            start_line
        },
        token_count_estimate: tokens as i64,
    };
    let ghost old_view = chunks_view(chunks@);
    chunks.push(chunk);
    assert(chunks_view(chunks@) =~= old_view.push(chunk@));
}


/// The number of line breaks in `s`.
#[verifier::opaque]
pub open spec fn line_breaks(s: Seq<char>) -> int
    decreases s.len(),
{
    if s.len() == 0 {
        0
    } else {
        line_breaks(s.drop_last()) + if s.last() == '\n' {
            1int
        } else {
            0
        }
    }
}

/// The chunk was read from the stretch `content[a..b]`: its text is the
/// stretch trimmed, its byte offsets are the UTF-8 offsets of `a` and `b`,
/// it starts on the line (counted from 1) of the stretch's first character,
/// and it ends on the line of the stretch's last character or, when the
/// stretch reaches the end of the text, on the line after the text's last
/// line break.
#[verifier::opaque]
pub open spec fn chunk_at(content: Seq<char>, c: ChunkView, a: int, b: int) -> bool {
    &&& 0 <= a < b <= content.len()
    &&& c.start_byte == utf8_len(content.take(a))
    &&& c.end_byte == utf8_len(content.take(b))
    &&& c.content == trim(content.subrange(a, b))
    &&& c.start_line == 1 + line_breaks(content.take(a))
    &&& (c.end_line == 1 + line_breaks(content.take(b - 1)) || (b == content.len() && c.end_line
        == 1 + line_breaks(content)))
}

/// The chunk was read from some stretch of the source (see `chunk_at`).
pub open spec fn chunk_from_source(content: Seq<char>, c: ChunkView) -> bool {
    exists|a: int, b: int| #![trigger content.subrange(a, b)] chunk_at(content, c, a, b)
}

/// The empty prefix holds no line break.
proof fn lemma_line_breaks_start(s: Seq<char>)
    ensures
        line_breaks(s.take(0)) == 0,
{
    reveal(line_breaks);
    assert(s.take(0).len() == 0);
}

/// Line breaks are counted one character at a time.
proof fn lemma_line_breaks_step(s: Seq<char>, k: int)
    requires
        0 <= k < s.len(),
    ensures
        line_breaks(s.take(k + 1)) == line_breaks(s.take(k)) + if s[k] == '\n' {
            1int
        } else {
            0
        },
{
    reveal(line_breaks);
    assert(s.take(k + 1).drop_last() =~= s.take(k));
}

/// A longer prefix holds at least as many line breaks; exactly as many when
/// the characters between hold none.
proof fn lemma_line_breaks_mono(s: Seq<char>, i: int, j: int)
    requires
        0 <= i <= j <= s.len(),
    ensures
        line_breaks(s.take(i)) <= line_breaks(s.take(j)),
        (forall|x: int| i <= x < j ==> s[x] != '\n') ==> line_breaks(s.take(i)) == line_breaks(
            s.take(j),
        ),
    decreases j - i,
{
    if i < j {
        lemma_line_breaks_mono(s, i, j - 1);
        lemma_line_breaks_step(s, j - 1);
    }
}

/// What every chunk list produced from `content` satisfies: chunks are
/// numbered by position, non-blank, taken from the source in order without
/// overlapping, with a positive byte range, and with the line numbers of the
/// stretch each was read from (see `chunk_at`).
pub open spec fn chunks_sound(content: Seq<char>, cs: Seq<ChunkView>) -> bool {
    &&& forall|k: int|
        0 <= k < cs.len() ==> {
            &&& (#[trigger] cs[k]).chunk_index == k
            &&& cs[k].content.len() > 0
            &&& cs[k].start_byte < cs[k].end_byte
            &&& 1 <= cs[k].start_line <= cs[k].end_line
            &&& cs[k].token_count_estimate == ceil_quarter(cs[k].content.len())
            &&& chunk_from_source(content, cs[k])
        }
    &&& forall|k: int, l: int|
        0 <= k < l < cs.len() ==> (#[trigger] cs[k]).end_byte <= (#[trigger] cs[l]).start_byte
}

/// Every non-whitespace character before position `upto` lies inside the
/// byte range of some chunk.
pub open spec fn chunks_cover(content: Seq<char>, cs: Seq<ChunkView>, upto: int) -> bool {
    forall|p: int|
        0 <= p < upto && !is_ws(#[trigger] content[p]) ==> exists|k: int|
            0 <= k < cs.len() && (#[trigger] cs[k]).start_byte <= utf8_len(content.take(p))
                < cs[k].end_byte
}

/// The UTF-8 offset of a character lies in the byte range of any stretch
/// that holds it.
proof fn lemma_offset_within(content: Seq<char>, a: int, p: int, b: int)
    requires
        0 <= a <= p < b <= content.len(),
    ensures
        utf8_len(content.take(a)) <= utf8_len(content.take(p)) < utf8_len(content.take(b)),
{
    lemma_utf8_len_subrange(content, a, p);
    lemma_utf8_len_subrange(content, p + 1, b);
    assert(content.take(p + 1).drop_last() =~= content.take(p));
}

/// Sound chunks of a blank text: there are none.
proof fn lemma_blank_has_no_chunks(content: Seq<char>, cs: Seq<ChunkView>)
    requires
        chunks_sound(content, cs),
        all_ws(content),
    ensures
        cs.len() == 0,
{
    if cs.len() > 0 {
        let c = cs[0];
        assert(chunk_from_source(content, c));
        let (a, b) = choose|a: int, b: int|
            #![trigger content.subrange(a, b)]
            chunk_at(content, c, a, b);
        reveal(chunk_at);
        let sub = content.subrange(a, b);
        assert forall|i: int| 0 <= i < sub.len() implies is_ws(#[trigger] sub[i]) by {
            assert(sub[i] == content[a + i]);
        }
        lemma_trim_empty_iff_all_ws(sub);
    }
}

/// Sound chunks that cover a text are none exactly when the text is blank.
proof fn lemma_no_chunks_iff_blank(content: Seq<char>, cs: Seq<ChunkView>)
    requires
        chunks_sound(content, cs),
        chunks_cover(content, cs, content.len() as int),
    ensures
        cs.len() == 0 <==> all_ws(content),
{
    if all_ws(content) {
        lemma_blank_has_no_chunks(content, cs);
    } else {
        let p = choose|p: int| 0 <= p < content.len() && !is_ws(#[trigger] content[p]);
        assert(exists|k: int|
            0 <= k < cs.len() && (#[trigger] cs[k]).start_byte <= utf8_len(content.take(p))
                < cs[k].end_byte);
    }
}

/// The chunk that `emit` adds for the stretch `content[a..b]` was read from
/// that stretch.
proof fn lemma_emitted_chunk_at(
    content: Seq<char>,
    chunks: Seq<ChunkView>,
    a: int,
    b: int,
    start_line: int,
    end_line: int,
)
    requires
        0 <= a < b <= content.len(),
        trim(content.subrange(a, b)).len() > 0,
        start_line == 1 + line_breaks(content.take(a)),
        end_line == 1 + line_breaks(content.take(b - 1)) || (b == content.len() && end_line == 1
            + line_breaks(content)),
    ensures
        chunk_at(
            content,
            emit(
                chunks,
                content.subrange(a, b),
                utf8_len(content.take(a)) as int,
                start_line,
                utf8_len(content.take(b)) as int,
                end_line,
            )[chunks.len() as int],
            a,
            b,
        ),
        start_line >= 1,
{
    reveal(chunk_at);
    lemma_line_breaks_start(content);
    lemma_line_breaks_mono(content, 0, a);
    lemma_line_breaks_mono(content, a, b - 1);
    lemma_line_breaks_mono(content, a, content.len() as int);
    assert(content.take(content.len() as int) =~= content);
}

proof fn lemma_emit_sound(
    content: Seq<char>,
    chunks: Seq<ChunkView>,
    a: int,
    b: int,
    start_line: int,
    end_line: int,
)
    requires
        chunks_sound(content, chunks),
        0 <= a <= b <= content.len(),
        forall|k: int| 0 <= k < chunks.len() ==> (#[trigger] chunks[k]).end_byte <= utf8_len(content.take(a)),
        start_line == 1 + line_breaks(content.take(a)),
        a < b ==> (end_line == 1 + line_breaks(content.take(b - 1)) || (b == content.len()
            && end_line == 1 + line_breaks(content))),
        chunks_cover(content, chunks, a),
    ensures
        chunks_cover(
            content,
            emit(
                chunks,
                content.subrange(a, b),
                utf8_len(content.take(a)) as int,
                start_line,
                utf8_len(content.take(b)) as int,
                end_line,
            ),
            b,
        ),
        chunks_sound(
            content,
            emit(
                chunks,
                content.subrange(a, b),
                utf8_len(content.take(a)) as int,
                start_line,
                utf8_len(content.take(b)) as int,
                end_line,
            ),
        ),
        forall|k: int|
            0 <= k < emit(
                chunks,
                content.subrange(a, b),
                utf8_len(content.take(a)) as int,
                start_line,
                utf8_len(content.take(b)) as int,
                end_line,
            ).len() ==> (#[trigger] emit(
                chunks,
                content.subrange(a, b),
                utf8_len(content.take(a)) as int,
                start_line,
                utf8_len(content.take(b)) as int,
                end_line,
            )[k]).end_byte <= utf8_len(content.take(b)),
{
    lemma_utf8_len_subrange(content, a, b);
    let cur = content.subrange(a, b);
    let e = emit(
        chunks,
        cur,
        utf8_len(content.take(a)) as int,
        start_line,
        utf8_len(content.take(b)) as int,
        end_line,
    );
    lemma_trim_empty_iff_all_ws(cur);
    assert forall|p: int| 0 <= p < b && !is_ws(#[trigger] content[p]) implies exists|k: int|
        0 <= k < e.len() && (#[trigger] e[k]).start_byte <= utf8_len(content.take(p))
            < e[k].end_byte by {
        if p < a {
            let k = choose|k: int|
                0 <= k < chunks.len() && (#[trigger] chunks[k]).start_byte <= utf8_len(
                    content.take(p),
                ) < chunks[k].end_byte;
            assert(e[k] == chunks[k]);
        } else {
            assert(cur[p - a] == content[p]);
            assert(!all_ws(cur));
            lemma_offset_within(content, a, p, b);
            assert(e[chunks.len() as int].start_byte == utf8_len(content.take(a)));
        }
    }
    if trim(cur).len() > 0 {
        lemma_trim_len(cur);
        assert(a < b);
        lemma_utf8_len_bounds(content.subrange(a, b));
        let c = e[chunks.len() as int];
        lemma_emitted_chunk_at(content, chunks, a, b, start_line, end_line);
        assert(chunk_from_source(content, c)) by {
            assert(chunk_at(content, c, a, b));
        }
        assert forall|k: int| 0 <= k < e.len() implies {
            &&& (#[trigger] e[k]).chunk_index == k
            &&& e[k].content.len() > 0
            &&& e[k].start_byte < e[k].end_byte
            &&& 1 <= e[k].start_line <= e[k].end_line
            &&& e[k].token_count_estimate == ceil_quarter(e[k].content.len())
            &&& chunk_from_source(content, e[k])
        } by {
            if k < chunks.len() {
                assert(e[k] == chunks[k]);
            }
        }
        assert forall|k: int, l: int| 0 <= k < l < e.len() implies (#[trigger] e[k]).end_byte
            <= (#[trigger] e[l]).start_byte by {
            if l < chunks.len() {
                assert(e[k] == chunks[k] && e[l] == chunks[l]);
            } else {
                assert(e[k] == chunks[k]);
            }
        }
    }
}

pub open spec fn exec_state(
    chunks: Seq<PreparedChunk>,
    current: Seq<char>,
    start_byte: i64,
    start_line: i64,
    byte_offset: i64,
    line_number: i64,
) -> ChunkState {
    ChunkState {
        chunks: chunks_view(chunks),
        current,
        start_byte: start_byte as int,
        start_line: start_line as int,
        byte_offset: byte_offset as int,
        line_number: line_number as int,
    }
}

/// `chunk_text`: splits a document into chunks at line boundaries.
///
/// Lines are gathered into the current chunk.  Before a line is added, the
/// current text is closed as a chunk if it is not blank and either the line
/// would take it past `MAX_CHUNK_CHARS` characters or the line starts a code
/// item (`is_code_boundary`) while the chunk already holds
/// `TARGET_CHUNK_CHARS` characters.  After a blank line the chunk is closed
/// once it holds `TARGET_CHUNK_CHARS` characters.  Chunk text is trimmed and
/// blank chunks are dropped; byte offsets are UTF-8 offsets into `content`
/// and lines are numbered from 1.
#[verifier::rlimit(80)]
#[verifier::spinoff_prover]
pub fn chunk_text(content: &str) -> (r: Vec<PreparedChunk>)
    requires
        utf8_len(content@) < i64::MAX,
    ensures
        chunks_view(r@) == chunk_text_spec(content@),
        chunks_sound(content@, chunks_view(r@)),
        chunks_cover(content@, chunks_view(r@), content@.len() as int),
        r@.len() == 0 <==> all_ws(content@),
{
    let v = chars_of(content);
    let n = v.len();
    let mut chunks: Vec<PreparedChunk> = Vec::new();
    let mut current: Vec<char> = Vec::new();
    let mut start_byte: i64 = 0;
    let mut start_line: i64 = 1;
    let mut byte_offset: i64 = 0;
    let mut line_number: i64 = 1;
    let mut i: usize = 0;
    let ghost mut cs: nat = 0;
    proof {
        lemma_utf8_len_bounds(v@);
        lemma_line_breaks_start(v@);
        assert(v@.subrange(0, 0) =~= Seq::<char>::empty());
        assert(v@.skip(0) =~= v@);
        assert(v@.take(0) =~= Seq::<char>::empty());
        assert(chunks_view(chunks@) =~= Seq::<ChunkView>::empty());
        assert(current@ =~= Seq::<char>::empty());
    }
    while i < n
        invariant
            v@ == content@,
            n == v.len(),
            i <= n,
            utf8_len(v@) < i64::MAX,
            n <= utf8_len(v@),
            chunk_run(initial_chunk_state(), v@) == chunk_run(
                exec_state(chunks@, current@, start_byte, start_line, byte_offset, line_number),
                v@.skip(i as int),
            ),
            byte_offset as int == utf8_len(v@.take(i as int)),
            1 <= start_line <= line_number <= i + 1,
            line_number as int == 1 + line_breaks(v@.take(i as int)),
            start_line as int == 1 + line_breaks(v@.take(cs as int)),
            i == 0 || i == n || v@[i - 1] == '\n',
            chunks.len() + current.len() <= i,
            cs <= i,
            current@ == v@.subrange(cs as int, i as int),
            start_byte as int == utf8_len(v@.take(cs as int)),
            chunks_sound(v@, chunks_view(chunks@)),
            chunks_cover(v@, chunks_view(chunks@), cs as int),
            forall|k: int|
                0 <= k < chunks@.len() ==> (#[trigger] chunks_view(chunks@)[k]).end_byte
                    <= start_byte,
        decreases n - i,
    {
        let ghost st = exec_state(chunks@, current@, start_byte, start_line, byte_offset, line_number);
        let j = segment_end(&v, i);
        let seg = sub_chars(&v, i, j);
        proof {
            lemma_utf8_len_subrange(v@, i as int, j as int);
            lemma_utf8_len_subrange(v@, j as int, n as int);
            assert(v@.take(n as int) =~= v@);
            assert(v@.skip(i as int).take((j - i) as int) =~= seg@);
            assert(v@.skip(i as int).skip((j - i) as int) =~= v@.skip(j as int));
            lemma_line_breaks_mono(v@, i as int, j - 1);
            lemma_line_breaks_step(v@, j - 1);
            if i > 0 {
                lemma_line_breaks_step(v@, i - 1);
            }
        }
        let seg_bytes = utf8_len_of(&seg) as i64;
        let (ta, tb) = trim_bounds(&seg);
        let trimmed = sub_chars(&seg, ta, tb);
        let boundary = is_code_boundary(&trimmed);
        let (ca, cb) = trim_bounds(&current);
        let flush = ca < cb && (current.len() + seg.len() > MAX_CHUNK_CHARS || (boundary
            && current.len() >= TARGET_CHUNK_CHARS));
        if flush {
            let ghost cl = chunks.len();
            proof {
                lemma_emit_sound(v@, chunks_view(chunks@), cs as int, i as int, start_line as int, line_number - 1);
            }
            push_chunk(&mut chunks, &mut current, start_byte, byte_offset, start_line, line_number - 1);
            assert(chunks_view(chunks@).len() == chunks.len());
            assert(chunks.len() <= cl + 1);
            start_byte = byte_offset;
            start_line = line_number;
            proof {
                cs = i as nat;
                assert(v@.subrange(cs as int, i as int) =~= Seq::<char>::empty());
            }
        }
        let ghost s1 = exec_state(chunks@, current@, start_byte, start_line, byte_offset, line_number);
        extend_chars(&mut current, &seg);
        byte_offset = byte_offset + seg_bytes;
        let ghost s2 = exec_state(chunks@, current@, start_byte, start_line, byte_offset, line_number);
        assert(s2 == ChunkState { current: s1.current + seg@, byte_offset: s1.byte_offset + utf8_len(seg@), ..s1 });
        assert(current@ =~= v@.subrange(cs as int, j as int));
        if v[j - 1] == '\n' {
            if ta == tb && current.len() >= TARGET_CHUNK_CHARS {
                let ghost cl = chunks.len();
                proof {
                    lemma_emit_sound(v@, chunks_view(chunks@), cs as int, j as int, start_line as int, line_number as int);
                }
                push_chunk(&mut chunks, &mut current, start_byte, byte_offset, start_line, line_number);
                assert(chunks_view(chunks@).len() == chunks.len());
                assert(chunks.len() <= cl + 1);
                start_byte = byte_offset;
                start_line = line_number + 1;
                proof {
                    cs = j as nat;
                    assert(v@.subrange(cs as int, j as int) =~= Seq::<char>::empty());
                }
            }
            line_number = line_number + 1;
        }
        assert(seg@.last() == v@[j - 1]);
        assert(exec_state(chunks@, current@, start_byte, start_line, byte_offset, line_number)
            == chunk_step(st, seg@));
        i = j;
    }
    proof {
        assert(v@.take(n as int) =~= v@);
        lemma_emit_sound(v@, chunks_view(chunks@), cs as int, n as int, start_line as int, line_number as int);
    }
    push_chunk(&mut chunks, &mut current, start_byte, byte_offset, start_line, line_number);
    proof {
        lemma_no_chunks_iff_blank(v@, chunks_view(chunks@));
    }
    chunks
}

} // verus!
