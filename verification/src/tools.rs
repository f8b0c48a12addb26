//! Tool requests written by the model: finding the JSON in an answer,
//! reading the requested tool and its arguments, the summary shown to the
//! user and the redacted arguments kept in the log.
use vstd::prelude::*;
use crate::json::{json_object_text, metadata_json, pairs_view};
use crate::digits::{dec_digits, push_dec};
use crate::domain::string_result_view;
use crate::text::{
    chars_of, extend_chars, extend_str, is_ascii_lower, join_with, lower_seq, starts_with,
    starts_with_str, str_eq, string_of, sub_chars, to_ascii_lower, trim, trim_chars, trim_str,
    truncate_inline, truncate_inline_spec,
};

verus! {

// ---------------------------------------------------------------------------
// Finding the JSON
// ---------------------------------------------------------------------------

/// Three backticks, which open and close a fenced block.
pub open spec fn fence() -> Seq<char> {
    seq!['`', '`', '`']
}

/// Does `pat` occur in `s` at position `i`?
pub open spec fn occurs_at(s: Seq<char>, pat: Seq<char>, i: int) -> bool {
    0 <= i && i + pat.len() <= s.len() && s.subrange(i, i + pat.len()) == pat
}

/// The last position where `pat` occurs in `s` (`rfind`).
pub open spec fn last_occurrence(s: Seq<char>, pat: Seq<char>) -> Option<int> {
    if exists|i: int| occurs_at(s, pat, i) {
        Some(choose|i: int| occurs_at(s, pat, i) && forall|j: int| occurs_at(s, pat, j) ==> j <= i)
    } else {
        None
    }
}

/// The first position of a character (`find`).
pub open spec fn first_char(s: Seq<char>, c: char) -> Option<int> {
    if exists|i: int| 0 <= i < s.len() && s[i] == c {
        Some(choose|i: int| 0 <= i < s.len() && s[i] == c && forall|j: int| 0 <= j < i ==> s[j] != c)
    } else {
        None
    }
}

/// The last position of a character (`rfind`).
pub open spec fn last_char(s: Seq<char>, c: char) -> Option<int> {
    if exists|i: int| 0 <= i < s.len() && s[i] == c {
        Some(choose|i: int| 0 <= i < s.len() && s[i] == c && forall|j: int| i < j < s.len() ==> s[j] != c)
    } else {
        None
    }
}

/// What `extract_json_candidate` answers for a trimmed answer: the JSON
/// text to read, and whether the answer is nothing but that request.
/// A fenced block (```` ``` ```` or ```` ```json ````) gives its trimmed
/// inside; an answer that is one `{...}` gives itself; otherwise the text
/// from the first `{` to the last `}`, trimmed, when they are in order.
pub open spec fn json_candidate(content: Seq<char>) -> Option<(Seq<char>, bool)> {
    let fenced = starts_with(content, fence());
    let inner = trim(
        if starts_with(content, "```json"@) {
            content.skip(7)
        } else {
            content.skip(3)
        },
    );
    if fenced && last_occurrence(inner, fence()) is Some {
        Some((trim(inner.take(last_occurrence(inner, fence())->0)), true))
    } else if content.len() > 0 && content[0] == '{' && content.last() == '}' {
        Some((content, true))
    } else {
        match (first_char(content, '{'), last_char(content, '}')) {
            (Some(a), Some(b)) => if b <= a {
                None
            } else {
                Some((trim(content.subrange(a, b + 1)), false))
            },
            _ => None,
        }
    }
}

fn find_last_fence(v: &Vec<char>) -> (r: Option<usize>)
    ensures
        match r {
            Some(i) => last_occurrence(v@, fence()) == Some(i as int) && i + 3 <= v@.len(),
            None => last_occurrence(v@, fence()) is None,
        },
{
    let n = v.len();
    let mut k = n;
    while k >= 3
        invariant
            k <= n == v@.len(),
            forall|j: int| k - 3 < j && occurs_at(v@, fence(), j) ==> false,
        decreases k,
    {
        let i = k - 3;
        if v[i] == '`' && v[i + 1] == '`' && v[i + 2] == '`' {
            proof {
                assert(v@.subrange(i as int, i as int + 3) =~= fence());
                assert(occurs_at(v@, fence(), i as int));
                let c = choose|x: int|
                    occurs_at(v@, fence(), x) && forall|j: int| occurs_at(v@, fence(), j) ==> j <= x;
                assert forall|j: int| occurs_at(v@, fence(), j) implies j <= i by {}
                assert(c == i);
            }
            return Some(i);
        }
        proof {
            if occurs_at(v@, fence(), i as int) {
                assert(v@.subrange(i as int, i as int + 3)[0] == v@[i as int]);
                assert(v@.subrange(i as int, i as int + 3)[1] == v@[i + 1]);
                assert(v@.subrange(i as int, i as int + 3)[2] == v@[i + 2]);
            }
        }
        k = k - 1;
    }
    None
}

fn find_first_char(v: &Vec<char>, c: char) -> (r: Option<usize>)
    ensures
        match r {
            Some(i) => first_char(v@, c) == Some(i as int) && i < v@.len(),
            None => first_char(v@, c) is None,
        },
{
    let mut i: usize = 0;
    while i < v.len()
        invariant
            i <= v@.len(),
            forall|j: int| 0 <= j < i ==> v@[j] != c,
        decreases v@.len() - i,
    {
        if v[i] == c {
            proof {
                let x = choose|x: int|
                    0 <= x < v@.len() && v@[x] == c && forall|j: int| 0 <= j < x ==> v@[j] != c;
                assert(x == i);
            }
            return Some(i);
        }
        i = i + 1;
    }
    None
}

fn find_last_char(v: &Vec<char>, c: char) -> (r: Option<usize>)
    ensures
        match r {
            Some(i) => last_char(v@, c) == Some(i as int) && i < v@.len(),
            None => last_char(v@, c) is None,
        },
{
    let mut k = v.len();
    while k > 0
        invariant
            k <= v@.len(),
            forall|j: int| k <= j < v@.len() ==> v@[j] != c,
        decreases k,
    {
        if v[k - 1] == c {
            proof {
                let x = choose|x: int|
                    0 <= x < v@.len() && v@[x] == c && forall|j: int| x < j < v@.len() ==> v@[j] != c;
                assert(x == k - 1);
            }
            return Some(k - 1);
        }
        k = k - 1;
    }
    None
}

/// The inside of a fenced block, if the answer is one.
fn fenced_candidate(content: &Vec<char>) -> (r: Option<Vec<char>>)
    ensures
        ({
            let inner = trim(
                if starts_with(content@, "```json"@) {
                    content@.skip(7)
                } else {
                    content@.skip(3)
                },
            );
            let fenced = starts_with(content@, fence());
            match r {
                Some(c) => fenced && last_occurrence(inner, fence()) is Some && c@ == trim(
                    inner.take(last_occurrence(inner, fence())->0),
                ),
                None => !(fenced && last_occurrence(inner, fence()) is Some),
            }
        }),
{
    proof {
        reveal_strlit("```");
        reveal_strlit("```json");
        assert("```"@ =~= fence());
    }
    let n = content.len();
    if !starts_with_str(content, "```") {
        return None;
    }
    let skip: usize = if starts_with_str(content, "```json") {
        7
    } else {
        3
    };
    let rest = sub_chars(content, skip, n);
    assert(rest@ =~= content@.skip(skip as int));
    let inner = trim_chars(&rest);
    match find_last_fence(&inner) {
        Some(end) => {
            let head = sub_chars(&inner, 0, end);
            assert(head@ =~= inner@.take(end as int));
            Some(trim_chars(&head))
        },
        None => None,
    }
}

/// The text from the first `{` to the last `}`, trimmed.
fn braced_candidate(content: &Vec<char>) -> (r: Option<Vec<char>>)
    ensures
        match r {
            Some(c) => match (first_char(content@, '{'), last_char(content@, '}')) {
                (Some(a), Some(b)) => a < b && c@ == trim(content@.subrange(a, b + 1)),
                _ => false,
            },
            None => match (first_char(content@, '{'), last_char(content@, '}')) {
                (Some(a), Some(b)) => b <= a,
                _ => true,
            },
        },
{
    let start = match find_first_char(content, '{') {
        Some(s) => s,
        None => {
            return None;
        },
    };
    let end = match find_last_char(content, '}') {
        Some(e) => e,
        None => {
            return None;
        },
    };
    if end <= start {
        return None;
    }
    let n = content.len();
    assert(end < n);
    let piece = sub_chars(content, start, end + 1);
    Some(trim_chars(&piece))
}

/// `extract_json_candidate` on a trimmed answer.
pub fn extract_json_candidate(content: &Vec<char>) -> (r: Option<(Vec<char>, bool)>)
    ensures
        match r {
            Some((c, only)) => json_candidate(content@) == Some((c@, only)),
            None => json_candidate(content@) is None,
        },
{
    if let Some(c) = fenced_candidate(content) {
        return Some((c, true));
    }
    let n = content.len();
    if n > 0 && content[0] == '{' && content[n - 1] == '}' {
        let c = sub_chars(content, 0, n);
        assert(c@ =~= content@);
        return Some((c, true));
    }
    match braced_candidate(content) {
        Some(c) => Some((c, false)),
        None => None,
    }
}

/// What `normalize_tool_name` answers: the trimmed name in lower case, when
/// it is non-empty and made of lower-case ASCII letters and underscores.
pub open spec fn normalized_tool_name(name: Seq<char>) -> Option<Seq<char>> {
    let n = lower_seq(trim(name));
    if n.len() > 0 && forall|i: int| 0 <= i < n.len() ==> (is_ascii_lower(#[trigger] n[i]) || n[i] == '_') {
        Some(n)
    } else {
        None
    }
}

/// `normalize_tool_name`.
pub fn normalize_tool_name(tool_name: &str) -> (r: Option<String>)
    ensures
        match r {
            Some(n) => normalized_tool_name(tool_name@) == Some(n@),
            None => normalized_tool_name(tool_name@) is None,
        },
{
    let t = trim_str(tool_name);
    let mut n: Vec<char> = Vec::new();
    let mut i: usize = 0;
    while i < t.len()
        invariant
            i <= t@.len(),
            n@ == lower_seq(t@.take(i as int)),
        decreases t@.len() - i,
    {
        n.push(to_ascii_lower(t[i]));
        assert(lower_seq(t@.take(i as int + 1)) =~= lower_seq(t@.take(i as int)).push(
            crate::text::lower_char(t@[i as int]),
        ));
        i = i + 1;
    }
    assert(t@.take(t@.len() as int) =~= t@);
    if n.len() == 0 {
        return None;
    }
    let mut j: usize = 0;
    while j < n.len()
        invariant
            j <= n@.len(),
            n@ == lower_seq(trim(tool_name@)),
            forall|k: int| 0 <= k < j ==> (is_ascii_lower(#[trigger] n@[k]) || n@[k] == '_'),
        decreases n@.len() - j,
    {
        let c = n[j];
        if !(('a' <= c && c <= 'z') || c == '_') {
            assert(!(is_ascii_lower(n@[j as int]) || n@[j as int] == '_'));
            return None;
        }
        j = j + 1;
    }
    Some(string_of(&n))
}

// ---------------------------------------------------------------------------
// JSON values, as far as tool requests read them
// ---------------------------------------------------------------------------

/// A JSON value as a tool request reads it: null, a string, or any other
/// value kept as its JSON text.
pub enum JsonItem {
    Null,
    Str(String),
    Other(String),
}

pub enum JsonItemView {
    Null,
    Str(Seq<char>),
    Other(Seq<char>),
}

pub open spec fn item_view(i: JsonItem) -> JsonItemView {
    match i {
        JsonItem::Null => JsonItemView::Null,
        JsonItem::Str(s) => JsonItemView::Str(s@),
        JsonItem::Other(t) => JsonItemView::Other(t@),
    }
}

pub open spec fn entries_view(v: Seq<(String, JsonItem)>) -> Seq<(Seq<char>, JsonItemView)> {
    v.map_values(|e: (String, JsonItem)| (e.0@, item_view(e.1)))
}

pub open spec fn items_view(v: Seq<JsonItem>) -> Seq<JsonItemView> {
    v.map_values(|i: JsonItem| item_view(i))
}

/// The members of the JSON object that `serde_json` reads from a text, in
/// its key order, each value as a `JsonItem`; `None` when the text is not
/// a JSON object.
pub uninterp spec fn json_object_entries(text: Seq<char>) -> Option<Seq<(Seq<char>, JsonItemView)>>;

/// The elements of the JSON array that `serde_json` reads from a text;
/// `None` when the text is not a JSON array.
pub uninterp spec fn json_array_items(text: Seq<char>) -> Option<Seq<JsonItemView>>;

/// The text `serde_json::to_string` gives for a value; `None` when it
/// fails.  For a value kept as JSON text this one name covers two calls:
/// `serde_json::from_str` reads the text back, then `to_string` writes it
/// (`None` when either fails).
pub uninterp spec fn json_item_text(item: JsonItemView) -> Option<Seq<char>>;

/// The text `serde_json::to_string` gives for an object with these
/// members; `None` when it fails.  For members kept as JSON text this one
/// name covers two calls: `serde_json::from_str` reads each such text back,
/// then `to_string` writes the object (`None` when any of them fails).
pub uninterp spec fn json_entries_text(entries: Seq<(Seq<char>, JsonItemView)>) -> Option<Seq<char>>;

/// `serde_json::from_str` read as an object.  The contract names the
/// members and says nothing of JSON syntax.
#[verifier::external_body]
pub(crate) fn parse_json_object(text: &str) -> (r: Option<Vec<(String, JsonItem)>>)
    ensures
        match r {
            Some(v) => json_object_entries(text@) == Some(entries_view(v@)),
            None => json_object_entries(text@) is None,
        },
{
    let map = serde_json::from_str::<serde_json::Map<String, serde_json::Value>>(text).ok()?;
    Some(map.into_iter().map(|(key, value)| (key, match value {
        serde_json::Value::Null => JsonItem::Null,
        serde_json::Value::String(s) => JsonItem::Str(s),
        other => JsonItem::Other(other.to_string()),
    })).collect())
}

/// `serde_json::from_str` read as an array.  The contract names the
/// elements and says nothing of JSON syntax.
#[verifier::external_body]
fn parse_json_array(text: &str) -> (r: Option<Vec<JsonItem>>)
    ensures
        match r {
            Some(v) => json_array_items(text@) == Some(items_view(v@)),
            None => json_array_items(text@) is None,
        },
{
    let items = serde_json::from_str::<Vec<serde_json::Value>>(text).ok()?;
    Some(items.into_iter().map(|value| match value {
        serde_json::Value::Null => JsonItem::Null,
        serde_json::Value::String(s) => JsonItem::Str(s),
        other => JsonItem::Other(other.to_string()),
    }).collect())
}

/// `serde_json::to_string` of one value.  The contract names the text; it
/// says that a null or a string is always written, since `to_string` fails
/// only for a failing `Serialize` or a map whose keys are not strings.  A
/// value kept as JSON text is read back first, which the contract leaves
/// open.
#[verifier::external_body]
fn item_json_text(item: &JsonItem) -> (r: Option<String>)
    ensures
        match r {
            Some(t) => json_item_text(item_view(*item)) == Some(t@),
            None => json_item_text(item_view(*item)) is None,
        },
        !(item_view(*item) is Other) ==> r is Some,
{
    let value = match item {
        JsonItem::Null => serde_json::Value::Null,
        JsonItem::Str(s) => serde_json::Value::String(s.clone()),
        JsonItem::Other(t) => serde_json::from_str::<serde_json::Value>(t).ok()?,
    };
    serde_json::to_string(&value).ok()
}

/// `serde_json::to_string` of an object.  The contract names the text; it
/// says that an object whose members are nulls and strings is always
/// written (an object of such values with string keys cannot make
/// `to_string` fail).  Members kept as JSON text are read back first, which
/// the contract leaves open.
#[verifier::external_body]
fn entries_json_text(entries: &Vec<(String, JsonItem)>) -> (r: Option<String>)
    ensures
        match r {
            Some(t) => json_entries_text(entries_view(entries@)) == Some(t@),
            None => json_entries_text(entries_view(entries@)) is None,
        },
        (forall|i: int| 0 <= i < entries@.len() ==> !(item_view(#[trigger] entries@[i].1) is Other))
            ==> r is Some,
{
    let mut map = serde_json::Map::new();
    for (key, item) in entries {
        let value = match item {
            JsonItem::Null => serde_json::Value::Null,
            JsonItem::Str(s) => serde_json::Value::String(s.clone()),
            JsonItem::Other(t) => serde_json::from_str::<serde_json::Value>(t).ok()?,
        };
        map.insert(key.clone(), value);
    }
    serde_json::to_string(&serde_json::Value::Object(map)).ok()
}

/// The arguments of a tool request.
pub enum Arguments {
    /// An object (also when the arguments were missing or null).
    Object(Vec<(String, JsonItem)>),
    /// A string.
    Str(String),
    /// Any other value, as its JSON text.
    Other(String),
}

pub enum ArgumentsView {
    Object(Seq<(Seq<char>, JsonItemView)>),
    Str(Seq<char>),
    Other(Seq<char>),
}

pub open spec fn arguments_view(a: Arguments) -> ArgumentsView {
    match a {
        Arguments::Object(es) => ArgumentsView::Object(entries_view(es@)),
        Arguments::Str(s) => ArgumentsView::Str(s@),
        Arguments::Other(t) => ArgumentsView::Other(t@),
    }
}

/// The value under a key of an object's members (the first, should a key
/// repeat).
pub open spec fn lookup(entries: Seq<(Seq<char>, JsonItemView)>, key: Seq<char>) -> Option<JsonItemView>
    decreases entries.len(),
{
    if entries.len() == 0 {
        None
    } else if entries[0].0 == key {
        Some(entries[0].1)
    } else {
        lookup(entries.drop_first(), key)
    }
}

/// `arguments.get(key).and_then(Value::as_str)`.
pub open spec fn string_field(args: ArgumentsView, key: Seq<char>) -> Option<Seq<char>> {
    match args {
        ArgumentsView::Object(es) => match lookup(es, key) {
            Some(JsonItemView::Str(s)) => Some(s),
            _ => None,
        },
        _ => None,
    }
}

fn lookup_exec(entries: &Vec<(String, JsonItem)>, key: &str) -> (r: Option<usize>)
    ensures
        match r {
            Some(i) => i < entries@.len() && lookup(entries_view(entries@), key@) == Some(
                item_view(entries@[i as int].1),
            ),
            None => lookup(entries_view(entries@), key@) is None,
        },
{
    let ghost es = entries_view(entries@);
    let mut i: usize = 0;
    assert(es.skip(0) =~= es);
    while i < entries.len()
        invariant
            i <= entries@.len(),
            es == entries_view(entries@),
            lookup(es, key@) == lookup(es.skip(i as int), key@),
        decreases entries@.len() - i,
    {
        let ghost rest = es.skip(i as int);
        assert(rest.drop_first() =~= es.skip(i as int + 1));
        assert(rest[0] == (entries@[i as int].0@, item_view(entries@[i as int].1)));
        if str_eq(entries[i].0.as_str(), key) {
            return Some(i);
        }
        i = i + 1;
    }
    assert(es.skip(entries@.len() as int) =~= Seq::<(Seq<char>, JsonItemView)>::empty());
    None
}

/// `arguments.get(key).and_then(Value::as_str)` on arguments.
pub fn get_string_field(args: &Arguments, key: &str) -> (r: Option<String>)
    ensures
        opt_view(r) == string_field(arguments_view(*args), key@),
{
    match args {
        Arguments::Object(entries) => match lookup_exec(entries, key) {
            Some(i) => match &entries[i].1 {
                JsonItem::Str(s) => Some(s.clone()),
                _ => None,
            },
            None => None,
        },
        _ => None,
    }
}

pub open spec fn opt_view(o: Option<String>) -> Option<Seq<char>> {
    match o {
        Some(s) => Some(s@),
        None => None,
    }
}

// ---------------------------------------------------------------------------
// Reading a request
// ---------------------------------------------------------------------------

/// The requested tool's name and arguments, read from an object's members
/// the way `serde` fills a struct: `tool_name` must be a string; missing or
/// null arguments become `None`.
pub open spec fn request_from_entries(es: Seq<(Seq<char>, JsonItemView)>) -> Option<
    (Seq<char>, Option<JsonItemView>),
> {
    match lookup(es, "tool_name"@) {
        Some(JsonItemView::Str(name)) => Some(
            (
                name,
                match lookup(es, "arguments"@) {
                    Some(JsonItemView::Null) => None,
                    Some(v) => Some(v),
                    None => None,
                },
            ),
        ),
        _ => None,
    }
}

/// The same from an array: exactly the name and the arguments.
pub open spec fn request_from_items(items: Seq<JsonItemView>) -> Option<
    (Seq<char>, Option<JsonItemView>),
> {
    if items.len() != 2 {
        None
    } else {
        match items[0] {
            JsonItemView::Str(name) => Some(
                (
                    name,
                    match items[1] {
                        JsonItemView::Null => None,
                        v => Some(v),
                    },
                ),
            ),
            _ => None,
        }
    }
}

/// The request inside an `atlas_tool_call` member.
pub open spec fn request_from_item(item: JsonItemView) -> Option<(Seq<char>, Option<JsonItemView>)> {
    match item {
        JsonItemView::Other(t) => match json_object_entries(t) {
            Some(es) => request_from_entries(es),
            None => match json_array_items(t) {
                Some(items) => request_from_items(items),
                None => None,
            },
        },
        _ => None,
    }
}

/// The request a JSON text holds: wrapped in `atlas_tool_call`, or direct
/// with a `tool_name` member.
pub open spec fn request_in_json(text: Seq<char>) -> Option<(Seq<char>, Option<JsonItemView>)> {
    match json_object_entries(text) {
        Some(es) => if lookup(es, "atlas_tool_call"@) is Some {
            request_from_item(lookup(es, "atlas_tool_call"@)->0)
        } else if lookup(es, "tool_name"@) is Some {
            request_from_entries(es)
        } else {
            None
        },
        None => None,
    }
}

/// Arguments as the request's tools read them: missing ones are an empty
/// object.
pub open spec fn arguments_of(item: Option<JsonItemView>) -> ArgumentsView {
    match item {
        None => ArgumentsView::Object(Seq::empty()),
        Some(JsonItemView::Null) => ArgumentsView::Object(Seq::empty()),
        Some(JsonItemView::Str(s)) => ArgumentsView::Str(s),
        Some(JsonItemView::Other(t)) => match json_object_entries(t) {
            Some(es) => ArgumentsView::Object(es),
            None => ArgumentsView::Other(t),
        },
    }
}

fn clone_item(i: &JsonItem) -> (r: JsonItem)
    ensures
        item_view(r) == item_view(*i),
{
    match i {
        JsonItem::Null => JsonItem::Null,
        JsonItem::Str(s) => JsonItem::Str(s.clone()),
        JsonItem::Other(t) => JsonItem::Other(t.clone()),
    }
}

fn request_from_entries_exec(es: &Vec<(String, JsonItem)>) -> (r: Option<(String, Option<JsonItem>)>)
    ensures
        match r {
            Some((name, args)) => request_from_entries(entries_view(es@)) == Some(
                (
                    name@,
                    match args {
                        Some(a) => Some(item_view(a)),
                        None => None,
                    },
                ),
            ),
            None => request_from_entries(entries_view(es@)) is None,
        },
{
    let name = match lookup_exec(es, "tool_name") {
        Some(i) => match &es[i].1 {
            JsonItem::Str(s) => s.clone(),
            _ => {
                return None;
            },
        },
        None => {
            return None;
        },
    };
    let args = match lookup_exec(es, "arguments") {
        Some(i) => match &es[i].1 {
            JsonItem::Null => None,
            other => Some(clone_item(other)),
        },
        None => None,
    };
    Some((name, args))
}

fn request_from_items_exec(items: &Vec<JsonItem>) -> (r: Option<(String, Option<JsonItem>)>)
    ensures
        match r {
            Some((name, args)) => request_from_items(items_view(items@)) == Some(
                (
                    name@,
                    match args {
                        Some(a) => Some(item_view(a)),
                        None => None,
                    },
                ),
            ),
            None => request_from_items(items_view(items@)) is None,
        },
{
    if items.len() != 2 {
        return None;
    }
    let name = match &items[0] {
        JsonItem::Str(s) => s.clone(),
        _ => {
            return None;
        },
    };
    let args = match &items[1] {
        JsonItem::Null => None,
        other => Some(clone_item(other)),
    };
    Some((name, args))
}

pub open spec fn opt_item_view(o: Option<JsonItem>) -> Option<JsonItemView> {
    match o {
        Some(a) => Some(item_view(a)),
        None => None,
    }
}

/// Reads the request a JSON text holds.
fn read_request(text: &str) -> (r: Option<(String, Option<JsonItem>)>)
    ensures
        match r {
            Some((name, args)) => request_in_json(text@) == Some((name@, opt_item_view(args))),
            None => request_in_json(text@) is None,
        },
{
    let es = match parse_json_object(text) {
        Some(es) => es,
        None => {
            return None;
        },
    };
    match lookup_exec(&es, "atlas_tool_call") {
        Some(i) => match &es[i].1 {
            JsonItem::Other(t) => match parse_json_object(t.as_str()) {
                Some(inner) => request_from_entries_exec(&inner),
                None => match parse_json_array(t.as_str()) {
                    Some(items) => request_from_items_exec(&items),
                    None => None,
                },
            },
            _ => None,
        },
        None => match lookup_exec(&es, "tool_name") {
            Some(_) => request_from_entries_exec(&es),
            None => None,
        },
    }
}

/// Arguments of a request, as its tools read them.
fn read_arguments(item: Option<JsonItem>) -> (r: Arguments)
    ensures
        arguments_view(r) == arguments_of(opt_item_view(item)),
{
    let empty: Vec<(String, JsonItem)> = Vec::new();
    assert(entries_view(empty@) =~= Seq::<(Seq<char>, JsonItemView)>::empty());
    match item {
        None => Arguments::Object(empty),
        Some(JsonItem::Null) => Arguments::Object(empty),
        Some(JsonItem::Str(s)) => Arguments::Str(s),
        Some(JsonItem::Other(t)) => match parse_json_object(t.as_str()) {
            Some(es) => Arguments::Object(es),
            None => Arguments::Other(t),
        },
    }
}

// ---------------------------------------------------------------------------
// Summaries and redaction
// ---------------------------------------------------------------------------

pub open spec fn inline(s: Seq<char>, n: nat) -> Seq<char> {
    truncate_inline_spec(s, n)
}

pub open spec fn field_or_missing(args: ArgumentsView, key: Seq<char>, n: nat) -> Seq<char> {
    match string_field(args, key) {
        Some(v) => inline(v, n),
        None => "missing"@,
    }
}

pub open spec fn argument_keys(args: ArgumentsView) -> Seq<char> {
    match args {
        ArgumentsView::Object(es) => join_with(
            es.map_values(|e: (Seq<char>, JsonItemView)| e.0),
            ", "@,
        ),
        _ => "none"@,
    }
}

/// What `summarize_arguments` answers: the argument a person needs to
/// judge the request, per tool.
pub open spec fn arguments_summary(tool: Seq<char>, args: ArgumentsView) -> Seq<char> {
    if tool == "search_index"@ {
        match string_field(args, "query"@) {
            Some(q) => "query: \""@ + inline(q, 120) + "\""@,
            None => "query: missing"@,
        }
    } else if tool == "read_file_chunk"@ {
        match string_field(args, "chunk_id"@) {
            Some(c) => "chunk_id: "@ + inline(c, 80),
            None => "chunk_id: missing"@,
        }
    } else if tool == "get_model_stats"@ {
        match string_field(args, "model_name"@) {
            Some(m) => "model_name: "@ + inline(m, 80),
            None => "model_name: missing"@,
        }
    } else if tool == "summarize_document"@ {
        match string_field(args, "document_id"@) {
            Some(d) => "document_id: "@ + inline(d, 80),
            None => "document_id: missing"@,
        }
    } else if tool == "create_note"@ {
        "title: "@ + field_or_missing(args, "title"@, 80) + "; content: "@ + dec_digits(
            match string_field(args, "content"@) {
                Some(c) => c.len(),
                None => 0,
            },
        ) + " chars"@
    } else if tool == "export_chat"@ {
        "conversation_id: "@ + field_or_missing(args, "conversation_id"@, 80) + "; format: "@
            + field_or_missing(args, "format"@, 40)
    } else {
        "argument keys: "@ + argument_keys(args)
    }
}

fn labelled_field(args: &Arguments, key: &str, prefix: &str, n: usize, missing: &str) -> (r: Vec<char>)
    ensures
        r@ == match string_field(arguments_view(*args), key@) {
            Some(v) => prefix@ + inline(v, n as nat),
            None => missing@,
        },
{
    match get_string_field(args, key) {
        Some(v) => {
            let mut out = chars_of(prefix);
            let t = truncate_inline(v.as_str(), n);
            extend_str(&mut out, t.as_str());
            out
        },
        None => chars_of(missing),
    }
}

fn field_or_missing_exec(args: &Arguments, key: &str, n: usize) -> (r: Vec<char>)
    ensures
        r@ == field_or_missing(arguments_view(*args), key@, n as nat),
{
    proof {
        reveal_strlit("missing");
    }
    let r = labelled_field(args, key, "", n, "missing");
    proof {
        reveal_strlit("");
        match string_field(arguments_view(*args), key@) {
            Some(v) => {
                assert(""@ + inline(v, n as nat) =~= inline(v, n as nat));
            },
            None => {},
        }
    }
    r
}

/// `summarize_arguments`.
pub fn summarize_arguments(tool_name: &str, args: &Arguments) -> (r: String)
    ensures
        r@ == arguments_summary(tool_name@, arguments_view(*args)),
{
    let out: Vec<char> = if str_eq(tool_name, "search_index") {
        match get_string_field(args, "query") {
            Some(q) => {
                let mut o = chars_of("query: \"");
                let t = truncate_inline(q.as_str(), 120);
                extend_str(&mut o, t.as_str());
                extend_str(&mut o, "\"");
                o
            },
            None => chars_of("query: missing"),
        }
    } else if str_eq(tool_name, "read_file_chunk") {
        labelled_field(args, "chunk_id", "chunk_id: ", 80, "chunk_id: missing")
    } else if str_eq(tool_name, "get_model_stats") {
        labelled_field(args, "model_name", "model_name: ", 80, "model_name: missing")
    } else if str_eq(tool_name, "summarize_document") {
        labelled_field(args, "document_id", "document_id: ", 80, "document_id: missing")
    } else if str_eq(tool_name, "create_note") {
        let mut o = chars_of("title: ");
        let title = field_or_missing_exec(args, "title", 80);
        extend_chars(&mut o, &title);
        extend_str(&mut o, "; content: ");
        let count: usize = match get_string_field(args, "content") {
            Some(c) => chars_of(c.as_str()).len(),
            None => 0,
        };
        push_dec(&mut o, count as u64);
        extend_str(&mut o, " chars");
        o
    } else if str_eq(tool_name, "export_chat") {
        let mut o = chars_of("conversation_id: ");
        let id = field_or_missing_exec(args, "conversation_id", 80);
        extend_chars(&mut o, &id);
        extend_str(&mut o, "; format: ");
        let format = field_or_missing_exec(args, "format", 40);
        extend_chars(&mut o, &format);
        o
    } else {
        let mut o = chars_of("argument keys: ");
        match args {
            Arguments::Object(entries) => {
                let mut keys: Vec<Vec<char>> = Vec::new();
                let mut i: usize = 0;
                while i < entries.len()
                    invariant
                        i <= entries@.len(),
                        crate::text::views(keys@) == entries_view(entries@).take(i as int).map_values(
                            |e: (Seq<char>, JsonItemView)| e.0,
                        ),
                    decreases entries@.len() - i,
                {
                    let k = chars_of(entries[i].0.as_str());
                    let ghost before = crate::text::views(keys@);
                    keys.push(k);
                    assert(crate::text::views(keys@) =~= before.push(k@));
                    assert(entries_view(entries@).take(i as int + 1).map_values(
                        |e: (Seq<char>, JsonItemView)| e.0,
                    ) =~= entries_view(entries@).take(i as int).map_values(
                        |e: (Seq<char>, JsonItemView)| e.0,
                    ).push(entries@[i as int].0@));
                    i = i + 1;
                }
                assert(entries_view(entries@).take(entries@.len() as int) =~= entries_view(
                    entries@,
                ));
                let sep = chars_of(", ");
                let joined = crate::text::join_chars(&keys, &sep);
                extend_chars(&mut o, &joined);
            },
            _ => extend_str(&mut o, "none"),
        }
        o
    };
    proof {
        reveal_strlit("search_index");
        reveal_strlit("read_file_chunk");
        reveal_strlit("get_model_stats");
        reveal_strlit("summarize_document");
        reveal_strlit("create_note");
        reveal_strlit("export_chat");
    }
    assert(out@ =~= arguments_summary(tool_name@, arguments_view(*args)));
    string_of(&out)
}

/// Tools whose arguments are logged as given.
pub open spec fn logs_arguments_as_given(tool: Seq<char>) -> bool {
    tool == "search_index"@ || tool == "read_file_chunk"@ || tool == "get_model_stats"@ || tool
        == "summarize_document"@ || tool == "export_chat"@
}

/// The members logged for a note: its title (shortened) and the length of
/// its content, never the content itself.
pub open spec fn note_log_pairs(args: ArgumentsView) -> Seq<(Seq<char>, Seq<char>)> {
    (match string_field(args, "title"@) {
        Some(t) => seq![("title"@, inline(t, 120))],
        None => Seq::empty(),
    }) + (match string_field(args, "content"@) {
        Some(c) => seq![("content"@, "<redacted "@ + dec_digits(c.len()) + " chars>"@)],
        None => Seq::empty(),
    })
}

/// The logged form of a tool call's arguments, as JSON text: arguments of read-only tools as given, a note's title and
/// content length, and for any other tool only the argument names.
pub open spec fn logged_arguments(tool: Seq<char>, args: ArgumentsView) -> Option<Seq<char>> {
    if logs_arguments_as_given(tool) {
        match args {
            ArgumentsView::Object(es) => json_entries_text(es),
            ArgumentsView::Str(s) => json_item_text(JsonItemView::Str(s)),
            ArgumentsView::Other(t) => json_item_text(JsonItemView::Other(t)),
        }
    } else if tool == "create_note"@ {
        match json_object_text(note_log_pairs(args)) {
            Ok(t) => Some(t),
            Err(_) => None,
        }
    } else {
        match args {
            ArgumentsView::Object(es) => match json_object_text(
                es.map_values(|e: (Seq<char>, JsonItemView)| (e.0, "<redacted>"@)),
            ) {
                Ok(t) => Some(t),
                Err(_) => None,
            },
            _ => json_item_text(JsonItemView::Str("<redacted>"@)),
        }
    }
}

fn ok_text(r: Result<String, String>) -> (o: Option<String>)
    ensures
        opt_view(o) == match string_result_view(r) {
            Ok(t) => Some(t),
            Err(_) => None::<Seq<char>>,
        },
{
    match r {
        Ok(t) => Some(t),
        Err(_) => None,
    }
}

fn pair_of(key: &str, value: Vec<char>) -> (r: (String, String))
    ensures
        r.0@ == key@,
        r.1@ == value@,
{
    (String::from_str(key), string_of(&value))
}

/// The logged JSON text of a request's arguments.
pub fn logged_arguments_json(tool_name: &str, args: &Arguments) -> (r: Option<String>)
    ensures
        opt_view(r) == logged_arguments(tool_name@, arguments_view(*args)),
        !logs_arguments_as_given(tool_name@) ==> r is Some,
        arguments_view(*args) is Str ==> r is Some,
{
    proof {
        reveal_strlit("search_index");
        reveal_strlit("read_file_chunk");
        reveal_strlit("get_model_stats");
        reveal_strlit("summarize_document");
        reveal_strlit("create_note");
        reveal_strlit("export_chat");
    }
    if str_eq(tool_name, "search_index") || str_eq(tool_name, "read_file_chunk") || str_eq(
        tool_name,
        "get_model_stats",
    ) || str_eq(tool_name, "summarize_document") || str_eq(tool_name, "export_chat") {
        match args {
            Arguments::Object(es) => entries_json_text(es),
            Arguments::Str(s) => item_json_text(&JsonItem::Str(s.clone())),
            Arguments::Other(t) => item_json_text(&JsonItem::Other(t.clone())),
        }
    } else if str_eq(tool_name, "create_note") {
        let mut pairs: Vec<(String, String)> = Vec::new();
        match get_string_field(args, "title") {
            Some(t) => {
                let short = truncate_inline(t.as_str(), 120);
                pairs.push((String::from_str("title"), short));
            },
            None => {},
        }
        let ghost after_title = pairs_view(pairs@);
        match get_string_field(args, "content") {
            Some(c) => {
                let mut v = chars_of("<redacted ");
                push_dec(&mut v, chars_of(c.as_str()).len() as u64);
                extend_str(&mut v, " chars>");
                let p = pair_of("content", v);
                pairs.push(p);
                assert(pairs_view(pairs@) =~= after_title.push((p.0@, p.1@)));
            },
            None => {},
        }
        assert(pairs_view(pairs@) =~= note_log_pairs(arguments_view(*args)));
        ok_text(metadata_json(&pairs))
    } else {
        match args {
            Arguments::Object(es) => {
                let mut pairs: Vec<(String, String)> = Vec::new();
                let mut i: usize = 0;
                while i < es.len()
                    invariant
                        i <= es@.len(),
                        pairs_view(pairs@) == entries_view(es@).take(i as int).map_values(
                            |e: (Seq<char>, JsonItemView)| (e.0, "<redacted>"@),
                        ),
                    decreases es@.len() - i,
                {
                    let p = (es[i].0.clone(), String::from_str("<redacted>"));
                    let ghost before = pairs_view(pairs@);
                    pairs.push(p);
                    assert(pairs_view(pairs@) =~= before.push((p.0@, p.1@)));
                    assert(entries_view(es@).take(i as int + 1).map_values(
                        |e: (Seq<char>, JsonItemView)| (e.0, "<redacted>"@),
                    ) =~= entries_view(es@).take(i as int).map_values(
                        |e: (Seq<char>, JsonItemView)| (e.0, "<redacted>"@),
                    ).push((es@[i as int].0@, "<redacted>"@)));
                    i = i + 1;
                }
                assert(entries_view(es@).take(es@.len() as int) =~= entries_view(es@));
                ok_text(metadata_json(&pairs))
            },
            _ => item_json_text(&JsonItem::Str(String::from_str("<redacted>"))),
        }
    }
}

// ---------------------------------------------------------------------------
// Requests in answers
// ---------------------------------------------------------------------------

/// A tool request found in a model's answer.
pub struct ParsedToolRequest {
    pub tool_name: String,
    pub arguments_json: String,
    pub arguments_summary: String,
    pub request_only: bool,
}

pub struct RequestView {
    pub tool_name: Seq<char>,
    pub arguments_json: Seq<char>,
    pub arguments_summary: Seq<char>,
    pub request_only: bool,
}

/// What `parse_model_tool_request` answers for an answer.
pub open spec fn tool_request(content: Seq<char>) -> Option<RequestView> {
    match json_candidate(trim(content)) {
        None => None,
        Some((candidate, only)) => match request_in_json(candidate) {
            None => None,
            Some((raw_name, raw_args)) => match normalized_tool_name(raw_name) {
                None => None,
                Some(name) => {
                    let args = arguments_of(raw_args);
                    match logged_arguments(name, args) {
                        None => None,
                        Some(json) => Some(
                            RequestView {
                                tool_name: name,
                                arguments_json: json,
                                arguments_summary: arguments_summary(name, args),
                                request_only: only,
                            },
                        ),
                    }
                },
            },
        },
    }
}

pub open spec fn request_view(r: ParsedToolRequest) -> RequestView {
    RequestView {
        tool_name: r.tool_name@,
        arguments_json: r.arguments_json@,
        arguments_summary: r.arguments_summary@,
        request_only: r.request_only,
    }
}

/// `parse_model_tool_request`: the tool request an answer holds, if any.
pub fn parse_model_tool_request(content: &str) -> (r: Option<ParsedToolRequest>)
    ensures
        match r {
            Some(req) => tool_request(content@) == Some(request_view(req)),
            None => tool_request(content@) is None,
        },
{
    let trimmed = trim_str(content);
    let (candidate, request_only) = match extract_json_candidate(&trimmed) {
        Some(c) => c,
        None => {
            return None;
        },
    };
    let text = string_of(&candidate);
    let (raw_name, raw_args) = match read_request(text.as_str()) {
        Some(r) => r,
        None => {
            return None;
        },
    };
    let tool_name = match normalize_tool_name(raw_name.as_str()) {
        Some(n) => n,
        None => {
            return None;
        },
    };
    let args = read_arguments(raw_args);
    let arguments_summary = summarize_arguments(tool_name.as_str(), &args);
    let arguments_json = match logged_arguments_json(tool_name.as_str(), &args) {
        Some(j) => j,
        None => {
            return None;
        },
    };
    Some(ParsedToolRequest { tool_name, arguments_json, arguments_summary, request_only })
}

/// What `visible_assistant_content` answers.
pub open spec fn visible_content(content: Seq<char>) -> Seq<char> {
    match tool_request(content) {
        Some(req) => if req.request_only {
            "Requested Atlas tool: "@ + req.tool_name + " ("@ + req.arguments_summary + ")"@
        } else {
            trim(content)
        },
        None => trim(content),
    }
}

/// `visible_assistant_content`: the answer shown to the user; an answer
/// that is only a tool request is shown as the request's summary.
pub fn visible_assistant_content(content: &str) -> (r: String)
    ensures
        r@ == visible_content(content@),
{
    match parse_model_tool_request(content) {
        Some(req) => {
            if req.request_only {
                let mut out = chars_of("Requested Atlas tool: ");
                extend_str(&mut out, req.tool_name.as_str());
                extend_str(&mut out, " (");
                extend_str(&mut out, req.arguments_summary.as_str());
                extend_str(&mut out, ")");
                string_of(&out)
            } else {
                let t = trim_str(content);
                string_of(&t)
            }
        },
        None => {
            let t = trim_str(content);
            string_of(&t)
        },
    }
}

/// Longest tool result summary kept, in characters.
pub const MAX_SUMMARY_CHARS: usize = 500;

/// `truncate_summary`.
pub fn truncate_summary(value: &str) -> (r: String)
    ensures
        r@ == inline(value@, MAX_SUMMARY_CHARS as nat),
{
    truncate_inline(value, MAX_SUMMARY_CHARS)
}

/// What `string_argument` answers.
pub open spec fn required_string(args: ArgumentsView, key: Seq<char>) -> Result<Seq<char>, Seq<char>> {
    match string_field(args, key) {
        Some(v) => if trim(v).len() > 0 {
            Ok(trim(v))
        } else {
            Err("Missing required string argument: "@ + key)
        },
        None => Err("Missing required string argument: "@ + key),
    }
}

/// `string_argument`: a required string argument, trimmed and non-empty.
pub fn string_argument(args: &Arguments, key: &str) -> (r: Result<String, String>)
    ensures
        string_result_view(r) == required_string(arguments_view(*args), key@),
{
    match get_string_field(args, key) {
        Some(v) => {
            let t = trim_str(v.as_str());
            if t.len() > 0 {
                return Ok(string_of(&t));
            }
        },
        None => {},
    }
    let mut m = chars_of("Missing required string argument: ");
    extend_str(&mut m, key);
    Err(string_of(&m))
}

} // verus!
