//! How tool calls are presented in the transcript: a human-facing label
//! for the tool, a one-line summary of its JSON input, the input pretty
//! printed, and output text split into lines.
use vstd::prelude::*;
use crate::markdown_parse::push_chars;
use crate::text::{
    char_to_uppercase, chars_of, find_chars, find_from, has_prefix, opt_view, push_char, push_str,
    str_eq, string_from_chars, trim, trim_bounds, uppercase, lemma_find_from,
};

verus! {

// ---------------------------------------------------------------------------
// Tool labels.
// ---------------------------------------------------------------------------

/// Separators of a namespaced tool name.
pub open spec fn is_namespace_sep(c: char) -> bool {
    c == '.' || c == ':'
}

/// Separators between the words of a tool name.
pub open spec fn is_word_sep(c: char) -> bool {
    c == '_' || c == '-'
}

/// Where the last segment of a namespaced name starts.
pub open spec fn last_segment_start(s: Seq<char>) -> int
    decreases s.len(),
{
    if s.len() == 0 {
        0
    } else if is_namespace_sep(s.last()) {
        s.len() as int
    } else {
        last_segment_start(s.drop_last())
    }
}

/// First index at or after `i` that is not a word separator.
pub open spec fn part_start(s: Seq<char>, i: int) -> int
    decreases s.len() - i,
{
    if i < 0 || i >= s.len() || !is_word_sep(s[i]) {
        i
    } else {
        part_start(s, i + 1)
    }
}

/// First index at or after `i` that is a word separator.
pub open spec fn part_end(s: Seq<char>, i: int) -> int
    decreases s.len() - i,
{
    if i < 0 || i >= s.len() || is_word_sep(s[i]) {
        i
    } else {
        part_end(s, i + 1)
    }
}

pub proof fn lemma_part_bounds(s: Seq<char>, i: int)
    requires
        0 <= i <= s.len(),
    ensures
        i <= part_start(s, i) <= s.len(),
        i <= part_end(s, i) <= s.len(),
        part_start(s, i) < s.len() ==> part_end(s, part_start(s, i)) > part_start(s, i),
    decreases s.len() - i,
{
    if i < s.len() {
        lemma_part_bounds(s, i + 1);
    }
}

/// A word with its first character uppercased.
pub open spec fn capitalized(w: Seq<char>) -> Seq<char> {
    if w.len() == 0 {
        w
    } else {
        uppercase(w[0]) + w.drop_first()
    }
}

/// The capitalized words of `s[i..]`, separated by `_` and `-`.
pub open spec fn title_words(s: Seq<char>, i: int) -> Seq<Seq<char>>
    decreases s.len() - i,
{
    if i < 0 || i > s.len() {
        Seq::empty()
    } else {
        proof {
            lemma_part_bounds(s, i);
        }
        let a = part_start(s, i);
        if a >= s.len() {
            Seq::empty()
        } else {
            proof {
                lemma_part_bounds(s, a);
            }
            let b = part_end(s, a);
            seq![capitalized(s.subrange(a, b))] + title_words(s, b)
        }
    }
}

/// Words joined by single spaces.
pub open spec fn join_spaced(ws: Seq<Seq<char>>) -> Seq<char>
    decreases ws.len(),
{
    if ws.len() == 0 {
        Seq::empty()
    } else if ws.len() == 1 {
        ws[0]
    } else {
        join_spaced(ws.drop_last()) + seq![' '] + ws.last()
    }
}

/// The label of a tool: shell tools are "Terminal", browser tools
/// "Browser", planning tools "Plan", handoffs "Handoff"; any other name is
/// shown as its words, capitalized. Only the last segment of a namespaced
/// name (after `.` or `:`) counts.
pub open spec fn display_label(tool_name: Seq<char>) -> Seq<char> {
    let n = tool_name.skip(last_segment_start(tool_name));
    if n == "bash"@ || n == "sh"@ || n == "shell"@ || n == "exec"@ || n == "run_command"@ {
        "Terminal"@
    } else if has_prefix(n, "browser"@) {
        "Browser"@
    } else if find_from(n, "plan"@, 0) is Some {
        "Plan"@
    } else if find_from(n, "handoff"@, 0) is Some {
        "Handoff"@
    } else {
        join_spaced(title_words(n, 0))
    }
}

/// `find_from(v, p, 0) is Some`.
fn contains_text(v: &Vec<char>, p: &str) -> (b: bool)
    ensures
        b == (find_from(v@, p@, 0) is Some),
{
    let pv = chars_of(p);
    assert(v@.subrange(0, v@.len() as int) =~= v@);
    find_chars(v, &pv, 0, v.len()).is_some()
}

/// The capitalized words of `n`, spaced.
fn title_case(n: &Vec<char>) -> (r: String)
    ensures
        r@ == join_spaced(title_words(n@, 0)),
{
    let ghost s = n@;
    let mut out = String::new();
    let mut i: usize = 0;
    let ghost mut done: Seq<Seq<char>> = Seq::empty();
    let mut any_word = false;
    while i < n.len()
        invariant
            0 <= i <= n.len(),
            s == n@,
            any_word == (done.len() > 0),
            out@ == join_spaced(done),
            done + title_words(s, i as int) == title_words(s, 0),
        decreases n.len() - i,
    {
        proof {
            lemma_part_bounds(s, i as int);
        }
        let mut a = i;
        while a < n.len() && (n[a] == '_' || n[a] == '-')
            invariant
                i <= a <= n.len(),
                s == n@,
                part_start(s, i as int) == part_start(s, a as int),
            decreases n.len() - a,
        {
            a = a + 1;
        }
        if a >= n.len() {
            assert(title_words(s, i as int) =~= Seq::<Seq<char>>::empty());
            assert(done + title_words(s, n.len() as int) =~= done + title_words(s, i as int));
            i = n.len();
        } else {
            proof {
                lemma_part_bounds(s, a as int);
            }
            let mut b = a;
            while b < n.len() && !(n[b] == '_' || n[b] == '-')
                invariant
                    a <= b <= n.len(),
                    s == n@,
                    part_end(s, a as int) == part_end(s, b as int),
                decreases n.len() - b,
            {
                b = b + 1;
            }
            let ghost word = capitalized(s.subrange(a as int, b as int));
            if any_word {
                push_char(&mut out, ' ');
            }
            let first = char_to_uppercase(n[a]);
            push_str(&mut out, first.as_str());
            push_chars(&mut out, n, a + 1, b);
            proof {
                assert(s.subrange(a as int, b as int).drop_first() =~= s.subrange(a + 1, b as int));
                let nd = done.push(word);
                assert(nd.drop_last() =~= done);
                if done.len() == 0 {
                    assert(join_spaced(nd) == word);
                    assert(out@ =~= word);
                } else {
                    assert(out@ =~= join_spaced(done) + seq![' '] + word);
                }
                assert(title_words(s, i as int) =~= seq![word] + title_words(s, b as int));
                assert(nd + title_words(s, b as int) =~= done + title_words(s, i as int));
                done = nd;
            }
            any_word = true;
            i = b;
        }
    }
    proof {
        assert(title_words(s, i as int) =~= Seq::<Seq<char>>::empty());
        assert(done + Seq::<Seq<char>>::empty() =~= done);
    }
    out
}

/// The label shown for a tool (see `display_label`).
pub fn tool_display_label(tool_name: &str) -> (r: String)
    ensures
        r@ == display_label(tool_name@),
{
    let all = chars_of(tool_name);
    let mut start = all.len();
    assert(all@.take(all@.len() as int) =~= all@);
    while start > 0 && !(all[start - 1] == '.' || all[start - 1] == ':')
        invariant
            0 <= start <= all.len(),
            last_segment_start(all@) == last_segment_start(all@.take(start as int)),
        decreases start,
    {
        assert(all@.take(start as int).drop_last() =~= all@.take(start - 1));
        start = start - 1;
    }
    assert(all@.take(all@.len() as int) =~= all@);
    let n = crate::text::sub_vec(&all, start, all.len());
    assert(n@ =~= tool_name@.skip(last_segment_start(tool_name@)));
    let name = string_from_chars(&all, start, all.len());
    assert(n@.skip(0) =~= n@);
    if str_eq(name.as_str(), "bash") || str_eq(name.as_str(), "sh") || str_eq(name.as_str(), "shell")
        || str_eq(name.as_str(), "exec") || str_eq(name.as_str(), "run_command") {
        "Terminal".to_owned()
    } else if crate::text::starts_with_at(&n, 0, "browser") {
        "Browser".to_owned()
    } else if contains_text(&n, "plan") {
        "Plan".to_owned()
    } else if contains_text(&n, "handoff") {
        "Handoff".to_owned()
    } else {
        title_case(&n)
    }
}

// ---------------------------------------------------------------------------
// Tool inputs.
// ---------------------------------------------------------------------------

/// A field of a JSON object: missing, `null`, or its text (a string's
/// content, or any other value written as JSON).
pub enum JsonField {
    Missing,
    Null,
    Text(String),
}

/// Mathematical form of a [`JsonField`].
pub enum FieldView {
    Missing,
    Null,
    Text(Seq<char>),
}

/// The view of an optional field.
pub open spec fn field_view(f: Option<JsonField>) -> Option<FieldView> {
    match f {
        Some(JsonField::Missing) => Some(FieldView::Missing),
        Some(JsonField::Null) => Some(FieldView::Null),
        Some(JsonField::Text(s)) => Some(FieldView::Text(s@)),
        None => None,
    }
}

/// What `serde_json` reads as the field `key` of `input`: none when the
/// input is not a JSON object.
pub uninterp spec fn json_object_field(input: Seq<char>, key: Seq<char>) -> Option<FieldView>;

/// Parses `input` with `serde_json::from_str` into a `serde_json::Value`,
/// and reads the field `key` of it when it is an object (`as_object`,
/// `Map::get`): a string field gives its content, another non-null value
/// its JSON text (`Value::to_string`). Only the name `json_object_field`
/// is stated of the result.
#[verifier::external_body]
fn object_field(input: &str, key: &str) -> (r: Option<JsonField>)
    ensures
        field_view(r) == json_object_field(input@, key@),
{
    let value = serde_json::from_str::<serde_json::Value>(input).ok()?;
    let object = value.as_object()?;
    Some(match object.get(key) {
        None => JsonField::Missing,
        Some(serde_json::Value::Null) => JsonField::Null,
        Some(serde_json::Value::String(text)) => JsonField::Text(text.clone()),
        Some(other) => JsonField::Text(other.to_string()),
    })
}

/// What `serde_json` pretty-prints for `input`, when it parses.
pub uninterp spec fn pretty_json(input: Seq<char>) -> Option<Seq<char>>;

/// Parses `input` (`serde_json::from_str`) and pretty-prints the value
/// (`serde_json::to_string_pretty`). Only the name `pretty_json` is stated
/// of the result.
#[verifier::external_body]
fn pretty_printed(input: &str) -> (r: Option<String>)
    ensures
        opt_view(r) == pretty_json(input@),
{
    serde_json::from_str::<serde_json::Value>(input).ok().and_then(|value| serde_json::to_string_pretty(&value).ok())
}

/// Most characters of a tool summary.
pub const MAX_SUMMARY_CHARS: usize = 120;

/// The summary text of a field: its trimmed text, cut to
/// `MAX_SUMMARY_CHARS` characters with an ellipsis; none for an empty,
/// null or missing field.
pub open spec fn summary_text(f: FieldView) -> Option<Seq<char>> {
    match f {
        FieldView::Text(t) => {
            let t = trim(t);
            if t.len() == 0 {
                None
            } else if t.len() > MAX_SUMMARY_CHARS {
                Some(t.take(MAX_SUMMARY_CHARS - 1).push('…'))
            } else {
                Some(t)
            }
        },
        _ => None,
    }
}

/// The fields a tool summary is taken from, in order of preference.
pub open spec fn summary_keys() -> Seq<Seq<char>> {
    seq!["command"@, "path"@, "url"@, "query"@, "selector"@, "name"@]
}

/// The summary of a tool input from the keys `ks`: the first key with a
/// summary text; none as soon as the input is not a JSON object.
pub open spec fn summary_over(input: Seq<char>, ks: Seq<Seq<char>>) -> Option<Seq<char>>
    decreases ks.len(),
{
    if ks.len() == 0 {
        None
    } else {
        match json_object_field(input, ks[0]) {
            None => None,
            Some(f) => match summary_text(f) {
                Some(t) => Some(t),
                None => summary_over(input, ks.drop_first()),
            },
        }
    }
}

/// The summary text of a field.
pub fn tool_value_text(field: &JsonField) -> (r: Option<String>)
    ensures
        opt_view(r) == summary_text(match field {
            JsonField::Missing => FieldView::Missing,
            JsonField::Null => FieldView::Null,
            JsonField::Text(s) => FieldView::Text(s@),
        }),
{
    let text = match field {
        JsonField::Text(s) => s,
        _ => return None,
    };
    let v = chars_of(text.as_str());
    let (a, b) = trim_bounds(&v, 0, v.len());
    assert(v@.subrange(0, v@.len() as int) =~= v@);
    if a == b {
        return None;
    }
    if b - a > MAX_SUMMARY_CHARS {
        let mut s = string_from_chars(&v, a, a + MAX_SUMMARY_CHARS - 1);
        push_char(&mut s, '…');
        assert(v@.subrange(a as int, (a + MAX_SUMMARY_CHARS - 1) as int) =~= v@.subrange(a as int, b as int).take(
            MAX_SUMMARY_CHARS - 1,
        ));
        Some(s)
    } else {
        Some(string_from_chars(&v, a, b))
    }
}

/// The one-line summary of a tool's JSON input (see `summary_over`).
pub fn tool_summary(input: &str) -> (r: Option<String>)
    ensures
        opt_view(r) == summary_over(input@, summary_keys()),
{
    let keys = vec!["command", "path", "url", "query", "selector", "name"];
    let ghost ks = summary_keys();
    let mut k: usize = 0;
    assert(keys@.map_values(|s: &str| s@) =~= ks);
    assert(ks.skip(0) =~= ks);
    while k < keys.len()
        invariant
            0 <= k <= keys.len(),
            keys@.map_values(|s: &str| s@) == ks,
            ks == summary_keys(),
            summary_over(input@, ks) == summary_over(input@, ks.skip(k as int)),
        decreases keys.len() - k,
    {
        assert(ks.skip(k as int)[0] == keys@[k as int]@);
        assert(ks.skip(k as int).drop_first() =~= ks.skip(k + 1));
        let field = match object_field(input, keys[k]) {
            Some(f) => f,
            None => return None,
        };
        let text = tool_value_text(&field);
        if text.is_some() {
            return text;
        }
        k = k + 1;
    }
    None
}

/// A tool's input, pretty-printed when it is JSON and as given otherwise.
pub fn formatted_tool_input(input: &str) -> (r: String)
    ensures
        r@ == (match pretty_json(input@) {
            Some(p) => p,
            None => input@,
        }),
{
    match pretty_printed(input) {
        Some(p) => p,
        None => input.to_owned(),
    }
}

// ---------------------------------------------------------------------------
// Tool output.
// ---------------------------------------------------------------------------

/// The pieces of `s[i..]` between `\n` characters (`str::split('\n')`),
/// as ranges: a trailing `\n` leaves an empty last piece.
pub open spec fn split_ranges(s: Seq<char>, i: int) -> Seq<(int, int)>
    decreases s.len() - i,
{
    if i < 0 || i > s.len() {
        Seq::empty()
    } else {
        match find_from(s, seq!['\n'], i) {
            None => seq![(i, s.len() as int)],
            Some(k) => {
                proof {
                    lemma_find_from(s, seq!['\n'], i);
                }
                seq![(i, k)] + split_ranges(s, k + 1)
            },
        }
    }
}

/// The lines of tool output: the pieces between newlines, keeping empty
/// ones; an empty output is one empty line.
pub open spec fn output_lines(s: Seq<char>) -> Seq<Seq<char>> {
    split_ranges(s, 0).map_values(|r: (int, int)| s.subrange(r.0, r.1))
}

/// Splits tool output into lines (see `output_lines`).
pub fn split_tool_text_lines(text: &str) -> (r: Vec<String>)
    ensures
        r@.map_values(|s: String| s@) == output_lines(text@),
{
    let v = chars_of(text);
    let ghost s = v@;
    let newline = crate::text::single_char_vec('\n');
    let n = v.len();
    let mut r: Vec<String> = Vec::new();
    let mut i: usize = 0;
    assert(s.subrange(0, n as int) =~= s);
    let ghost mut done: Seq<(int, int)> = Seq::empty();
    loop
        invariant
            0 <= i <= n,
            n == s.len(),
            v@ == s,
            text@ == s,
            newline@ == seq!['\n'],
            done + split_ranges(s, i as int) == split_ranges(s, 0),
            r@.map_values(|x: String| x@) == done.map_values(|p: (int, int)| s.subrange(p.0, p.1)),
        decreases n - i,
    {
        proof {
            lemma_find_from(s, seq!['\n'], i as int);
        }
        let ghost before = r@;
        assert(v@.subrange(0, n as int) =~= s);
        match find_chars(&v, &newline, i, n) {
            None => {
                let piece = string_from_chars(&v, i, n);
                r.push(piece);
                proof {
                    let nd = done.push((i as int, n as int));
                    assert(split_ranges(s, i as int) =~= seq![(i as int, n as int)]);
                    assert(nd =~= split_ranges(s, 0));
                    assert(r@ == before.push(piece));
                    assert(r@.map_values(|x: String| x@) =~= before.map_values(|x: String| x@).push(piece@));
                    assert(r@.map_values(|x: String| x@) =~= nd.map_values(|p: (int, int)| s.subrange(p.0, p.1)));
                }
                return r;
            },
            Some(k) => {
                let piece = string_from_chars(&v, i, k);
                r.push(piece);
                proof {
                    let nd = done.push((i as int, k as int));
                    assert(split_ranges(s, i as int) =~= seq![(i as int, k as int)] + split_ranges(s, k + 1));
                    assert(nd + split_ranges(s, k + 1) =~= done + split_ranges(s, i as int));
                    assert(r@ == before.push(piece));
                    assert(r@.map_values(|x: String| x@) =~= before.map_values(|x: String| x@).push(piece@));
                    assert(r@.map_values(|x: String| x@) =~= nd.map_values(|p: (int, int)| s.subrange(p.0, p.1)));
                    done = nd;
                }
                i = k + 1;
            },
        }
    }
}

} // verus!
