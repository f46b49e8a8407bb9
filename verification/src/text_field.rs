//! An editable single-line text field (the rename field, the URL field, and
//! the composer's text): its text, selection and input-method marked
//! range, and the edits on them.
use vstd::prelude::*;
use crate::cursor::{
    byte_offset_for_utf16, first_start_after, grapheme_starts, last_char_start, last_start_before, next_utf8_boundary,
    previous_utf8_boundary,
};
use vstd::math::min;
use crate::markdown_parse::push_chars;
use crate::text::{
    byte_offset, char_index_at, chars_of, is_boundary, lemma_byte_offset_ends,
    lemma_byte_offset_injective, lemma_byte_offset_mono, lemma_byte_offset_step, lemma_char_index_at,
    lemma_utf8_len_concat, lemma_widths, push_str, str_eq, str_len, string_from_chars, utf16_fitting_prefix, utf8_len,
};

verus! {

/// A text field: its text, the selected byte range (the cursor sits at its
/// end, or at its start when `reversed`), and the range an input method is
/// composing, if any.
#[derive(Clone, Debug, PartialEq, Eq)]
pub struct TextField {
    pub text: String,
    pub selection: std::ops::Range<usize>,
    pub reversed: bool,
    pub marked: Option<std::ops::Range<usize>>,
}

/// Every offset the field holds falls between two characters of its
/// text, and the marked range is in order.
pub open spec fn field_wf(f: TextField) -> bool {
    &&& is_boundary(f.text@, f.selection.start as int)
    &&& is_boundary(f.text@, f.selection.end as int)
    &&& match f.marked {
        Some(m) => m.start <= m.end && is_boundary(f.text@, m.start as int) && is_boundary(
            f.text@,
            m.end as int,
        ),
        None => true,
    }
}

/// The cursor: the end of the selection, or its start when reversed.
pub open spec fn cursor_of(f: TextField) -> int {
    if f.reversed {
        f.selection.start as int
    } else {
        f.selection.end as int
    }
}

/// The byte range an edit replaces: the given UTF-16 range (as bytes), or
/// else the marked range, or else the selection.
pub open spec fn edit_range(f: TextField, range_utf16: Option<std::ops::Range<usize>>) -> (int, int) {
    match range_utf16 {
        Some(r) => (
            byte_offset(f.text@, utf16_fitting_prefix(f.text@, r.start as int) as int) as int,
            byte_offset(f.text@, utf16_fitting_prefix(f.text@, r.end as int) as int) as int,
        ),
        None => match f.marked {
            Some(m) => (m.start as int, m.end as int),
            None => (f.selection.start as int, f.selection.end as int),
        },
    }
}

/// The text with the bytes `[a, b)` replaced.
pub open spec fn replaced(s: Seq<char>, a: int, b: int, replacement: Seq<char>) -> Seq<char> {
    s.take(char_index_at(s, a)) + replacement + s.skip(char_index_at(s, b))
}

/// Where the grapheme before the cursor starts.
pub open spec fn grapheme_before_cursor(f: TextField) -> int {
    last_start_before(grapheme_starts(f.text@), min(cursor_of(f), utf8_len(f.text@) as int))
}

/// Where the grapheme after the cursor ends.
pub open spec fn grapheme_after_cursor(f: TextField) -> int {
    first_start_after(
        grapheme_starts(f.text@),
        min(cursor_of(f), utf8_len(f.text@) as int),
        utf8_len(f.text@) as int,
    )
}

/// Whether the selection is empty (a bare cursor).
pub open spec fn selection_empty(f: TextField) -> bool {
    f.selection.start >= f.selection.end
}

/// The byte range a deletion removes: the marked range if any, else the
/// selection, else the span from `from` to `to` around the cursor.
pub open spec fn deletion_range(f: TextField, from: int, to: int) -> (int, int) {
    match f.marked {
        Some(m) => (m.start as int, m.end as int),
        None => if selection_empty(f) {
            (from, to)
        } else {
            (f.selection.start as int, f.selection.end as int)
        },
    }
}

/// `new` is `old` with the bytes `[a, b)` removed and the cursor left at `a`.
pub open spec fn removed(old: TextField, new: TextField, a: int, b: int) -> bool {
    &&& new.text@ == replaced(old.text@, a, b, Seq::<char>::empty())
    &&& new.selection.start == a
    &&& new.selection.end == a
    &&& !new.reversed
    &&& new.marked is None
}

/// Character index of a boundary.
pub(crate) fn char_index_of(chars: &Vec<char>, b: usize) -> (i: usize)
    requires
        is_boundary(chars@, b as int),
        utf8_len(chars@) <= usize::MAX,
    ensures
        i == char_index_at(chars@, b as int),
        i <= chars@.len(),
        byte_offset(chars@, i as int) == b,
{
    let (i, byte) = last_char_start(chars, b);
    proof {
        let k = char_index_at(chars@, b as int);
        lemma_char_index_at(chars@, k);
        lemma_byte_offset_ends(chars@);
        if k < chars@.len() {
            lemma_byte_offset_step(chars@, k);
            lemma_widths(chars@[k]);
        }
        crate::cursor::lemma_last_start_exact(chars@, b as int, k);
    }
    i
}

/// The bytes `[a, b)` of `s` lie at character indices in order.
pub(crate) proof fn lemma_boundaries_ordered(s: Seq<char>, a: int, b: int)
    requires
        is_boundary(s, a),
        is_boundary(s, b),
        a <= b,
    ensures
        char_index_at(s, a) <= char_index_at(s, b),
{
    let i = char_index_at(s, a);
    let j = char_index_at(s, b);
    if j < i {
        lemma_byte_offset_mono(s, j, i);
        lemma_byte_offset_injective(s, j, i);
    }
}

/// Replaces the bytes `[a, b)` of the text, returning the new text.
fn replace_bytes(text: &String, a: usize, b: usize, replacement: &str) -> (r: String)
    requires
        is_boundary(text@, a as int),
        is_boundary(text@, b as int),
        a <= b,
    ensures
        r@ == replaced(text@, a as int, b as int, replacement@),
{
    let chars = chars_of(text.as_str());
    // The text's byte length fits in `usize`, and so does every offset in it.
    let _text_len = str_len(text.as_str());
    let i = char_index_of(&chars, a);
    let j = char_index_of(&chars, b);
    proof {
        lemma_boundaries_ordered(text@, a as int, b as int);
    }
    let mut r = string_from_chars(&chars, 0, i);
    push_str(&mut r, replacement);
    push_chars(&mut r, &chars, j, chars.len());
    assert(chars@.subrange(0, i as int) =~= text@.take(i as int));
    assert(chars@.subrange(j as int, chars@.len() as int) =~= text@.skip(j as int));
    r
}

/// Offsets of `prefix + middle + rest` inside the middle part.
proof fn lemma_offset_in_middle(prefix: Seq<char>, middle: Seq<char>, rest: Seq<char>, k: int)
    requires
        0 <= k <= middle.len(),
    ensures
        byte_offset(prefix + middle + rest, prefix.len() + k) == utf8_len(prefix) + byte_offset(middle, k),
{
    let all = prefix + middle + rest;
    assert(all.take(prefix.len() + k) =~= prefix + middle.take(k));
    lemma_utf8_len_concat(prefix, middle.take(k));
}

/// The cursor after an edit sits right after the inserted text, and is a
/// boundary of the new text.
proof fn lemma_edit_cursor(s: Seq<char>, a: int, b: int, replacement: Seq<char>)
    requires
        is_boundary(s, a),
        is_boundary(s, b),
        a <= b,
    ensures
        is_boundary(replaced(s, a, b, replacement), a + utf8_len(replacement)),
        is_boundary(replaced(s, a, b, replacement), a),
        utf8_len(replaced(s, a, b, replacement)) >= a + utf8_len(replacement),
{
    let i = char_index_at(s, a);
    let j = char_index_at(s, b);
    lemma_char_index_at(s, 0);
    let prefix = s.take(i);
    let rest = s.skip(j);
    let new = replaced(s, a, b, replacement);
    assert(byte_offset(s, i) == a) by {
        let w = choose|w: int| 0 <= w <= s.len() && #[trigger] byte_offset(s, w) == a;
    }
    assert(utf8_len(prefix) == a);
    lemma_offset_in_middle(prefix, replacement, rest, replacement.len() as int);
    lemma_offset_in_middle(prefix, replacement, rest, 0);
    assert(replacement.take(replacement.len() as int) =~= replacement);
    assert(replacement.take(0) =~= Seq::<char>::empty());
    lemma_byte_offset_mono(new, (prefix.len() + replacement.len()) as int, new.len() as int);
    lemma_byte_offset_ends(new);
}

impl TextField {
    /// An empty field.
    pub fn new() -> (f: TextField)
        ensures
            f.text@ == Seq::<char>::empty(),
            f.selection.start == 0 && f.selection.end == 0,
            !f.reversed,
            f.marked is None,
            field_wf(f),
    {
        let f = TextField { text: String::new(), selection: 0..0, reversed: false, marked: None };
        proof {
            assert(byte_offset(f.text@, 0) == 0);
        }
        f
    }

    /// Where the cursor is.
    pub fn cursor_offset(&self) -> (r: usize)
        ensures
            r == cursor_of(*self),
    {
        if self.reversed {
            self.selection.start
        } else {
            self.selection.end
        }
    }

    /// Replaces the edit range (see `edit_range`) with `replacement`; the
    /// cursor lands after it and the marked range ends.
    pub fn replace_text(&mut self, range_utf16: Option<std::ops::Range<usize>>, replacement: &str)
        requires
            field_wf(*old(self)),
            edit_range(*old(self), range_utf16).0 <= edit_range(*old(self), range_utf16).1,
        ensures
            field_wf(*final(self)),
            ({
                let (a, b) = edit_range(*old(self), range_utf16);
                &&& final(self).text@ == replaced(old(self).text@, a, b, replacement@)
                &&& final(self).selection.start == a + utf8_len(replacement@)
                &&& final(self).selection.end == a + utf8_len(replacement@)
                &&& !final(self).reversed
                &&& final(self).marked is None
            }),
    {
        let (a, b) = self.edit_bytes(&range_utf16);
        self.replace_byte_range(a, b, replacement);
    }

    /// The edit range in bytes.
    fn edit_bytes(&self, range_utf16: &Option<std::ops::Range<usize>>) -> (r: (usize, usize))
        requires
            field_wf(*self),
        ensures
            r.0 == edit_range(*self, *range_utf16).0,
            r.1 == edit_range(*self, *range_utf16).1,
            is_boundary(self.text@, r.0 as int),
            is_boundary(self.text@, r.1 as int),
    {
        match range_utf16 {
            Some(r) => {
                let a = byte_offset_for_utf16(self.text.as_str(), r.start);
                let b = byte_offset_for_utf16(self.text.as_str(), r.end);
                proof {
                    crate::cursor::lemma_fitting_prefix_bounded(self.text@, r.start as int);
                    crate::cursor::lemma_fitting_prefix_bounded(self.text@, r.end as int);
                }
                (a, b)
            },
            None => match &self.marked {
                Some(m) => (m.start, m.end),
                None => (self.selection.start, self.selection.end),
            },
        }
    }

    /// Replaces the edit range with composed text and marks it; the
    /// selection is placed inside the composed text (a UTF-16 range of it),
    /// or after it.
    pub fn replace_and_mark(
        &mut self,
        range_utf16: Option<std::ops::Range<usize>>,
        replacement: &str,
        new_selected_utf16: Option<std::ops::Range<usize>>,
    )
        requires
            field_wf(*old(self)),
            edit_range(*old(self), range_utf16).0 <= edit_range(*old(self), range_utf16).1,
        ensures
            field_wf(*final(self)),
            ({
                let (a, b) = edit_range(*old(self), range_utf16);
                let end = a + utf8_len(replacement@);
                &&& final(self).text@ == replaced(old(self).text@, a, b, replacement@)
                &&& final(self).marked == (if replacement@.len() > 0 {
                    Some((a as usize)..(end as usize))
                } else {
                    None::<std::ops::Range<usize>>
                })
                &&& match new_selected_utf16 {
                    Some(ns) => final(self).selection.start == a + byte_offset(
                        replacement@,
                        utf16_fitting_prefix(replacement@, ns.start as int) as int,
                    ) && final(self).selection.end == a + byte_offset(
                        replacement@,
                        utf16_fitting_prefix(replacement@, ns.end as int) as int,
                    ),
                    None => final(self).selection.start == end && final(self).selection.end == end,
                }
                &&& !final(self).reversed
            }),
    {
        let ghost old_text = self.text@;
        let (a, b) = self.edit_bytes(&range_utf16);
        let updated = replace_bytes(&self.text, a, b, replacement);
        let ghost i = char_index_at(old_text, a as int);
        let ghost j = char_index_at(old_text, b as int);
        proof {
            lemma_edit_cursor(old_text, a as int, b as int, replacement@);
            assert(byte_offset(old_text, i) == a) by {
                let w = choose|w: int| 0 <= w <= old_text.len() && #[trigger] byte_offset(old_text, w) == a;
                lemma_char_index_at(old_text, w);
            }
        }
        // The new text's byte length fits in `usize`, and so does every
        // offset into the replacement.
        let _updated_len = str_len(updated.as_str());
        let end = a + str_len(replacement);
        self.marked = if chars_of(replacement).len() > 0 {
            Some(a..end)
        } else {
            None
        };
        self.selection = match new_selected_utf16 {
            Some(ns) => {
                let s = byte_offset_for_utf16(replacement, ns.start);
                let e = byte_offset_for_utf16(replacement, ns.end);
                proof {
                    let ks = utf16_fitting_prefix(replacement@, ns.start as int) as int;
                    let ke = utf16_fitting_prefix(replacement@, ns.end as int) as int;
                    crate::cursor::lemma_fitting_prefix_bounded(replacement@, ns.start as int);
                    crate::cursor::lemma_fitting_prefix_bounded(replacement@, ns.end as int);
                    let prefix = old_text.take(i);
                    let rest = old_text.skip(j);
                    lemma_offset_in_middle(prefix, replacement@, rest, ks);
                    lemma_offset_in_middle(prefix, replacement@, rest, ke);
                    lemma_utf8_len_concat(prefix, Seq::<char>::empty());
                    assert(prefix + Seq::<char>::empty() =~= prefix);
                    assert(old_text.take(i).len() == i);
                    assert(utf8_len(prefix) == byte_offset(old_text, i));
                    assert(0 <= prefix.len() + ks <= updated@.len());
                    assert(0 <= prefix.len() + ke <= updated@.len());
                    lemma_byte_offset_mono(updated@, prefix.len() + ks, updated@.len() as int);
                    lemma_byte_offset_mono(updated@, prefix.len() + ke, updated@.len() as int);
                    lemma_byte_offset_ends(updated@);
                }
                (a + s)..(a + e)
            },
            None => end..end,
        };
        self.reversed = false;
        self.text = updated;
    }

    /// Deletes the selection, or the grapheme before the cursor. Returns
    /// false, changing nothing, when there is nothing before the cursor.
    pub fn backspace(&mut self) -> (deleted: bool)
        requires
            field_wf(*old(self)),
        ensures
            field_wf(*final(self)),
            deleted == !(selection_empty(*old(self)) && grapheme_before_cursor(*old(self)) == cursor_of(*old(self))),
            !deleted ==> *final(self) == *old(self),
            deleted ==> ({
                let (a, b) = deletion_range(*old(self), grapheme_before_cursor(*old(self)), cursor_of(*old(self)));
                removed(*old(self), *final(self), a, b)
            }),
    {
        if self.selection.start >= self.selection.end {
            let cursor = self.cursor_offset();
            let start = previous_utf8_boundary(self.text.as_str(), cursor);
            if start == cursor {
                return false;
            }
            self.selection = start..cursor;
        }
        proof {
            reveal_strlit("");
            assert(""@ =~= Seq::<char>::empty());
        }
        self.replace_text(None, "");
        true
    }

    /// Deletes the selection, or the grapheme after the cursor. Returns
    /// false, changing nothing, when there is nothing after the cursor.
    pub fn delete(&mut self) -> (deleted: bool)
        requires
            field_wf(*old(self)),
        ensures
            field_wf(*final(self)),
            deleted == !(selection_empty(*old(self)) && grapheme_after_cursor(*old(self)) == cursor_of(*old(self))),
            !deleted ==> *final(self) == *old(self),
            deleted ==> ({
                let (a, b) = deletion_range(*old(self), cursor_of(*old(self)), grapheme_after_cursor(*old(self)));
                removed(*old(self), *final(self), a, b)
            }),
    {
        if self.selection.start >= self.selection.end {
            let cursor = self.cursor_offset();
            let end = next_utf8_boundary(self.text.as_str(), cursor);
            if end == cursor {
                return false;
            }
            proof {
                lemma_byte_offset_ends(self.text@);
                let w = choose|w: int| 0 <= w <= self.text@.len() && #[trigger] byte_offset(self.text@, w) == cursor;
                lemma_byte_offset_mono(self.text@, w, self.text@.len() as int);
            }
            self.selection = cursor..end;
        }
        proof {
            reveal_strlit("");
            assert(""@ =~= Seq::<char>::empty());
        }
        self.replace_text(None, "");
        true
    }

    /// Moves the cursor one grapheme left, or to the start of the selection.
    pub fn move_left(&mut self)
        requires
            field_wf(*old(self)),
        ensures
            field_wf(*final(self)),
            final(self).text == old(self).text,
            final(self).marked == old(self).marked,
            final(self).selection.start == final(self).selection.end,
            final(self).selection.start == (if selection_empty(*old(self)) {
                grapheme_before_cursor(*old(self))
            } else {
                old(self).selection.start as int
            }),
            !final(self).reversed,
    {
        let offset = if self.selection.start >= self.selection.end {
            previous_utf8_boundary(self.text.as_str(), self.cursor_offset())
        } else {
            self.selection.start
        };
        self.selection = offset..offset;
        self.reversed = false;
    }

    /// Moves the cursor one grapheme right, or to the end of the selection.
    pub fn move_right(&mut self)
        requires
            field_wf(*old(self)),
        ensures
            field_wf(*final(self)),
            final(self).text == old(self).text,
            final(self).marked == old(self).marked,
            final(self).selection.start == final(self).selection.end,
            final(self).selection.start == (if selection_empty(*old(self)) {
                grapheme_after_cursor(*old(self))
            } else {
                old(self).selection.end as int
            }),
            !final(self).reversed,
    {
        let offset = if self.selection.start >= self.selection.end {
            next_utf8_boundary(self.text.as_str(), self.cursor_offset())
        } else {
            self.selection.end
        };
        self.selection = offset..offset;
        self.reversed = false;
    }

    /// A field holding `text`, with the cursor at its end.
    pub fn set_text(&mut self, text: String)
        ensures
            field_wf(*final(self)),
            final(self).text@ == text@,
            final(self).selection.start == utf8_len(text@),
            final(self).selection.end == utf8_len(text@),
            !final(self).reversed,
            final(self).marked is None,
    {
        let end = str_len(text.as_str());
        proof {
            lemma_byte_offset_ends(text@);
        }
        self.text = text;
        self.selection = end..end;
        self.reversed = false;
        self.marked = None;
    }

    /// Replaces the bytes `[a, b)` of the text; the cursor lands after the
    /// replacement and the marked range ends.
    pub fn replace_byte_range(&mut self, a: usize, b: usize, replacement: &str)
        requires
            field_wf(*old(self)),
            is_boundary(old(self).text@, a as int),
            is_boundary(old(self).text@, b as int),
            a <= b,
        ensures
            field_wf(*final(self)),
            final(self).text@ == replaced(old(self).text@, a as int, b as int, replacement@),
            final(self).selection.start == a + utf8_len(replacement@),
            final(self).selection.end == a + utf8_len(replacement@),
            !final(self).reversed,
            final(self).marked is None,
    {
        let updated = replace_bytes(&self.text, a, b, replacement);
        proof {
            lemma_edit_cursor(self.text@, a as int, b as int, replacement@);
        }
        // The new text's byte length fits in `usize`, and so does the cursor.
        let _updated_len = str_len(updated.as_str());
        let cursor = a + str_len(replacement);
        self.selection = cursor..cursor;
        self.reversed = false;
        self.marked = None;
        self.text = updated;
    }

    /// Puts a bare cursor at `offset`.
    pub fn move_to(&mut self, offset: usize)
        requires
            field_wf(*old(self)),
            is_boundary(old(self).text@, offset as int),
        ensures
            field_wf(*final(self)),
            final(self).text == old(self).text,
            final(self).marked == old(self).marked,
            final(self).selection.start == offset,
            final(self).selection.end == offset,
            !final(self).reversed,
    {
        self.selection = offset..offset;
        self.reversed = false;
    }

    /// Extends the selection so that the cursor moves to `offset`, keeping
    /// the other end; the selection is put in order (the cursor then sits at
    /// its start), and an empty one is not reversed.
    pub fn select_to(&mut self, offset: usize)
        requires
            field_wf(*old(self)),
            is_boundary(old(self).text@, offset as int),
        ensures
            field_wf(*final(self)),
            final(self).text == old(self).text,
            final(self).marked == old(self).marked,
            ({
                let (s, e) = if old(self).reversed {
                    (offset as int, old(self).selection.end as int)
                } else {
                    (old(self).selection.start as int, offset as int)
                };
                let swapped = e < s;
                &&& final(self).selection.start == (if swapped { e } else { s })
                &&& final(self).selection.end == (if swapped { s } else { e })
                &&& final(self).reversed == (s != e && (old(self).reversed != swapped))
            }),
    {
        if self.reversed {
            self.selection.start = offset;
        } else {
            self.selection.end = offset;
        }
        if self.selection.end < self.selection.start {
            self.selection = self.selection.end..self.selection.start;
            self.reversed = !self.reversed;
        }
        if self.selection.start >= self.selection.end {
            self.reversed = false;
        }
    }

    /// Extends the selection one grapheme to the left of the cursor.
    pub fn select_left(&mut self)
        requires
            field_wf(*old(self)),
        ensures
            field_wf(*final(self)),
            final(self).text == old(self).text,
            final(self).marked == old(self).marked,
            ({
                let offset = grapheme_before_cursor(*old(self));
                let (s, e) = if old(self).reversed {
                    (offset, old(self).selection.end as int)
                } else {
                    (old(self).selection.start as int, offset)
                };
                let swapped = e < s;
                &&& final(self).selection.start == (if swapped { e } else { s })
                &&& final(self).selection.end == (if swapped { s } else { e })
                &&& final(self).reversed == (s != e && (old(self).reversed != swapped))
            }),
    {
        let offset = previous_utf8_boundary(self.text.as_str(), self.cursor_offset());
        self.select_to(offset);
    }

    /// Extends the selection one grapheme to the right of the cursor.
    pub fn select_right(&mut self)
        requires
            field_wf(*old(self)),
        ensures
            field_wf(*final(self)),
            final(self).text == old(self).text,
            final(self).marked == old(self).marked,
            ({
                let offset = grapheme_after_cursor(*old(self));
                let (s, e) = if old(self).reversed {
                    (offset, old(self).selection.end as int)
                } else {
                    (old(self).selection.start as int, offset)
                };
                let swapped = e < s;
                &&& final(self).selection.start == (if swapped { e } else { s })
                &&& final(self).selection.end == (if swapped { s } else { e })
                &&& final(self).reversed == (s != e && (old(self).reversed != swapped))
            }),
    {
        let offset = next_utf8_boundary(self.text.as_str(), self.cursor_offset());
        self.select_to(offset);
    }

    /// Selects the whole text.
    pub fn select_all(&mut self)
        requires
            field_wf(*old(self)),
        ensures
            field_wf(*final(self)),
            final(self).text == old(self).text,
            final(self).marked == old(self).marked,
            final(self).selection.start == 0,
            final(self).selection.end == utf8_len(old(self).text@),
            !final(self).reversed,
    {
        let end = str_len(self.text.as_str());
        proof {
            lemma_byte_offset_ends(self.text@);
            assert(byte_offset(self.text@, 0) == 0);
        }
        self.selection = 0..end;
        self.reversed = false;
    }
}

/// What a key pressed in a single text field (the rename field, the URL
/// field) does.
#[derive(Clone, Debug, PartialEq, Eq)]
pub enum FieldKeyAction {
    /// Commit the field (rename it, or navigate to the URL).
    Submit,
    /// Abandon the edit.
    Cancel,
    SelectAll,
    Backspace,
    Delete,
    MoveLeft,
    MoveRight,
    /// Type the key's text.
    Insert(String),
    /// Leave the key alone.
    Ignore,
}

/// Modifier keys held with a key.
#[derive(Clone, Copy, Debug, PartialEq, Eq)]
pub struct KeyModifiers {
    pub shift: bool,
    pub platform: bool,
    pub control: bool,
    pub alt: bool,
}

/// The kinds of field key actions, with the typed text as a sequence.
pub enum FieldKeyView {
    Submit,
    Cancel,
    SelectAll,
    Backspace,
    Delete,
    MoveLeft,
    MoveRight,
    Insert(Seq<char>),
    Ignore,
}

pub open spec fn field_key_view(a: FieldKeyAction) -> FieldKeyView {
    match a {
        FieldKeyAction::Submit => FieldKeyView::Submit,
        FieldKeyAction::Cancel => FieldKeyView::Cancel,
        FieldKeyAction::SelectAll => FieldKeyView::SelectAll,
        FieldKeyAction::Backspace => FieldKeyView::Backspace,
        FieldKeyAction::Delete => FieldKeyView::Delete,
        FieldKeyAction::MoveLeft => FieldKeyView::MoveLeft,
        FieldKeyAction::MoveRight => FieldKeyView::MoveRight,
        FieldKeyAction::Insert(t) => FieldKeyView::Insert(t@),
        FieldKeyAction::Ignore => FieldKeyView::Ignore,
    }
}

/// A key that the field does not claim for itself: `a` with the platform
/// modifier selects all; backspace, delete and the arrows edit; any other
/// key types its text when no command modifier is held.
pub open spec fn common_key(key: Seq<char>, m: KeyModifiers, key_char: Option<Seq<char>>) -> FieldKeyView {
    if key == "a"@ && m.platform {
        FieldKeyView::SelectAll
    } else if key == "backspace"@ {
        FieldKeyView::Backspace
    } else if key == "delete"@ {
        FieldKeyView::Delete
    } else if key == "left"@ {
        FieldKeyView::MoveLeft
    } else if key == "right"@ {
        FieldKeyView::MoveRight
    } else if !m.platform && !m.control && !m.alt && key_char is Some {
        FieldKeyView::Insert(key_char->0)
    } else {
        FieldKeyView::Ignore
    }
}

/// A key in the rename field: enter renames, escape cancels, the rest as
/// in `common_key`.
pub open spec fn rename_key(key: Seq<char>, m: KeyModifiers, key_char: Option<Seq<char>>) -> FieldKeyView {
    if key == "enter"@ {
        FieldKeyView::Submit
    } else if key == "escape"@ {
        FieldKeyView::Cancel
    } else {
        common_key(key, m, key_char)
    }
}

/// A key in the URL field: enter or return without shift navigates, the
/// rest as in `common_key`.
pub open spec fn url_key(key: Seq<char>, m: KeyModifiers, key_char: Option<Seq<char>>) -> FieldKeyView {
    if (key == "enter"@ || key == "return"@) && !m.shift {
        FieldKeyView::Submit
    } else {
        common_key(key, m, key_char)
    }
}

fn common_key_action(key: &str, m: KeyModifiers, key_char: Option<&str>) -> (a: FieldKeyAction)
    ensures
        field_key_view(a) == common_key(key@, m, match key_char {
            Some(t) => Some(t@),
            None => None,
        }),
{
    if str_eq(key, "a") && m.platform {
        FieldKeyAction::SelectAll
    } else if str_eq(key, "backspace") {
        FieldKeyAction::Backspace
    } else if str_eq(key, "delete") {
        FieldKeyAction::Delete
    } else if str_eq(key, "left") {
        FieldKeyAction::MoveLeft
    } else if str_eq(key, "right") {
        FieldKeyAction::MoveRight
    } else if !m.platform && !m.control && !m.alt {
        match key_char {
            Some(t) => FieldKeyAction::Insert(t.to_string()),
            None => FieldKeyAction::Ignore,
        }
    } else {
        FieldKeyAction::Ignore
    }
}

/// What a key does in the rename field (see `rename_key`).
pub fn rename_key_action(key: &str, modifiers: KeyModifiers, key_char: Option<&str>) -> (a: FieldKeyAction)
    ensures
        field_key_view(a) == rename_key(key@, modifiers, match key_char {
            Some(t) => Some(t@),
            None => None,
        }),
{
    if str_eq(key, "enter") {
        FieldKeyAction::Submit
    } else if str_eq(key, "escape") {
        FieldKeyAction::Cancel
    } else {
        common_key_action(key, modifiers, key_char)
    }
}

/// What a key does in the URL field (see `url_key`).
pub fn browser_url_key_action(key: &str, modifiers: KeyModifiers, key_char: Option<&str>) -> (a: FieldKeyAction)
    ensures
        field_key_view(a) == url_key(key@, modifiers, match key_char {
            Some(t) => Some(t@),
            None => None,
        }),
{
    if (str_eq(key, "enter") || str_eq(key, "return")) && !modifiers.shift {
        FieldKeyAction::Submit
    } else {
        common_key_action(key, modifiers, key_char)
    }
}

} // verus!
