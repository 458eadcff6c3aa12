//! Text coordinates and edits.
//!
//! The wire protocol addresses text by (line, character) pairs counted in
//! UTF-16 code units.  Internally a document's text is a sequence of
//! characters; this module converts protocol positions into character
//! indices and splices content changes into a text.

use vstd::prelude::*;

verus! {

/// A position in a document: zero-based line, and character offset within
/// that line counted in UTF-16 code units.
#[derive(Clone, Copy, Debug, PartialEq, Eq, Structural)]
pub struct Position {
    pub line: u64,
    pub character: u64,
}

/// A half-open span of a document between two positions.
#[derive(Clone, Copy, Debug, PartialEq, Eq, Structural)]
pub struct TextRange {
    pub start: Position,
    pub end: Position,
}

/// One edit of a formatting response: replace `range` with `new_text`.
#[derive(Clone, Debug, PartialEq, Eq)]
pub struct TextEdit {
    pub range: TextRange,
    pub new_text: Vec<char>,
}

/// One content change of a `didChange` notification.  A change without a
/// range replaces the whole text; one with a range splices `text` into the
/// addressed span.
#[derive(Clone, Debug, PartialEq, Eq)]
pub struct ContentChange {
    pub range: Option<TextRange>,
    pub text: Vec<char>,
}

/// How many UTF-16 code units encode `c`: two for characters outside the
/// basic multilingual plane, one otherwise.
pub open spec fn utf16_units(c: char) -> nat {
    if c as u32 >= 0x10000 {
        2nat
    } else {
        1nat
    }
}

/// Index reached from `i` after skipping `line` line breaks; clamps to the
/// end of the text when fewer lines remain.
pub open spec fn skip_lines(text: Seq<char>, i: nat, line: nat) -> nat
    decreases text.len() - i,
{
    if line == 0 || i >= text.len() {
        i
    } else if text[i as int] == '\n' {
        skip_lines(text, i + 1, (line - 1) as nat)
    } else {
        skip_lines(text, i + 1, line)
    }
}

/// Index reached from `i` after advancing `units` UTF-16 code units within
/// the current line; clamps at the line break or the end of the text, and
/// does not advance into the middle of a surrogate pair.
pub open spec fn skip_units(text: Seq<char>, i: nat, units: nat) -> nat
    decreases text.len() - i,
{
    if units == 0 || i >= text.len() {
        i
    } else if text[i as int] == '\n' {
        i
    } else if units < utf16_units(text[i as int]) {
        i
    } else {
        skip_units(text, i + 1, (units - utf16_units(text[i as int])) as nat)
    }
}

/// Character index addressed by a (line, character) position.
pub open spec fn pos_index(text: Seq<char>, line: nat, character: nat) -> nat {
    skip_units(text, skip_lines(text, 0, line), character)
}

/// Number of line breaks in `s`.
pub open spec fn newline_count(s: Seq<char>) -> nat
    decreases s.len(),
{
    if s.len() == 0 {
        0nat
    } else {
        newline_count(s.drop_last()) + if s.last() == '\n' {
            1nat
        } else {
            0nat
        }
    }
}

/// The characters of `s` after its last line break; all of `s` when it has
/// none.
pub open spec fn last_line(s: Seq<char>) -> Seq<char>
    decreases s.len(),
{
    if s.len() == 0 {
        Seq::empty()
    } else if s.last() == '\n' {
        Seq::empty()
    } else {
        last_line(s.drop_last()).push(s.last())
    }
}

/// Length of `s` in UTF-16 code units.
pub open spec fn utf16_len(s: Seq<char>) -> nat
    decreases s.len(),
{
    if s.len() == 0 {
        0nat
    } else {
        utf16_len(s.drop_last()) + utf16_units(s.last())
    }
}

/// UTF-16 code units of `c`.
pub fn char_utf16_units(c: char) -> (n: u64)
    ensures
        n == utf16_units(c),
{
    if c as u32 >= 0x10000 {
        2
    } else {
        1
    }
}

/// Character index addressed by `pos`, clamped into the text.
pub fn position_index(text: &Vec<char>, pos: &Position) -> (r: usize)
    ensures
        r == pos_index(text@, pos.line as nat, pos.character as nat),
        r <= text@.len(),
{
    let ghost t = text@;
    let mut i: usize = 0;
    let mut lines: u64 = pos.line;
    while i < text.len() && lines > 0
        invariant
            i <= t.len(),
            t == text@,
            skip_lines(t, i as nat, lines as nat) == skip_lines(t, 0, pos.line as nat),
        decreases t.len() - i,
    {
        if text[i] == '\n' {
            lines = lines - 1;
        }
        i = i + 1;
    }
    assert(i as nat == skip_lines(t, 0, pos.line as nat));
    let ghost start = i as nat;
    let mut units: u64 = pos.character;
    while i < text.len() && units > 0 && text[i] != '\n' && !(text[i] as u32 >= 0x10000 && units
        < 2)
        invariant
            i <= t.len(),
            t == text@,
            skip_units(t, i as nat, units as nat) == skip_units(t, start, pos.character as nat),
        decreases t.len() - i,
    {
        let u = char_utf16_units(text[i]);
        units = units - u;
        i = i + 1;
    }
    i
}

/// `text` with the span `[start, end)` replaced by `new_text`.
pub open spec fn spliced(text: Seq<char>, start: int, end: int, new_text: Seq<char>) -> Seq<char> {
    text.subrange(0, start) + new_text + text.subrange(end, text.len() as int)
}

/// Replaces the character span `[start, end)` of `text` with `new_text`.
pub fn splice_text(text: &Vec<char>, start: usize, end: usize, new_text: &Vec<char>) -> (r: Vec<
    char,
>)
    requires
        start <= end <= text@.len(),
    ensures
        r@ == spliced(text@, start as int, end as int, new_text@),
{
    let mut r: Vec<char> = Vec::new();
    let mut i: usize = 0;
    while i < start
        invariant
            i <= start <= end <= text@.len(),
            r@ == text@.subrange(0, i as int),
        decreases start - i,
    {
        r.push(text[i]);
        i = i + 1;
    }
    let mut j: usize = 0;
    while j < new_text.len()
        invariant
            start <= end <= text@.len(),
            j <= new_text@.len(),
            r@ == text@.subrange(0, start as int) + new_text@.subrange(0, j as int),
        decreases new_text@.len() - j,
    {
        r.push(new_text[j]);
        j = j + 1;
    }
    assert(new_text@.subrange(0, new_text@.len() as int) == new_text@);
    let mut k: usize = end;
    while k < text.len()
        invariant
            start <= end <= k <= text@.len(),
            r@ == text@.subrange(0, start as int) + new_text@ + text@.subrange(
                end as int,
                k as int,
            ),
        decreases text@.len() - k,
    {
        r.push(text[k]);
        k = k + 1;
    }
    r
}

/// A copy of `text`.
pub fn copy_chars(text: &Vec<char>) -> (r: Vec<char>)
    ensures
        r@ == text@,
{
    let mut r: Vec<char> = Vec::new();
    let mut i: usize = 0;
    while i < text.len()
        invariant
            i <= text@.len(),
            r@ == text@.subrange(0, i as int),
        decreases text@.len() - i,
    {
        r.push(text[i]);
        i = i + 1;
    }
    assert(text@.subrange(0, text@.len() as int) == text@);
    r
}

/// Whether two texts hold the same characters.
pub fn chars_eq(a: &Vec<char>, b: &Vec<char>) -> (r: bool)
    ensures
        r == (a@ == b@),
{
    if a.len() != b.len() {
        assert(a@ != b@);
        return false;
    }
    let mut i: usize = 0;
    while i < a.len()
        invariant
            i <= a@.len(),
            a@.len() == b@.len(),
            forall|j: int| 0 <= j < i ==> a@[j] == b@[j],
        decreases a@.len() - i,
    {
        if a[i] != b[i] {
            assert(a@ != b@);
            return false;
        }
        i = i + 1;
    }
    assert(a@ =~= b@);
    true
}

/// `text` after one content change: a change without a range replaces the
/// whole text; one with a range splices its text into the addressed span,
/// an empty span when the range's end addresses a point before its start.
pub open spec fn change_applied(text: Seq<char>, c: ContentChange) -> Seq<char> {
    match c.range {
        None => c.text@,
        Some(range) => {
            let s = pos_index(text, range.start.line as nat, range.start.character as nat);
            let e = pos_index(text, range.end.line as nat, range.end.character as nat);
            let e2 = if e < s {
                s
            } else {
                e
            };
            spliced(text, s as int, e2 as int, c.text@)
        },
    }
}

/// `text` after a list of content changes, applied strictly in order.
pub open spec fn changes_applied(text: Seq<char>, cs: Seq<ContentChange>) -> Seq<char>
    decreases cs.len(),
{
    if cs.len() == 0 {
        text
    } else {
        changes_applied(change_applied(text, cs[0]), cs.drop_first())
    }
}

/// Appending one more change applies it after the others.
pub proof fn lemma_changes_applied_push(text: Seq<char>, cs: Seq<ContentChange>, c: ContentChange)
    ensures
        changes_applied(text, cs.push(c)) == change_applied(changes_applied(text, cs), c),
    decreases cs.len(),
{
    if cs.len() == 0 {
        assert(cs.push(c).drop_first() =~= Seq::<ContentChange>::empty());
        assert(cs.push(c)[0] == c);
        assert(changes_applied(text, cs.push(c)) == changes_applied(
            change_applied(text, c),
            cs.push(c).drop_first(),
        ));
        assert(changes_applied(change_applied(text, c), Seq::<ContentChange>::empty())
            == change_applied(text, c));
        assert(changes_applied(text, cs) == text);
    } else {
        assert(cs.push(c).drop_first() =~= cs.drop_first().push(c));
        assert(cs.push(c)[0] == cs[0]);
        lemma_changes_applied_push(change_applied(text, cs[0]), cs.drop_first(), c);
        assert(changes_applied(text, cs.push(c)) == changes_applied(
            change_applied(text, cs[0]),
            cs.drop_first().push(c),
        ));
        assert(changes_applied(text, cs) == changes_applied(
            change_applied(text, cs[0]),
            cs.drop_first(),
        ));
    }
}

/// Applies one content change to `text`.
pub fn apply_change(text: &Vec<char>, c: &ContentChange) -> (r: Vec<char>)
    ensures
        r@ == change_applied(text@, *c),
{
    match &c.range {
        None => copy_chars(&c.text),
        Some(range) => {
            let s = position_index(text, &range.start);
            let e = position_index(text, &range.end);
            let e2 = if e < s {
                s
            } else {
                e
            };
            splice_text(text, s, e2, &c.text)
        },
    }
}

/// Applies a list of content changes to `text`, strictly in list order.
pub fn apply_changes(text: &Vec<char>, cs: &Vec<ContentChange>) -> (r: Vec<char>)
    ensures
        r@ == changes_applied(text@, cs@),
{
    let mut r = copy_chars(text);
    let mut i: usize = 0;
    while i < cs.len()
        invariant
            i <= cs@.len(),
            r@ == changes_applied(text@, cs@.take(i as int)),
        decreases cs@.len() - i,
    {
        assert(cs@.take(i as int).push(cs@[i as int]) =~= cs@.take(i + 1));
        proof {
            lemma_changes_applied_push(text@, cs@.take(i as int), cs@[i as int]);
        }
        r = apply_change(&r, &cs[i]);
        i = i + 1;
    }
    assert(cs@.take(cs@.len() as int) == cs@);
    r
}

} // verus!
