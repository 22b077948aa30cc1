//! Lines of text and the buffer that holds them.

use crate::cursor::{texts, BoundedCursor, Cursor, Position};
use crate::text::{
    byte_len, char_index, chars_before, lemma_byte_len_increases, lemma_byte_len_next,
    lemma_chars_before_bounds, lemma_chars_before_unique, lemma_start_column_next, render_width,
    saturated, spaces, start_column, utf8_len, ConsoleWidthChar,
};
use vstd::arithmetic::div_mod::{
    lemma_add_mod_noop_right, lemma_fundamental_div_mod, lemma_mod_multiples_vanish,
    lemma_small_mod,
};
use vstd::prelude::*;
use vstd::std_specs::iter::IteratorSpec;
use vstd::string::StringExecFns;
use vstd::utf8::{
    encode_utf8, encode_utf8_first_scalar, encode_utf8_valid_utf8, is_char_boundary,
    length_of_first_scalar, pop_first_scalar,
};

verus! {

/// Columns between tab stops.
pub const TAB_STOP: usize = 8;

/// How many characters of `s` start before byte `index` of its encoding.
pub open spec fn chars_before_byte(s: Seq<char>, index: int) -> nat
    decreases s.len(),
{
    if s.len() == 0 {
        0
    } else if byte_len(s.drop_last()) < index {
        s.len()
    } else {
        chars_before_byte(s.drop_last(), index)
    }
}

/// Whether byte `index` of the encoding of `s` is where a character starts,
/// or the end of the encoding.
pub open spec fn is_boundary(s: Seq<char>, index: int) -> bool {
    byte_len(s.take(chars_before_byte(s, index) as int)) == index
}

/// What `chars_before_byte` counts: every character before index `k` starts
/// before byte `index`, and the character at `k`, if there is one, does not.
pub proof fn lemma_chars_before_byte_bounds(s: Seq<char>, index: int)
    ensures
        chars_before_byte(s, index) <= s.len(),
        chars_before_byte(s, index) > 0 ==> byte_len(s.take(chars_before_byte(s, index) - 1))
            < index,
        chars_before_byte(s, index) < s.len() ==> byte_len(
            s.take(chars_before_byte(s, index) as int),
        ) >= index,
    decreases s.len(),
{
    if s.len() > 0 {
        let p = s.drop_last();
        lemma_chars_before_byte_bounds(p, index);
        let k = chars_before_byte(p, index) as int;
        assert(p.take(k) =~= s.take(k));
        if k > 0 {
            assert(p.take(k - 1) =~= s.take(k - 1));
        }
    }
}

/// The index that `lemma_chars_before_byte_bounds` describes is the only one.
pub proof fn lemma_chars_before_byte_unique(s: Seq<char>, index: int, k: int)
    requires
        0 <= k <= s.len(),
        k > 0 ==> byte_len(s.take(k - 1)) < index,
        k < s.len() ==> byte_len(s.take(k)) >= index,
    ensures
        chars_before_byte(s, index) == k,
{
    lemma_chars_before_byte_bounds(s, index);
    let c = chars_before_byte(s, index) as int;
    if c < k {
        lemma_byte_len_increases(s, c, k - 1);
    } else if c > k {
        lemma_byte_len_increases(s, k, c - 1);
    }
}

/// A byte is a boundary if and only if some number of characters end just
/// before it.
pub proof fn lemma_boundary_ends_characters(s: Seq<char>, index: int)
    ensures
        is_boundary(s, index) <==> exists|k: int|
            0 <= k <= s.len() && #[trigger] byte_len(s.take(k)) == index,
{
    lemma_chars_before_byte_bounds(s, index);
    if exists|k: int| 0 <= k <= s.len() && #[trigger] byte_len(s.take(k)) == index {
        let k = choose|k: int| 0 <= k <= s.len() && #[trigger] byte_len(s.take(k)) == index;
        if k > 0 {
            lemma_byte_len_increases(s, k - 1, k);
        }
        lemma_chars_before_byte_unique(s, index, k);
    }
}

/// The boundaries of a text are the character boundaries of its encoding.
pub proof fn lemma_boundary_is_char_boundary(s: Seq<char>, index: int)
    ensures
        is_boundary(s, index) <==> is_char_boundary(encode_utf8(s), index),
    decreases s.len(),
{
    let bytes = encode_utf8(s);
    encode_utf8_valid_utf8(s);
    lemma_boundary_ends_characters(s, index);
    if index == 0 {
        assert(byte_len(s.take(0)) == index);
    } else if index < 0 || bytes.len() < index {
        assert forall|k: int| 0 <= k <= s.len() implies #[trigger] byte_len(s.take(k))
            != index by {
            lemma_byte_len_increases(s, k, s.len() as int);
            assert(s.take(s.len() as int) =~= s);
        }
    } else {
        let rest = s.drop_first();
        let first = length_of_first_scalar(bytes);
        encode_utf8_first_scalar(s);
        assert(pop_first_scalar(bytes) =~= encode_utf8(rest));
        lemma_boundary_is_char_boundary(rest, index - first);
        lemma_boundary_ends_characters(rest, index - first);
        assert forall|k: int| 1 <= k <= s.len() implies #[trigger] byte_len(s.take(k)) == first
            + byte_len(rest.take(k - 1)) by {
            assert(s.take(k).drop_first() =~= rest.take(k - 1));
        }
        if is_boundary(rest, index - first) {
            let k = choose|k: int|
                0 <= k <= rest.len() && #[trigger] byte_len(rest.take(k)) == index - first;
            assert(byte_len(s.take(k + 1)) == index);
        }
    }
}

/// The index of the character that starts at byte `index` of `buffer`, where
/// `buffer.len()` counts as the start of one more character; `None` if no
/// character starts there.
pub fn char_position(buffer: &str, index: usize) -> (at: Option<usize>)
    ensures
        at is Some <==> is_boundary(buffer@, index as int),
        at matches Some(k) ==> k == chars_before_byte(buffer@, index as int) && k
            <= buffer@.len(),
{
    let ghost s = buffer@;
    let total = buffer.as_bytes().len();
    let mut offset: usize = 0;
    let mut count: usize = 0;
    for ch in it: buffer.chars()
        invariant
            s == buffer@,
            it.seq() == s,
            total == byte_len(s),
            count == it.index(),
            offset == byte_len(s.take(count as int)),
            count > 0 ==> byte_len(s.take(count - 1)) < index,
    {
        proof {
            lemma_byte_len_next(s, count as int);
            lemma_byte_len_increases(s, count + 1, s.len() as int);
            lemma_byte_len_increases(s, 0, count as int);
            assert(s.take(s.len() as int) =~= s);
        }
        if offset >= index {
            proof {
                lemma_chars_before_byte_unique(s, index as int, count as int);
            }
            return if offset == index {
                Some(count)
            } else {
                None
            };
        }
        offset = offset + utf8_len(ch);
        count = count + 1;
    }
    proof {
        lemma_chars_before_byte_unique(s, index as int, count as int);
    }
    if offset == index {
        Some(count)
    } else {
        None
    }
}

/// `buffer` with `ch` put in as the character of index `at`.
fn insert_at(buffer: &str, at: usize, ch: char) -> (out: String)
    requires
        at <= buffer@.len(),
    ensures
        out@ == buffer@.insert(at as int, ch),
{
    let ghost s = buffer@;
    let mut out = String::new();
    let mut count: usize = 0;
    let mut placed = false;
    for c in it: buffer.chars()
        invariant
            s == buffer@,
            it.seq() == s,
            at <= s.len(),
            count == if it.index() <= at { it.index() } else { at as int },
            placed == (it.index() > at),
            out@ == if placed {
                s.take(it.index()).insert(at as int, ch)
            } else {
                s.take(it.index())
            },
    {
        if count == at && !placed {
            out.push(ch);
            placed = true;
        }
        out.push(c);
        if count < at {
            count = count + 1;
        }
    }
    if !placed {
        out.push(ch);
    }
    out
}

/// `buffer` without its character of index `at`, and that character.
fn remove_at(buffer: &str, at: usize) -> (out: (String, char))
    requires
        at < buffer@.len(),
    ensures
        out.0@ == buffer@.remove(at as int),
        out.1 == buffer@[at as int],
{
    let ghost s = buffer@;
    let mut rest = String::new();
    let mut removed: char = ' ';
    let mut count: usize = 0;
    let mut found = false;
    for c in it: buffer.chars()
        invariant
            s == buffer@,
            it.seq() == s,
            at < s.len(),
            count == if it.index() <= at { it.index() } else { at as int },
            found == (it.index() > at),
            found ==> removed == s[at as int],
            rest@ == if found {
                s.take(it.index()).remove(at as int)
            } else {
                s.take(it.index())
            },
    {
        if count == at && !found {
            removed = c;
            found = true;
        } else {
            rest.push(c);
            if count < at {
                count = count + 1;
            }
        }
    }
    (rest, removed)
}

/// The text of a line after the character that ends at byte `index` was
/// taken out. Nothing ends at byte 0, nor anywhere but at a boundary: the
/// text is then as before.
pub open spec fn without_char_before(s: Seq<char>, index: int) -> Seq<char> {
    if is_boundary(s, index) && chars_before_byte(s, index) > 0 {
        s.remove(chars_before_byte(s, index) - 1)
    } else {
        s
    }
}

/// The columns of the character that `without_char_before` takes out, and
/// 0 where it takes none.
pub open spec fn width_of_char_before(s: Seq<char>, index: int) -> nat {
    if is_boundary(s, index) && chars_before_byte(s, index) > 0 {
        render_width(s[chars_before_byte(s, index) - 1])
    } else {
        0
    }
}

/// The columns from `col` to the next tab stop; none where there are no tab
/// stops.
pub open spec fn tab_advance(col: nat, tab_stop: nat) -> nat {
    if tab_stop == 0 {
        0
    } else {
        (tab_stop - col % tab_stop) as nat
    }
}

/// The columns that `s` fills on the screen, each tab reaching to the next
/// tab stop.
pub open spec fn expanded_width(s: Seq<char>, tab_stop: nat) -> nat
    decreases s.len(),
{
    if s.len() == 0 {
        0
    } else {
        let before = expanded_width(s.drop_last(), tab_stop);
        if s.last() == '\t' {
            before + tab_advance(before, tab_stop)
        } else {
            before + render_width(s.last())
        }
    }
}

/// `s` as the terminal shows it: each tab replaced by the spaces that reach
/// from its column to the next tab stop.
pub open spec fn expanded(s: Seq<char>, tab_stop: nat) -> Seq<char>
    decreases s.len(),
{
    if s.len() == 0 {
        Seq::empty()
    } else {
        let before = s.drop_last();
        if s.last() == '\t' {
            expanded(before, tab_stop) + spaces(
                tab_advance(expanded_width(before, tab_stop), tab_stop),
            )
        } else {
            expanded(before, tab_stop).push(s.last())
        }
    }
}

/// The column, counted from `phase` columns past a tab stop, that lies
/// `width` columns further on, again as columns past a tab stop.
fn next_phase(phase: usize, width: usize, tab_stop: usize, Ghost(col): Ghost<nat>) -> (next: usize)
    requires
        tab_stop > 0,
        phase == col % (tab_stop as nat),
    ensures
        next == (col + width) % (tab_stop as int),
{
    proof {
        lemma_add_mod_noop_right(width as int, col as int, tab_stop as int);
    }
    let sum: u128 = phase as u128 + width as u128;
    let next: u128 = sum % (tab_stop as u128);
    next as usize
}

/// `buffer` with each tab replaced by spaces up to the next multiple of
/// `tab_stop` columns. With a `tab_stop` of 0 the tabs are dropped.
pub fn expand_tabs(buffer: &str, tab_stop: usize) -> (out: String)
    ensures
        out@ == expanded(buffer@, tab_stop as nat),
{
    let ghost s = buffer@;
    let ghost ts = tab_stop as nat;
    let mut out = String::new();
    let mut phase: usize = 0;
    proof {
        if ts > 0 {
            lemma_small_mod(0, ts);
        }
    }
    for ch in it: buffer.chars()
        invariant
            s == buffer@,
            ts == tab_stop,
            it.seq() == s,
            out@ == expanded(s.take(it.index()), ts),
            tab_stop > 0 ==> phase == expanded_width(s.take(it.index()), ts) % ts,
    {
        let ghost before = s.take(it.index());
        let ghost col = expanded_width(before, ts);
        proof {
            assert(s.take(it.index() + 1).drop_last() =~= before);
        }
        if ch == '\t' {
            if tab_stop > 0 {
                let fill = tab_stop - phase;
                let mut n: usize = 0;
                while n < fill
                    invariant
                        n <= fill,
                        out@ == expanded(before, ts) + spaces(n as nat),
                    decreases fill - n,
                {
                    out.push(' ');
                    n = n + 1;
                }
                phase = 0;
                proof {
                    lemma_fundamental_div_mod(col as int, ts as int);
                    lemma_mod_multiples_vanish(col as int / ts as int + 1, 0, ts as int);
                    lemma_small_mod(0, ts);
                    assert(col + ts - col % ts == ts * (col as int / ts as int + 1) + 0)
                        by (nonlinear_arith)
                        requires
                            col == ts * (col as int / ts as int) + col % ts,
                    ;
                }
            }
        } else {
            out.push(ch);
            if tab_stop > 0 {
                phase = next_phase(phase, ch.render_width(), tab_stop, Ghost(col));
            }
        }
    }
    proof {
        assert(s.take(s.len() as int) =~= s);
    }
    out
}

/// The column of the screen at which column `column` of the text `s` is
/// shown: the columns that the characters left of it fill once the tabs
/// among them are expanded.
pub open spec fn rendered_column(s: Seq<char>, column: int, tab_stop: nat) -> nat {
    expanded_width(s.take(chars_before(s, column) as int), tab_stop)
}

/// The column of the screen at which column `column` of `buffer` is shown,
/// held at the largest `usize` where it would pass it.
pub fn render_column(buffer: &str, column: usize, tab_stop: usize) -> (shown: usize)
    ensures
        shown == saturated(rendered_column(buffer@, column as int, tab_stop as nat)),
{
    let ghost s = buffer@;
    let ghost ts = tab_stop as nat;
    let mut it = buffer.chars();
    let mut start: usize = 0;
    let mut shown: usize = 0;
    let mut phase: usize = 0;
    let ghost mut i: int = 0;
    proof {
        if ts > 0 {
            lemma_small_mod(0, ts);
        }
    }
    loop
        invariant_except_break
            it.remaining() == s.skip(i),
            start == start_column(s, i),
        invariant
            s == buffer@,
            ts == tab_stop,
            0 <= i <= s.len(),
            shown == saturated(expanded_width(s.take(i), ts)),
            tab_stop > 0 ==> phase == expanded_width(s.take(i), ts) % ts,
            i > 0 ==> start_column(s, i - 1) < column,
        ensures
            i < s.len() ==> start_column(s, i) >= column,
        decreases s.len() - i,
    {
        if start >= column {
            break ;
        }
        match it.next() {
            None => {
                break ;
            },
            Some(ch) => {
                let ghost col = expanded_width(s.take(i), ts);
                proof {
                    lemma_start_column_next(s, i);
                    assert(s.take(i + 1).drop_last() =~= s.take(i));
                }
                let width = ch.render_width();
                if ch == '\t' {
                    if tab_stop > 0 {
                        shown = shown.saturating_add(tab_stop - phase);
                        phase = 0;
                        proof {
                            lemma_fundamental_div_mod(col as int, ts as int);
                            lemma_mod_multiples_vanish(col as int / ts as int + 1, 0, ts as int);
                            lemma_small_mod(0, ts);
                            assert(col + ts - col % ts == ts * (col as int / ts as int + 1) + 0)
                                by (nonlinear_arith)
                                requires
                                    col == ts * (col as int / ts as int) + col % ts,
                            ;
                        }
                    }
                } else {
                    shown = shown.saturating_add(width);
                    if tab_stop > 0 {
                        phase = next_phase(phase, width, tab_stop, Ghost(col));
                    }
                }
                proof {
                    i = i + 1;
                }
                match start.checked_add(width) {
                    Some(next) => {
                        start = next;
                    },
                    None => {
                        break ;
                    },
                }
            },
        }
    }
    proof {
        lemma_chars_before_unique(s, column as int, i);
    }
    shown
}

/// One line of text, without its line ending.
#[derive(Debug, Clone)]
pub struct Row {
    buffer: String,
}

impl View for Row {
    type V = Seq<char>;

    closed spec fn view(&self) -> Seq<char> {
        self.buffer@
    }
}

impl Default for Row {
    fn default() -> (row: Row)
        ensures
            row@ == Seq::<char>::empty(),
    {
        Row { buffer: String::new() }
    }
}

/// What went wrong with a buffer.
#[derive(Debug, Clone, PartialEq, Eq)]
pub enum BufferError {
    /// The file of this path could not be read.
    FailedToOpen(String),
    /// The file of this path could not be written.
    FailedToSave(String),
    /// The buffer has no file to be saved to.
    NoFilename,
    /// An edit was aimed at a place that the text does not have.
    OutOfBounds,
}

/// An error of a buffer in words.
pub open spec fn buffer_error_text(error: BufferError) -> Seq<char> {
    match error {
        BufferError::FailedToOpen(path) => "Unable to open file "@ + path@,
        BufferError::FailedToSave(path) => "Unable to save file "@ + path@,
        BufferError::NoFilename => "No filename was given"@,
        BufferError::OutOfBounds => "The text has no such place"@,
    }
}

impl BufferError {
    /// The error in words.
    pub fn message(&self) -> (text: String)
        ensures
            text@ == buffer_error_text(*self),
    {
        let mut text = String::new();
        match self {
            BufferError::FailedToOpen(path) => {
                text.append("Unable to open file ");
                text.append(path.as_str());
            },
            BufferError::FailedToSave(path) => {
                text.append("Unable to save file ");
                text.append(path.as_str());
            },
            BufferError::NoFilename => {
                text.append("No filename was given");
            },
            BufferError::OutOfBounds => {
                text.append("The text has no such place");
            },
        }
        text
    }
}

impl Row {
    /// A line that holds `buffer`.
    pub fn new(buffer: &str) -> (row: Row)
        ensures
            row@ == buffer@,
    {
        Row { buffer: buffer.to_owned() }
    }

    /// The line as the terminal shows it, tabs expanded to the tab stops.
    pub fn render_buffer(&self) -> (out: String)
        ensures
            out@ == expanded(self@, TAB_STOP as nat),
    {
        expand_tabs(self.buffer.as_str(), TAB_STOP)
    }

    /// Puts `ch` in at byte `index`, which must be where a character starts
    /// or the end of the line.
    pub fn insert(&mut self, index: usize, ch: char) -> (done: Result<(), BufferError>)
        ensures
            done is Ok <==> is_boundary(old(self)@, index as int),
            done is Ok <==> is_char_boundary(encode_utf8(old(self)@), index as int),
            done is Ok ==> final(self)@ == old(self)@.insert(
                chars_before_byte(old(self)@, index as int) as int,
                ch,
            ),
            done is Err ==> done == Err::<(), BufferError>(BufferError::OutOfBounds) && final(self)@
                == old(self)@,
    {
        proof {
            lemma_boundary_is_char_boundary(self@, index as int);
        }
        match char_position(self.buffer.as_str(), index) {
            Some(at) => {
                self.buffer = insert_at(self.buffer.as_str(), at, ch);
                Ok(())
            },
            None => Err(BufferError::OutOfBounds),
        }
    }

    /// Takes out the character that ends at byte `index` and returns the
    /// columns it took. Where none ends there the line stays as it is and
    /// the result is 0.
    pub fn delete_before(&mut self, index: usize) -> (width: usize)
        ensures
            final(self)@ == without_char_before(old(self)@, index as int),
            width == width_of_char_before(old(self)@, index as int),
    {
        match char_position(self.buffer.as_str(), index) {
            Some(at) => {
                if at > 0 {
                    let (rest, removed) = remove_at(self.buffer.as_str(), at - 1);
                    self.buffer = rest;
                    removed.render_width()
                } else {
                    0
                }
            },
            None => 0,
        }
    }

    /// The column of the screen at which column `column` of the line is
    /// shown.
    pub fn render_cursor(&self, column: usize) -> (shown: usize)
        ensures
            shown == saturated(rendered_column(self@, column as int, TAB_STOP as nat)),
    {
        render_column(self.buffer.as_str(), column, TAB_STOP)
    }

    /// The text of the line.
    pub fn buffer(&self) -> (text: &str)
        ensures
            text@ == self@,
    {
        self.buffer.as_str()
    }
}

/// The index of the first line feed of `s`, and the length of `s` if it has
/// none.
pub open spec fn first_newline(s: Seq<char>) -> int
    decreases s.len(),
{
    if s.len() == 0 || s[0] == '\n' {
        0
    } else {
        1 + first_newline(s.drop_first())
    }
}

/// `s` without the carriage return at its end, if it has one.
pub open spec fn strip_cr(s: Seq<char>) -> Seq<char> {
    if s.len() > 0 && s.last() == '\r' {
        s.drop_last()
    } else {
        s
    }
}

/// The lines of a text. A line ends with a line feed, or a carriage return
/// and a line feed, which are not part of it; what follows the last line
/// feed is a line too, unless it is empty.
pub open spec fn lines_of(s: Seq<char>) -> Seq<Seq<char>>
    decreases s.len(),
{
    if s.len() == 0 {
        Seq::empty()
    } else {
        let end = first_newline(s);
        if 0 <= end < s.len() {
            seq![strip_cr(s.take(end))] + lines_of(s.skip(end + 1))
        } else {
            seq![s]
        }
    }
}

/// The lines put together again, a line feed between each two.
pub open spec fn joined(lines: Seq<Seq<char>>) -> Seq<char>
    decreases lines.len(),
{
    if lines.len() == 0 {
        Seq::empty()
    } else if lines.len() == 1 {
        lines[0]
    } else {
        joined(lines.drop_last()) + seq!['\n'] + lines.last()
    }
}

/// Whether `s` is the text of one line: without a line feed.
pub open spec fn is_line(s: Seq<char>) -> bool {
    forall|i: int| 0 <= i < s.len() ==> s[i] != '\n'
}

/// Whether each of `lines` is the text of one line.
pub open spec fn all_lines(lines: Seq<Seq<char>>) -> bool {
    forall|i: int| 0 <= i < lines.len() ==> is_line(#[trigger] lines[i])
}

/// Before its first line feed a text has none.
pub proof fn lemma_first_newline_bounds(s: Seq<char>)
    ensures
        0 <= first_newline(s) <= s.len(),
        forall|j: int| 0 <= j < first_newline(s) ==> s[j] != '\n',
        first_newline(s) < s.len() ==> s[first_newline(s)] == '\n',
    decreases s.len(),
{
    if s.len() > 0 && s[0] != '\n' {
        let rest = s.drop_first();
        lemma_first_newline_bounds(rest);
        assert forall|j: int| 0 <= j < first_newline(s) implies s[j] != '\n' by {
            if j > 0 {
                assert(s[j] == rest[j - 1]);
            }
        }
    }
}

/// The lines of a text hold no line feed.
pub proof fn lemma_lines_are_lines(s: Seq<char>)
    ensures
        all_lines(lines_of(s)),
    decreases s.len(),
{
    if s.len() > 0 {
        lemma_first_newline_bounds(s);
        let end = first_newline(s);
        if end < s.len() {
            lemma_lines_are_lines(s.skip(end + 1));
            assert forall|i: int| 0 <= i < lines_of(s).len() implies is_line(
                #[trigger] lines_of(s)[i],
            ) by {}
        }
    }
}

/// The index that `lemma_first_newline_bounds` describes is the only one.
pub proof fn lemma_first_newline_unique(s: Seq<char>, end: int)
    requires
        0 <= end <= s.len(),
        forall|j: int| 0 <= j < end ==> s[j] != '\n',
        end < s.len() ==> s[end] == '\n',
    ensures
        first_newline(s) == end,
    decreases s.len(),
{
    if s.len() > 0 && end > 0 {
        lemma_first_newline_unique(s.drop_first(), end - 1);
    }
}
/// The lines of `contents`.
pub fn split_lines(contents: &str) -> (rows: Vec<Row>)
    ensures
        texts(rows@) == lines_of(contents@),
        all_lines(texts(rows@)),
{
    proof {
        lemma_lines_are_lines(contents@);
    }
    let ghost s = contents@;
    let mut rows: Vec<Row> = Vec::new();
    let mut line = String::new();
    let mut held = false;
    let mut open = false;
    let ghost mut start: int = 0;
    proof {
        assert(s.skip(0) =~= s);
    }
    for ch in it: contents.chars()
        invariant
            s == contents@,
            it.seq() == s,
            0 <= start <= it.index(),
            forall|j: int| start <= j < it.index() ==> s[j] != '\n',
            lines_of(s) == texts(rows@) + lines_of(s.skip(start)),
            open == (start < it.index()),
            held ==> open && s[it.index() - 1] == '\r',
            !held && open ==> s[it.index() - 1] != '\r',
            s.subrange(start, it.index() as int) == if held {
                line@.push('\r')
            } else {
                line@
            },
    {
        let ghost i = it.index();
        let ghost piece = s.subrange(start, i);
        if ch == '\n' {
            let done = Row::new(line.as_str());
            rows.push(done);
            proof {
                let rest = s.skip(start);
                assert forall|j: int| 0 <= j < i - start implies rest[j] != '\n' by {}
                lemma_first_newline_unique(rest, i - start);
                assert(rest.take(i - start) =~= piece);
                assert(rest.skip(i - start + 1) =~= s.skip(i + 1));
                assert(strip_cr(piece) == done@);
                start = i + 1;
            }
            line = String::new();
            held = false;
            open = false;
        } else {
            if held {
                line.push('\r');
            }
            if ch == '\r' {
                held = true;
            } else {
                held = false;
                line.push(ch);
            }
            open = true;
        }
    }
    proof {
        let rest = s.skip(start);
        if rest.len() > 0 {
            assert forall|j: int| 0 <= j < rest.len() implies rest[j] != '\n' by {}
            lemma_first_newline_unique(rest, rest.len() as int);
        }
    }
    if open {
        if held {
            line.push('\r');
        }
        rows.push(Row::new(line.as_str()));
    }
    rows
}

/// Whether a buffer holds changes that were not saved.
#[derive(Debug, Clone, Copy, PartialEq, Eq, Structural)]
pub enum BufferState {
    Modified,
    Default,
}

impl Default for BufferState {
    fn default() -> (state: BufferState)
        ensures
            state == BufferState::Default,
    {
        BufferState::Default
    }
}

/// The text that is edited, with the file it came from.
#[derive(Debug, Clone)]
pub struct Buffer {
    rows: Vec<Row>,
    filename: Option<String>,
    cursor: BoundedCursor,
    state: BufferState,
}

/// What a `Buffer` holds.
pub struct BufferView {
    /// The text, line by line.
    pub lines: Seq<Seq<char>>,
    /// The path of the file that the text is saved to.
    pub filename: Option<Seq<char>>,
    /// Where the cursor that was put aside stands.
    pub cursor: Position,
    pub state: BufferState,
}

impl View for Buffer {
    type V = BufferView;

    closed spec fn view(&self) -> BufferView {
        BufferView {
            lines: texts(self.rows@),
            filename: match self.filename {
                Some(name) => Some(name@),
                None => None,
            },
            cursor: self.cursor.at(),
            state: self.state,
        }
    }
}

/// The lines after `ch` was typed at `p`, which is a place of the text. On
/// the empty line past the end, the text first gets that line.
pub open spec fn typed(lines: Seq<Seq<char>>, p: Position, ch: char) -> Seq<Seq<char>> {
    let grown = if p.1 == lines.len() {
        lines.push(Seq::empty())
    } else {
        lines
    };
    let text = grown[p.1 as int];
    grown.update(p.1 as int, text.insert(chars_before(text, p.0 as int) as int, ch))
}

/// Whether there is a character to erase left of `p`: not at the start of a
/// line, and not past the end of the text.
pub open spec fn erases(lines: Seq<Seq<char>>, p: Position) -> bool {
    p.1 < lines.len() && p.0 > 0 && lines[p.1 as int].len() > 0
}

/// The index, in its line, of the character that is erased at `p`: the last
/// one that starts left of `p`.
pub open spec fn erased_index(lines: Seq<Seq<char>>, p: Position) -> int {
    chars_before(lines[p.1 as int], p.0 as int) - 1
}

/// The lines after the character left of `p` was erased.
pub open spec fn erased(lines: Seq<Seq<char>>, p: Position) -> Seq<Seq<char>> {
    if erases(lines, p) {
        lines.update(p.1 as int, lines[p.1 as int].remove(erased_index(lines, p)))
    } else {
        lines
    }
}

/// Where a cursor at `p` stands after the character left of it was erased:
/// as many columns to the left as the character was wide.
pub open spec fn after_erase(lines: Seq<Seq<char>>, p: Position) -> Position {
    if erases(lines, p) {
        let width = render_width(lines[p.1 as int][erased_index(lines, p)]);
        Position(
            if width <= p.0 {
                (p.0 - width) as u16
            } else {
                0
            },
            p.1,
        )
    } else {
        p
    }
}

/// Typing a character that is no line feed leaves each line one line.
pub proof fn lemma_typing_keeps_lines(lines: Seq<Seq<char>>, p: Position, ch: char)
    requires
        all_lines(lines),
        p.1 <= lines.len(),
        ch != '\n',
    ensures
        all_lines(typed(lines, p, ch)),
{
    let grown = if p.1 == lines.len() {
        lines.push(Seq::empty())
    } else {
        lines
    };
    let text = grown[p.1 as int];
    lemma_chars_before_bounds(text, p.0 as int);
    assert(is_line(text));
    assert forall|i: int| 0 <= i < typed(lines, p, ch).len() implies is_line(
        #[trigger] typed(lines, p, ch)[i],
    ) by {}
}

/// Erasing a character leaves each line one line.
pub proof fn lemma_erasing_keeps_lines(lines: Seq<Seq<char>>, p: Position)
    requires
        all_lines(lines),
    ensures
        all_lines(erased(lines, p)),
{
    if erases(lines, p) {
        let text = lines[p.1 as int];
        lemma_char_left_of_column(text, p.0 as int);
        assert forall|i: int| 0 <= i < erased(lines, p).len() implies is_line(
            #[trigger] erased(lines, p)[i],
        ) by {}
    }
}

/// The byte offset of a character is a boundary, and as many characters
/// start before it as the index of the character says.
pub proof fn lemma_offset_is_boundary(s: Seq<char>, k: int)
    requires
        0 <= k <= s.len(),
    ensures
        chars_before_byte(s, byte_len(s.take(k)) as int) == k,
        is_boundary(s, byte_len(s.take(k)) as int),
{
    if k > 0 {
        lemma_byte_len_increases(s, k - 1, k);
    }
    lemma_chars_before_byte_unique(s, byte_len(s.take(k)) as int, k);
}

/// Left of a column that is not the first, a line that is not empty has a
/// character.
pub proof fn lemma_char_left_of_column(s: Seq<char>, column: int)
    requires
        column > 0,
        s.len() > 0,
    ensures
        1 <= chars_before(s, column) <= s.len(),
{
    lemma_chars_before_bounds(s, column);
}

impl Default for Buffer {
    fn default() -> (buffer: Buffer)
        ensures
            buffer@ == (BufferView {
                lines: Seq::empty(),
                filename: None,
                cursor: Position(0, 0),
                state: BufferState::Default,
            }),
    {
        let buffer = Buffer {
            rows: Vec::new(),
            filename: None,
            cursor: BoundedCursor::default(),
            state: BufferState::Default,
        };
        proof {
            assert(texts(buffer.rows@) =~= Seq::<Seq<char>>::empty());
        }
        buffer
    }
}

impl Buffer {
    /// The buffer of the file at `path`, whose text is `contents`; `None`
    /// stands for a file that could not be read.
    pub fn open(path: &str, contents: Option<&str>) -> (opened: Result<Buffer, BufferError>)
        ensures
            match contents {
                Some(text) => opened matches Ok(buffer) && buffer@ == (BufferView {
                    lines: lines_of(text@),
                    filename: Some(path@),
                    cursor: Position(0, 0),
                    state: BufferState::Default,
                }),
                None => opened matches Err(BufferError::FailedToOpen(name)) && name@ == path@,
            },
    {
        match contents {
            Some(text) => Ok(
                Buffer {
                    rows: split_lines(text),
                    filename: Some(path.to_owned()),
                    cursor: BoundedCursor::default(),
                    state: BufferState::Default,
                },
            ),
            None => Err(BufferError::FailedToOpen(path.to_owned())),
        }
    }

    /// Replaces the text by the lines of `contents`.
    pub fn load(&mut self, contents: &str)
        ensures
            final(self)@ == (BufferView {
                lines: lines_of(contents@),
                state: BufferState::Default,
                ..old(self)@
            }),
    {
        self.rows = split_lines(contents);
        self.state = BufferState::Default;
    }

    /// The whole text, a line feed between each two lines: what is written
    /// to the file.
    pub fn serialize(&self) -> (text: String)
        ensures
            text@ == joined(self@.lines),
    {
        let ghost lines = texts(self.rows@);
        let mut text = String::new();
        let mut n: usize = 0;
        while n < self.rows.len()
            invariant
                lines == texts(self.rows@),
                n <= self.rows.len(),
                text@ == joined(lines.take(n as int)),
            decreases self.rows.len() - n,
        {
            proof {
                assert(lines.take(n + 1).drop_last() =~= lines.take(n as int));
            }
            if n > 0 {
                text.push('\n');
            }
            text.append(self.rows[n].buffer());
            n = n + 1;
        }
        proof {
            assert(lines.take(lines.len() as int) =~= lines);
        }
        text
    }

    /// Takes note of how writing the text to the file went: `written` says
    /// whether it was written. A buffer without a file cannot be saved.
    pub fn save(&mut self, written: bool) -> (done: Result<(), BufferError>)
        ensures
            done is Ok <==> old(self)@.filename is Some && written,
            done is Ok ==> final(self)@ == (BufferView {
                state: BufferState::Default,
                ..old(self)@
            }),
            done is Err ==> final(self)@ == old(self)@,
            old(self)@.filename is None ==> done == Err::<(), BufferError>(
                BufferError::NoFilename,
            ),
            old(self)@.filename is Some && !written ==> (done matches Err(
                BufferError::FailedToSave(name),
            ) && Some(name@) == old(self)@.filename),
    {
        match &self.filename {
            Some(name) => {
                if written {
                    self.state = BufferState::Default;
                    Ok(())
                } else {
                    Err(BufferError::FailedToSave(name.clone()))
                }
            },
            None => Err(BufferError::NoFilename),
        }
    }

    /// The path of the file, if the buffer has one.
    pub fn filename_str(&self) -> (name: Option<&str>)
        ensures
            match name {
                Some(path) => self@.filename == Some(path@),
                None => self@.filename is None,
            },
    {
        match &self.filename {
            Some(name) => Some(name.as_str()),
            None => None,
        }
    }

    /// The lines of the text.
    pub fn buffer(&self) -> (rows: &Vec<Row>)
        ensures
            texts(rows@) == self@.lines,
    {
        &self.rows
    }

    /// Puts a cursor aside in the buffer.
    pub fn save_cursor(&mut self, cursor: BoundedCursor)
        ensures
            final(self)@ == (BufferView { cursor: cursor.at(), ..old(self)@ }),
    {
        self.cursor = cursor;
    }

    /// Hands out the cursor that was put aside, and leaves one at the start
    /// of the text in its place.
    pub fn take_cursor(&mut self) -> (cursor: BoundedCursor)
        ensures
            cursor.at() == old(self)@.cursor,
            final(self)@ == (BufferView { cursor: Position(0, 0), ..old(self)@ }),
    {
        let cursor = self.cursor;
        self.cursor = BoundedCursor::default();
        cursor
    }

    /// Types `ch` at the place of `cursor`. On the empty line past the end
    /// of the text that line is first added to it; further down there is
    /// nothing to type into.
    pub fn insert_char<T: Cursor>(&mut self, ch: char, cursor: &T) -> (done: Result<
        (),
        BufferError,
    >)
        ensures
            done is Ok <==> cursor.at().1 <= old(self)@.lines.len(),
            done is Ok ==> final(self)@ == (BufferView {
                lines: typed(old(self)@.lines, cursor.at(), ch),
                state: BufferState::Modified,
                ..old(self)@
            }),
            done is Err ==> done == Err::<(), BufferError>(BufferError::OutOfBounds) && final(self)@
                == old(self)@,
    {
        let x = cursor.x() as usize;
        let y = cursor.y() as usize;
        if y > self.rows.len() {
            return Err(BufferError::OutOfBounds);
        }
        let ghost lines = texts(self.rows@);
        if y == self.rows.len() {
            self.rows.push(Row::default());
        }
        let ghost grown = texts(self.rows@);
        let ghost text = grown[y as int];
        let index = char_index(x, self.rows[y].buffer());
        proof {
            lemma_chars_before_bounds(text, x as int);
            lemma_offset_is_boundary(text, chars_before(text, x as int) as int);
        }
        let placed = self.rows[y].insert(index, ch);
        assert(placed is Ok);
        self.state = BufferState::Modified;
        proof {
            assert(texts(self.rows@) =~= typed(lines, cursor.at(), ch));
        }
        Ok(())
    }

    /// Erases the character left of `cursor` and moves the cursor onto its
    /// place. At the start of a line, and past the end of the text, there is
    /// nothing to erase.
    pub fn delete_char(&mut self, cursor: &mut BoundedCursor)
        ensures
            final(self)@ == (BufferView {
                lines: erased(old(self)@.lines, old(cursor).at()),
                state: if erases(old(self)@.lines, old(cursor).at()) {
                    BufferState::Modified
                } else {
                    old(self)@.state
                },
                ..old(self)@
            }),
            final(cursor).at() == after_erase(old(self)@.lines, old(cursor).at()),
    {
        let x = cursor.x();
        let y = cursor.y();
        if (y as usize) >= self.rows.len() || x == 0 {
            return ;
        }
        let ghost lines = texts(self.rows@);
        let ghost text = lines[y as int];
        let index = char_index(x as usize, self.rows[y as usize].buffer());
        proof {
            lemma_chars_before_bounds(text, x as int);
            lemma_offset_is_boundary(text, chars_before(text, x as int) as int);
            if text.len() > 0 {
                lemma_char_left_of_column(text, x as int);
            }
        }
        let width = self.rows[y as usize].delete_before(index);
        if width > 0 {
            self.state = BufferState::Modified;
            let column = if width <= x as usize {
                x - width as u16
            } else {
                0
            };
            *cursor.position_mut() = Position(column, y);
        }
        proof {
            assert(texts(self.rows@) =~= erased(lines, old(cursor).at()));
        }
    }

    /// Whether the text was changed since it was last saved.
    pub fn state(&self) -> (state: BufferState)
        ensures
            state == self@.state,
    {
        self.state
    }

    /// The number of lines.
    pub fn line_count(&self) -> (n: usize)
        ensures
            n == self@.lines.len(),
    {
        self.rows.len()
    }

    /// The line of index `index`, if the text has one.
    pub fn line_at(&self, index: usize) -> (line: Option<&Row>)
        ensures
            match line {
                Some(row) => index < self@.lines.len() && row@ == self@.lines[index as int],
                None => index >= self@.lines.len(),
            },
    {
        if index < self.rows.len() {
            Some(&self.rows[index])
        } else {
            None
        }
    }

    /// Adds an empty line at the end of the text.
    pub fn append_blank_line(&mut self)
        ensures
            final(self)@ == (BufferView {
                lines: old(self)@.lines.push(Seq::empty()),
                state: BufferState::Modified,
                ..old(self)@
            }),
    {
        let ghost lines = texts(self.rows@);
        self.rows.push(Row::default());
        self.state = BufferState::Modified;
        proof {
            assert(texts(self.rows@) =~= lines.push(Seq::empty()));
        }
    }

    /// Puts a line that holds `text` in as the line of index `index`; the
    /// lines from there on move down. `index` may be the number of lines.
    pub fn insert_line(&mut self, index: usize, text: &str) -> (done: Result<(), BufferError>)
        ensures
            done is Ok <==> index <= old(self)@.lines.len(),
            done is Ok ==> final(self)@ == (BufferView {
                lines: old(self)@.lines.insert(index as int, text@),
                state: BufferState::Modified,
                ..old(self)@
            }),
            done is Err ==> done == Err::<(), BufferError>(BufferError::OutOfBounds) && final(self)@
                == old(self)@,
    {
        if index > self.rows.len() {
            return Err(BufferError::OutOfBounds);
        }
        let ghost lines = texts(self.rows@);
        self.rows.insert(index, Row::new(text));
        self.state = BufferState::Modified;
        proof {
            assert(texts(self.rows@) =~= lines.insert(index as int, text@));
        }
        Ok(())
    }

    /// Takes out the line of index `index`; the lines below move up.
    pub fn remove_line(&mut self, index: usize) -> (done: Result<(), BufferError>)
        ensures
            done is Ok <==> index < old(self)@.lines.len(),
            done is Ok ==> final(self)@ == (BufferView {
                lines: old(self)@.lines.remove(index as int),
                state: BufferState::Modified,
                ..old(self)@
            }),
            done is Err ==> done == Err::<(), BufferError>(BufferError::OutOfBounds) && final(self)@
                == old(self)@,
    {
        if index >= self.rows.len() {
            return Err(BufferError::OutOfBounds);
        }
        let ghost lines = texts(self.rows@);
        let _ = self.rows.remove(index);
        self.state = BufferState::Modified;
        proof {
            assert(texts(self.rows@) =~= lines.remove(index as int));
        }
        Ok(())
    }
}

} // verus!
