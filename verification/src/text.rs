//! Widths and offsets of text on a character terminal.
//!
//! A line of text is addressed in two ways: by byte offset into its UTF-8
//! encoding, and by column, the cell of the terminal at which a character
//! starts. The functions here lead from one to the other.

use unicode_width::UnicodeWidthChar;
use vstd::prelude::*;
use vstd::std_specs::iter::IteratorSpec;
use vstd::string::StrSliceExecFns;
use vstd::utf8::{encode_scalar, encode_utf8};

verus! {

/// The display width that the `unicode-width` tables give a character:
/// `None` for a control character, otherwise a number of columns.
pub uninterp spec fn unicode_width(c: char) -> Option<usize>;

/// Calls `unicode_width::UnicodeWidthChar::width`. The result is a function
/// of the character alone; nothing more is claimed of it.
#[verifier::external_body]
fn lookup_width(c: char) -> (w: Option<usize>)
    ensures
        w == unicode_width(c),
{
    UnicodeWidthChar::width(c)
}

/// `String::push` of the standard library appends one character.
pub assume_specification[ String::push ](s: &mut String, ch: char)
    ensures
        final(s)@ == old(s)@.push(ch),
;

/// Columns a character occupies, given what the width tables say of it.
/// A tab counts one column here (its expansion belongs to rendering); a
/// character without a width, or of width zero, still takes one column, so
/// that the cursor can stop on it.
pub open spec fn width_from_lookup(c: char, looked_up: Option<usize>) -> nat {
    if c == '\t' {
        1
    } else {
        match looked_up {
            Some(w) => if w > 0 {
                w as nat
            } else {
                1
            },
            None => 1,
        }
    }
}

/// Columns that `c` occupies in a line.
pub open spec fn render_width(c: char) -> nat {
    width_from_lookup(c, unicode_width(c))
}

/// Total columns of a line: the sum of the widths of its characters.
pub open spec fn column_width(s: Seq<char>) -> nat
    decreases s.len(),
{
    if s.len() == 0 {
        0
    } else {
        column_width(s.drop_last()) + render_width(s.last())
    }
}

/// The column at which the character of index `i` starts; for `i == s.len()`,
/// the column just past the end of the line.
pub open spec fn start_column(s: Seq<char>, i: int) -> nat {
    column_width(s.take(i))
}

/// Bytes that `c` takes in UTF-8.
pub open spec fn scalar_len(c: char) -> nat {
    encode_scalar(c as u32).len()
}

/// Bytes that `s` takes in UTF-8.
pub open spec fn byte_len(s: Seq<char>) -> nat {
    encode_utf8(s).len()
}

/// How many characters of `s` start left of column `target`. Start columns
/// grow with the index, so these characters are the first of the line.
pub open spec fn chars_before(s: Seq<char>, target: int) -> nat
    decreases s.len(),
{
    if s.len() == 0 {
        0
    } else if column_width(s.drop_last()) < target {
        s.len()
    } else {
        chars_before(s.drop_last(), target)
    }
}

/// The byte offset at which a character typed at column `target` goes: that
/// of the first character that starts at `target` or right of it, and the
/// byte length of the line if there is none.
pub open spec fn byte_offset_at_column(s: Seq<char>, target: int) -> nat {
    byte_len(s.take(chars_before(s, target) as int))
}

/// The width of the character that occupies column `target`: the last one
/// that starts at `target` or left of it. Past the end of the line this is
/// the last character, and in an empty line it is one column.
pub open spec fn width_at_column(s: Seq<char>, target: int) -> nat {
    let k = chars_before(s, target + 1);
    if k == 0 {
        1
    } else {
        render_width(s[k - 1])
    }
}

/// `n` as a `usize`, or the largest `usize` if it does not fit.
pub open spec fn saturated(n: nat) -> usize {
    if n <= usize::MAX {
        n as usize
    } else {
        usize::MAX
    }
}

/// Every character takes a column.
pub proof fn lemma_render_width_positive(c: char)
    ensures
        render_width(c) >= 1,
{
}

/// A character put at the end of a line widens it by its own columns.
pub proof fn lemma_column_width_push(s: Seq<char>, c: char)
    ensures
        column_width(s.push(c)) == column_width(s) + render_width(c),
{
    assert(s.push(c).drop_last() =~= s);
}

/// A character ends where the next one starts.
pub proof fn lemma_start_column_next(s: Seq<char>, i: int)
    requires
        0 <= i < s.len(),
    ensures
        start_column(s, i + 1) == start_column(s, i) + render_width(s[i]),
{
    assert(s.take(i + 1).drop_last() =~= s.take(i));
}

/// Start columns grow by at least one column per character.
pub proof fn lemma_start_column_increases(s: Seq<char>, i: int, j: int)
    requires
        0 <= i <= j <= s.len(),
    ensures
        start_column(s, i) + (j - i) <= start_column(s, j),
    decreases j - i,
{
    if i < j {
        lemma_start_column_increases(s, i, j - 1);
        lemma_start_column_next(s, j - 1);
    }
}

/// What `chars_before` counts: every character before index `k` starts left
/// of `target`, and the character at `k`, if there is one, does not.
pub proof fn lemma_chars_before_bounds(s: Seq<char>, target: int)
    ensures
        chars_before(s, target) <= s.len(),
        chars_before(s, target) > 0 ==> start_column(s, chars_before(s, target) - 1) < target,
        chars_before(s, target) < s.len() ==> start_column(s, chars_before(s, target) as int)
            >= target,
    decreases s.len(),
{
    if s.len() > 0 {
        let p = s.drop_last();
        lemma_chars_before_bounds(p, target);
        let k = chars_before(p, target) as int;
        assert(p.take(k) =~= s.take(k));
        if k > 0 {
            assert(p.take(k - 1) =~= s.take(k - 1));
        }
    }
}

/// The index that `lemma_chars_before_bounds` describes is the only one.
pub proof fn lemma_chars_before_unique(s: Seq<char>, target: int, k: int)
    requires
        0 <= k <= s.len(),
        k > 0 ==> start_column(s, k - 1) < target,
        k < s.len() ==> start_column(s, k) >= target,
    ensures
        chars_before(s, target) == k,
{
    lemma_chars_before_bounds(s, target);
    let c = chars_before(s, target) as int;
    if c < k {
        lemma_start_column_increases(s, c, k - 1);
    } else if c > k {
        lemma_start_column_increases(s, k, c - 1);
    }
}

/// A character takes one to four bytes, by the size of its code.
pub proof fn lemma_scalar_len(c: char)
    ensures
        1 <= scalar_len(c) <= 4,
        scalar_len(c) == if (c as u32) < 0x80 {
            1nat
        } else if (c as u32) < 0x800 {
            2nat
        } else if (c as u32) < 0x10000 {
            3nat
        } else {
            4nat
        },
{
}

/// A character put at the end of a text lengthens it by its own bytes.
pub proof fn lemma_byte_len_push(s: Seq<char>, c: char)
    ensures
        encode_utf8(s.push(c)) =~= encode_utf8(s) + encode_scalar(c as u32),
        byte_len(s.push(c)) == byte_len(s) + scalar_len(c),
    decreases s.len(),
{
    if s.len() == 0 {
        assert(s.push(c).drop_first() =~= s);
    } else {
        lemma_byte_len_push(s.drop_first(), c);
        assert(s.push(c).drop_first() =~= s.drop_first().push(c));
    }
}

/// The bytes of a character lie between its start and the start of the
/// next.
pub proof fn lemma_byte_len_next(s: Seq<char>, i: int)
    requires
        0 <= i < s.len(),
    ensures
        byte_len(s.take(i + 1)) == byte_len(s.take(i)) + scalar_len(s[i]),
{
    assert(s.take(i + 1) =~= s.take(i).push(s[i]));
    lemma_byte_len_push(s.take(i), s[i]);
}

/// Byte offsets grow by at least one byte per character.
pub proof fn lemma_byte_len_increases(s: Seq<char>, i: int, j: int)
    requires
        0 <= i <= j <= s.len(),
    ensures
        byte_len(s.take(i)) + (j - i) <= byte_len(s.take(j)),
    decreases j - i,
{
    if i < j {
        lemma_byte_len_increases(s, i, j - 1);
        lemma_byte_len_next(s, j - 1);
        lemma_scalar_len(s[j - 1]);
    }
}

/// The character that occupies a column is at least one column wide,
/// whatever the line and the column.
pub proof fn lemma_width_at_column_positive(s: Seq<char>, target: int)
    ensures
        width_at_column(s, target) >= 1,
{
}

/// The column just past the end of a line lies at the byte length of the
/// line.
pub proof fn lemma_offset_at_line_end(s: Seq<char>)
    ensures
        byte_offset_at_column(s, column_width(s) as int) == byte_len(s),
{
    lemma_offset_past_line_end(s, column_width(s) as int);
}

/// A column at or past the end of a line lies at the byte length of the
/// line.
pub proof fn lemma_offset_past_line_end(s: Seq<char>, target: int)
    requires
        target >= column_width(s),
    ensures
        byte_offset_at_column(s, target) == byte_len(s),
{
    if s.len() > 0 {
        lemma_render_width_positive(s.last());
    }
    assert(s.take(s.len() as int) =~= s);
}

/// The first column of a line lies at byte 0.
pub proof fn lemma_offset_at_line_start(s: Seq<char>)
    ensures
        byte_offset_at_column(s, 0) == 0,
{
    lemma_chars_before_unique(s, 0, 0);
}

/// The columns of two texts, one after the other, add up.
pub proof fn lemma_column_width_concat(a: Seq<char>, b: Seq<char>)
    ensures
        column_width(a + b) == column_width(a) + column_width(b),
    decreases b.len(),
{
    if b.len() > 0 {
        lemma_column_width_concat(a, b.drop_last());
        assert((a + b).drop_last() =~= a + b.drop_last());
    }
}

/// A character put into a line widens it by its own columns.
pub proof fn lemma_column_width_insert(s: Seq<char>, k: int, c: char)
    requires
        0 <= k <= s.len(),
    ensures
        column_width(s.insert(k, c)) == column_width(s) + render_width(c),
{
    lemma_column_width_concat(s.take(k), s.skip(k));
    lemma_column_width_concat(s.take(k).push(c), s.skip(k));
    lemma_column_width_push(s.take(k), c);
    assert(s.take(k) + s.skip(k) =~= s);
}

/// A character taken out of a line narrows it by its own columns.
pub proof fn lemma_column_width_remove(s: Seq<char>, k: int)
    requires
        0 <= k < s.len(),
    ensures
        column_width(s.remove(k)) + render_width(s[k]) == column_width(s),
{
    lemma_column_width_insert(s.remove(k), k, s[k]);
    assert(s.remove(k).insert(k, s[k]) =~= s);
}

/// The character that occupies the column at which character `k` starts is
/// character `k`.
pub proof fn lemma_width_at_start(s: Seq<char>, k: int)
    requires
        0 <= k < s.len(),
    ensures
        chars_before(s, start_column(s, k) as int + 1) == k + 1,
        width_at_column(s, start_column(s, k) as int) == render_width(s[k]),
        start_column(s, k) + width_at_column(s, start_column(s, k) as int) == start_column(
            s,
            k + 1,
        ),
{
    lemma_start_column_next(s, k);
    lemma_chars_before_unique(s, start_column(s, k) as int + 1, k + 1);
}

/// The character that occupies the column left of the one at which
/// character `k` starts is character `k - 1`.
pub proof fn lemma_width_before_start(s: Seq<char>, k: int)
    requires
        0 < k <= s.len(),
    ensures
        chars_before(s, start_column(s, k) as int) == k,
        width_at_column(s, start_column(s, k) - 1) == render_width(s[k - 1]),
        start_column(s, k) - width_at_column(s, start_column(s, k) - 1) == start_column(
            s,
            k - 1,
        ),
{
    lemma_start_column_next(s, k - 1);
    lemma_chars_before_unique(s, start_column(s, k) as int, k);
}

/// Columns that a character occupies, from what the width tables say of it.
pub fn width_from(c: char, looked_up: Option<usize>) -> (w: usize)
    ensures
        w == width_from_lookup(c, looked_up),
        w >= 1,
{
    if c == '\t' {
        1
    } else {
        match looked_up {
            Some(w) => if w > 0 {
                w
            } else {
                1
            },
            None => 1,
        }
    }
}

/// The number of bytes of `c` in UTF-8.
pub fn utf8_len(c: char) -> (n: usize)
    ensures
        n == scalar_len(c),
        1 <= n <= 4,
{
    proof {
        lemma_scalar_len(c);
    }
    let code = c as u32;
    if code < 0x80 {
        1
    } else if code < 0x800 {
        2
    } else if code < 0x10000 {
        3
    } else {
        4
    }
}

/// The width of a character on the terminal.
pub trait ConsoleWidthChar {
    spec fn columns(&self) -> nat;

    fn render_width(&self) -> (w: usize)
        ensures
            w == self.columns(),
    ;
}

impl ConsoleWidthChar for char {
    open spec fn columns(&self) -> nat {
        render_width(*self)
    }

    fn render_width(&self) -> (w: usize) {
        width_from(*self, lookup_width(*self))
    }
}

/// The width of a line on the terminal, held at the largest `usize` where
/// the sum would pass it.
pub trait ConsoleWidthStr {
    spec fn columns(&self) -> nat;

    fn column_width(&self) -> (w: usize)
        ensures
            w == saturated(self.columns()),
    ;
}

impl ConsoleWidthStr for String {
    open spec fn columns(&self) -> nat {
        column_width(self@)
    }

    fn column_width(&self) -> (w: usize) {
        buffer_width(self.as_str())
    }
}

impl ConsoleWidthStr for str {
    open spec fn columns(&self) -> nat {
        column_width(self@)
    }

    fn column_width(&self) -> (w: usize) {
        buffer_width(self)
    }
}

/// The width of the character that occupies column `position` of `buffer`.
pub fn nth_position_width(buffer: &str, position: usize) -> (width: usize)
    ensures
        width == width_at_column(buffer@, position as int),
        width >= 1,
{
    let mut it = buffer.chars();
    let mut start: usize = 0;
    let mut width: usize = 1;
    let ghost mut i: int = 0;
    let ghost s = buffer@;
    loop
        invariant_except_break
            it.remaining() == s.skip(i),
            start == start_column(s, i),
            start <= position,
        invariant
            s == buffer@,
            0 <= i <= s.len(),
            i == 0 ==> width == 1,
            i > 0 ==> width == render_width(s[i - 1]) && start_column(s, i - 1) <= position,
        ensures
            i < s.len() ==> start_column(s, i) > position,
        decreases s.len() - i,
    {
        match it.next() {
            None => {
                break ;
            },
            Some(ch) => {
                proof {
                    lemma_start_column_next(s, i);
                }
                width = ch.render_width();
                proof {
                    i = i + 1;
                }
                match start.checked_add(width) {
                    Some(next) => {
                        if next <= position {
                            start = next;
                        } else {
                            break ;
                        }
                    },
                    None => {
                        break ;
                    },
                }
            },
        }
    }
    proof {
        lemma_chars_before_unique(s, position + 1, i);
    }
    width
}

/// The width of `buffer` in columns, held at the largest `usize` where the
/// sum would pass it.
pub fn buffer_width(buffer: &str) -> (width: usize)
    ensures
        width == saturated(column_width(buffer@)),
{
    let mut width: usize = 0;
    for ch in it: buffer.chars()
        invariant
            it.seq() == buffer@,
            width == saturated(start_column(buffer@, it.index())),
    {
        proof {
            lemma_start_column_next(buffer@, it.index());
        }
        width = width.saturating_add(ch.render_width());
    }
    assert(buffer@.take(buffer@.len() as int) =~= buffer@);
    width
}

/// The byte offset in `buffer` of column `cursor`: where a character typed
/// at that column is inserted.
pub fn char_index(cursor: usize, buffer: &str) -> (index: usize)
    ensures
        index == byte_offset_at_column(buffer@, cursor as int),
        index <= byte_len(buffer@),
        cursor >= column_width(buffer@) ==> index == byte_len(buffer@),
{
    proof {
        if cursor >= column_width(buffer@) {
            lemma_offset_past_line_end(buffer@, cursor as int);
        }
    }
    let total = buffer.as_bytes().len();
    let mut it = buffer.chars();
    let mut start: usize = 0;
    let mut index: usize = 0;
    let ghost mut i: int = 0;
    let ghost s = buffer@;
    loop
        invariant_except_break
            it.remaining() == s.skip(i),
            start == start_column(s, i),
        invariant
            s == buffer@,
            total == byte_len(s),
            0 <= i <= s.len(),
            index == byte_len(s.take(i)),
            i > 0 ==> start_column(s, i - 1) < cursor,
        ensures
            i < s.len() ==> start_column(s, i) >= cursor,
        decreases s.len() - i,
    {
        if start >= cursor {
            break ;
        }
        match it.next() {
            None => {
                break ;
            },
            Some(ch) => {
                proof {
                    lemma_start_column_next(s, i);
                    lemma_byte_len_next(s, i);
                    lemma_byte_len_increases(s, i + 1, s.len() as int);
                    assert(s.take(s.len() as int) =~= s);
                }
                index = index + utf8_len(ch);
                let step = start.checked_add(ch.render_width());
                proof {
                    i = i + 1;
                }
                match step {
                    Some(next) => {
                        start = next;
                    },
                    None => {
                        break ;
                    },
                }
            },
        }
    }
    proof {
        lemma_chars_before_unique(s, cursor as int, i);
        lemma_byte_len_increases(s, i, s.len() as int);
    }
    index
}

/// `n` spaces.
pub open spec fn spaces(n: nat) -> Seq<char> {
    Seq::new(n, |i: int| ' ')
}

/// The first `n` characters of `s`, and all of `s` where it has fewer.
pub open spec fn first(s: Seq<char>, n: int) -> Seq<char> {
    if n <= 0 {
        Seq::empty()
    } else if n < s.len() {
        s.take(n)
    } else {
        s
    }
}

/// The `count` characters of `s` that follow its first `from`, as far as `s`
/// has them.
pub open spec fn window(s: Seq<char>, from: int, count: int) -> Seq<char> {
    first(s.skip(if from < s.len() { from } else { s.len() as int }), count)
}

/// The digit `d` as a character.
pub open spec fn digit(d: nat) -> char {
    if d == 0 {
        '0'
    } else if d == 1 {
        '1'
    } else if d == 2 {
        '2'
    } else if d == 3 {
        '3'
    } else if d == 4 {
        '4'
    } else if d == 5 {
        '5'
    } else if d == 6 {
        '6'
    } else if d == 7 {
        '7'
    } else if d == 8 {
        '8'
    } else {
        '9'
    }
}

/// `n` written in decimal.
pub open spec fn decimal(n: nat) -> Seq<char>
    decreases n,
{
    if n < 10 {
        seq![digit(n)]
    } else {
        decimal(n / 10).push(digit(n % 10))
    }
}

/// The first `n` characters of `text`.
pub fn first_chars(text: &str, n: usize) -> (head: &str)
    ensures
        head@ == first(text@, n as int),
{
    let len = text.unicode_len();
    if n < len {
        let head = text.substring_char(0, n);
        head
    } else {
        text
    }
}

/// The `count` characters of `text` from the one of index `from` on.
pub fn slice_chars(text: &str, from: usize, count: usize) -> (part: &str)
    ensures
        part@ == window(text@, from as int, count as int),
{
    let len = text.unicode_len();
    let start = if from < len {
        from
    } else {
        len
    };
    let end = if count < len - start {
        start + count
    } else {
        len
    };
    let part = text.substring_char(start, end);
    part
}

/// Appends `n` spaces to `text`.
pub fn push_spaces(text: &mut String, n: usize)
    ensures
        final(text)@ == old(text)@ + spaces(n as nat),
{
    let mut done: usize = 0;
    while done < n
        invariant
            done <= n,
            text@ == old(text)@ + spaces(done as nat),
        decreases n - done,
    {
        text.push(' ');
        done = done + 1;
    }
}

/// The digit `d` as a character.
fn digit_char(d: usize) -> (ch: char)
    requires
        d < 10,
    ensures
        ch == digit(d as nat),
{
    if d == 0 {
        '0'
    } else if d == 1 {
        '1'
    } else if d == 2 {
        '2'
    } else if d == 3 {
        '3'
    } else if d == 4 {
        '4'
    } else if d == 5 {
        '5'
    } else if d == 6 {
        '6'
    } else if d == 7 {
        '7'
    } else if d == 8 {
        '8'
    } else {
        '9'
    }
}

/// Appends `n`, written in decimal, to `text`.
pub fn push_decimal(text: &mut String, n: usize)
    ensures
        final(text)@ == old(text)@ + decimal(n as nat),
    decreases n,
{
    if n >= 10 {
        push_decimal(text, n / 10);
    }
    let ch = digit_char(n % 10);
    text.push(ch);
}

} // verus!
