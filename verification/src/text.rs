//! Text layout: fixed-width columns, decimal numbers, indented lines.

use vstd::prelude::*;
use vstd::string::*;

verus! {

/// `n` spaces.
pub open spec fn spaces(n: nat) -> Seq<char> {
    Seq::new(n, |i: int| ' ')
}

/// `text`, followed by the spaces it lacks to fill a column of `width`
/// characters. A text that fills the column or overflows it stays as it is.
pub open spec fn padded(text: Seq<char>, width: nat) -> Seq<char> {
    if text.len() >= width {
        text
    } else {
        text + spaces((width - text.len()) as nat)
    }
}

/// Left-aligns `text` in a column of `width` characters.
pub fn pad(text: &str, width: usize) -> (out: String)
    ensures
        out@ == padded(text@, width as nat),
{
    let mut out = String::from_str(text);
    let len: usize = text.unicode_len();
    if len >= width {
        return out;
    }
    let mut n: usize = len;
    while n < width
        invariant
            len == text@.len(),
            len <= n <= width,
            out@ == text@ + spaces((n - len) as nat),
        decreases width - n,
    {
        proof {
            reveal_strlit(" ");
            assert(spaces((n + 1 - len) as nat) =~= spaces((n - len) as nat) + seq![' ']);
        }
        out.append(" ");
        n += 1;
    }
    out
}

/// A label in a column of `width` characters, and the value behind it.
pub open spec fn labelled(label: Seq<char>, width: nat, value: Seq<char>) -> Seq<char> {
    padded(label, width) + value
}

/// Writes a label in a column of `width` characters, and the value behind it.
pub fn label(name: &str, width: usize, value: &str) -> (out: String)
    ensures
        out@ == labelled(name@, width as nat, value@),
{
    let mut out = pad(name, width);
    out.append(value);
    out
}

/// Whether `text` ends with `tail`.
pub open spec fn ends_with(text: Seq<char>, tail: Seq<char>) -> bool {
    text.len() >= tail.len() && text.subrange(text.len() - tail.len(), text.len() as int) == tail
}

/// The character of one decimal digit.
pub open spec fn digit(d: nat) -> char {
    if d == 0 {
        '0'
    } else if d == 1 {
        '1'
    } else if d == 2 {
        '2'
    } else if d == 3 {
        '3'
    } else if d == 4 {
        '4'
    } else if d == 5 {
        '5'
    } else if d == 6 {
        '6'
    } else if d == 7 {
        '7'
    } else if d == 8 {
        '8'
    } else {
        '9'
    }
}

/// A number in decimal, without sign or leading zeros.
pub open spec fn decimal(n: nat) -> Seq<char>
    decreases n,
{
    if n < 10 {
        seq![digit(n)]
    } else {
        decimal(n / 10).push(digit(n % 10))
    }
}

fn digit_text(d: u64) -> (out: &'static str)
    requires
        d < 10,
    ensures
        out@ == seq![digit(d as nat)],
{
    proof {
        reveal_strlit("0");
        reveal_strlit("1");
        reveal_strlit("2");
        reveal_strlit("3");
        reveal_strlit("4");
        reveal_strlit("5");
        reveal_strlit("6");
        reveal_strlit("7");
        reveal_strlit("8");
        reveal_strlit("9");
    }
    let out = if d == 0 {
        "0"
    } else if d == 1 {
        "1"
    } else if d == 2 {
        "2"
    } else if d == 3 {
        "3"
    } else if d == 4 {
        "4"
    } else if d == 5 {
        "5"
    } else if d == 6 {
        "6"
    } else if d == 7 {
        "7"
    } else if d == 8 {
        "8"
    } else {
        "9"
    };
    assert(out@ =~= seq![digit(d as nat)]);
    out
}

/// Writes a count in decimal.
pub fn decimal_text(n: u64) -> (out: String)
    ensures
        out@ == decimal(n as nat),
    decreases n,
{
    if n < 10 {
        String::from_str(digit_text(n))
    } else {
        let mut out = decimal_text(n / 10);
        out.append(digit_text(n % 10));
        assert(out@ =~= decimal((n / 10) as nat).push(digit((n % 10) as nat)));
        out
    }
}

/// Where the line that starts at `from` ends: the place of the next line
/// feed, or the end of the text.
pub open spec fn line_end(text: Seq<char>, from: int) -> int
    decreases text.len() - from,
{
    if from < 0 || from >= text.len() {
        text.len() as int
    } else if text[from] == '\n' {
        from
    } else {
        line_end(text, from + 1)
    }
}

/// The line that starts at `from`, without its ending: the line feed, and a
/// carriage return that stands before the line feed.
pub open spec fn line_at(text: Seq<char>, from: int) -> Seq<char> {
    let end = line_end(text, from);
    if end < text.len() && from < end && text[end - 1] == '\r' {
        text.subrange(from, end - 1)
    } else {
        text.subrange(from, end)
    }
}

/// One line of an indented block: a line feed, then two spaces and the line.
/// An empty line leaves only the line feed.
pub open spec fn indented_line(line: Seq<char>) -> Seq<char> {
    if line.len() == 0 {
        seq!['\n']
    } else {
        seq!['\n', ' ', ' '] + line
    }
}

/// The lines of `text` from `from` on, each one indented. A line feed at the
/// very end of the text opens no further line.
pub open spec fn indented(text: Seq<char>, from: int) -> Seq<char>
    decreases text.len() + 1 - from,
{
    if from < 0 || from >= text.len() {
        Seq::empty()
    } else {
        proof {
            lemma_line_end_bounds(text, from);
        }
        indented_line(line_at(text, from)) + indented(text, line_end(text, from) + 1)
    }
}

/// A line ends at or after its start, at a line feed or at the end of the text,
/// with no line feed before that.
pub proof fn lemma_line_end_bounds(text: Seq<char>, from: int)
    requires
        0 <= from <= text.len(),
    ensures
        from <= line_end(text, from) <= text.len(),
        line_end(text, from) < text.len() ==> text[line_end(text, from)] == '\n',
        forall|i: int| from <= i < line_end(text, from) ==> text[i] != '\n',
    decreases text.len() - from,
{
    if from < text.len() && text[from] != '\n' {
        lemma_line_end_bounds(text, from + 1);
    }
}

/// Puts every line of `text` on a line of its own, indented by two spaces.
pub fn indent_lines(text: &str) -> (out: String)
    ensures
        out@ == indented(text@, 0),
{
    let len: usize = text.unicode_len();
    let mut out = String::new();
    let mut start: usize = 0;
    while start < len
        invariant
            len == text@.len(),
            start <= len,
            out@ + indented(text@, start as int) == indented(text@, 0),
        decreases len - start,
    {
        let mut end: usize = start;
        while end < len && text.get_char(end) != '\n'
            invariant
                len == text@.len(),
                start <= end <= len,
                line_end(text@, start as int) == line_end(text@, end as int),
            decreases len - end,
        {
            end += 1;
        }
        proof {
            lemma_line_end_bounds(text@, start as int);
        }
        assert(end as int == line_end(text@, start as int));
        let mut stop: usize = end;
        if end < len && start < end {
            if text.get_char(end - 1) == '\r' {
                stop = end - 1;
            }
        }
        assert(text@.subrange(start as int, stop as int) == line_at(text@, start as int));
        let ghost before = out@;
        proof {
            reveal_strlit("\n");
            reveal_strlit("  ");
        }
        out.append("\n");
        if start < stop {
            out.append("  ");
            out.append(text.substring_char(start, stop));
        }
        assert(out@ =~= before + indented_line(line_at(text@, start as int)));
        assert(out@ + indented(text@, end as int + 1) =~= before + indented(text@, start as int));
        if end < len {
            start = end + 1;
        } else {
            start = len;
        }
    }
    assert(out@ + Seq::<char>::empty() =~= out@);
    out
}

/// The form in which the standard library's `Debug` shows a string: between
/// double quotes, with its quotes, backslashes and unprintable characters
/// escaped.
pub uninterp spec fn debug_form(text: Seq<char>) -> Seq<char>;

/// Calls the standard library's `Debug` formatting of `str`. The result is a
/// function of the text alone.
#[verifier::external_body]
fn debug_text(text: &str) -> (out: String)
    ensures
        out@ == debug_form(text@),
{
    format!("{:?}", text)
}

/// The items of a list in their `Debug` form, with a comma and a space
/// between neighbours.
pub open spec fn debug_items(items: Seq<Seq<char>>) -> Seq<char>
    decreases items.len(),
{
    if items.len() == 0 {
        Seq::empty()
    } else if items.len() == 1 {
        debug_form(items[0])
    } else {
        debug_items(items.drop_last()) + seq![',', ' '] + debug_form(items.last())
    }
}

/// A list of strings as `Debug` shows it: the items between square brackets.
pub open spec fn debug_list(items: Seq<Seq<char>>) -> Seq<char> {
    seq!['['] + debug_items(items) + seq![']']
}

/// The texts that a vector of strings holds.
pub open spec fn texts(items: Seq<String>) -> Seq<Seq<char>> {
    Seq::new(items.len(), |i: int| items[i]@)
}

/// Writes a list of strings as `Debug` shows it.
pub fn debug_list_text(items: &Vec<String>) -> (out: String)
    ensures
        out@ == debug_list(texts(items@)),
{
    proof {
        reveal_strlit("[");
        reveal_strlit("]");
    }
    let mut out = String::from_str("[");
    let mut i: usize = 0;
    while i < items.len()
        invariant
            i <= items.len(),
            out@ == seq!['['] + debug_items(texts(items@).take(i as int)),
        decreases items.len() - i,
    {
        let ghost done = texts(items@).take(i as int);
        let ghost next = texts(items@).take(i as int + 1);
        proof {
            reveal_strlit(", ");
        }
        assert(next.drop_last() =~= done);
        assert(next.last() == items@[i as int]@);
        if i > 0 {
            out.append(", ");
        }
        let item = debug_text(items[i].as_str());
        out.append(item.as_str());
        assert(out@ =~= seq!['['] + debug_items(next));
        i += 1;
    }
    assert(texts(items@).take(i as int) =~= texts(items@));
    out.append("]");
    out
}

} // verus!
