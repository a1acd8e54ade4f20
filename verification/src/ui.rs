//! What is drawn of a state.
//!
//! The last row of the terminal shows the path of the directory on view.
//! The rows above it show a window of the listing, the first entry of the
//! window in the lowest row and the next ones above it. The window begins
//! at the first entry and moves on only as far as it must to hold the
//! selection. The lines that were drawn are kept, and a line is drawn again
//! only where it differs from the one kept.
//!
//! Each kind of entry has a style of its own: a directory is set in bold
//! light cyan, an entry of unknown kind in italics, a file plainly. The
//! selected entry has its colours swapped.

use crate::dir_object::DirObject;
use crate::navigation::{Dir, DirView, State};
use crate::order::{Entry, Kind};
use crate::term::{
    bold, bold_text, clear_after_cursor, clear_after_cursor_text, clear_until_newline,
    clear_until_newline_text, goto, goto_text, invert, invert_text, italic, italic_text, left,
    left_text, light_cyan, light_cyan_text, magenta, magenta_text, reset, reset_text, up, up_text,
};
use vstd::prelude::*;
use vstd::string::StringExecFns;
use vstd::utf8::encode_utf8;

verus! {

/// The index of the first entry in a window of `visible_rows` rows that
/// holds the selection.
pub open spec fn window_offset(content_selection: nat, visible_rows: nat) -> nat {
    vstd::math::max(0, content_selection - visible_rows + 1) as nat
}

/// What is written in front of the name of an entry: a directory is set
/// in bold light cyan, an entry of unknown kind in italics, and a file
/// plainly.
pub open spec fn style_text(kind: Kind) -> Seq<char> {
    match kind {
        Kind::Dir => light_cyan_text() + bold_text(),
        Kind::File => Seq::empty(),
        Kind::Unknown => italic_text(),
    }
}

/// The line of an entry: its name in the style of its kind.
pub open spec fn entry_text(entry: Entry) -> Seq<char> {
    style_text(entry.kind) + entry.name + reset_text()
}

/// A line with its colours swapped.
pub open spec fn highlighted(line: Seq<char>) -> Seq<char> {
    invert_text() + line
}

/// The line in row `row` of a window of `visible_rows` rows, the rows
/// counted from 0: the entry that the row shows, highlighted where it is
/// the selected one, or an empty line where the listing has ended.
pub open spec fn window_line(dir: DirView, visible_rows: nat, row: int) -> Seq<char> {
    let index = window_offset(dir.content_selection, visible_rows) + row;
    if index < dir.contents.len() {
        if index == dir.content_selection {
            highlighted(entry_text(dir.contents[index]))
        } else {
            entry_text(dir.contents[index])
        }
    } else {
        clear_until_newline_text()
    }
}

/// The lines of a window of `visible_rows` rows.
pub open spec fn window_lines(dir: DirView, visible_rows: nat) -> Seq<Seq<char>> {
    Seq::new(visible_rows, |row: int| window_line(dir, visible_rows, row))
}

/// The plain values of the lines that are kept.
pub open spec fn lines_view(lines: Seq<String>) -> Seq<Seq<char>> {
    lines.map_values(|line: String| line@)
}

/// The row that shows the path, below a window of `visible_rows` rows.
pub open spec fn path_row_text(path: Seq<char>, visible_rows: u16) -> Seq<char> {
    goto_text(1, (visible_rows + 1) as u16) + magenta_text() + "\u{25ba} "@ + path + reset_text()
}

/// The number of bytes that a line takes in UTF-8.
pub open spec fn byte_len(line: Seq<char>) -> usize {
    encode_utf8(line).len() as usize
}

/// What is written for one row: the line, where the row is drawn; the
/// cursor one row up in any case; and, where the row is drawn, the cursor
/// back left by as many columns as the line has bytes, of which number the
/// low 16 bits count.
pub open spec fn row_text(line: Seq<char>, drawn: bool) -> Seq<char> {
    if drawn {
        line + up_text(1) + left_text(byte_len(line) as u16)
    } else {
        up_text(1)
    }
}

/// Whether row `row` is drawn: always where all rows are, else where its
/// line differs from the one kept.
pub open spec fn row_drawn(
    kept: Seq<Seq<char>>,
    lines: Seq<Seq<char>>,
    redraw: bool,
    row: int,
) -> bool {
    redraw || row >= kept.len() || kept[row] != lines[row]
}

/// What is written for the first `n` rows.
pub open spec fn rows_text(
    kept: Seq<Seq<char>>,
    lines: Seq<Seq<char>>,
    redraw: bool,
    n: nat,
) -> Seq<char>
    decreases n,
{
    if n == 0 {
        Seq::empty()
    } else {
        rows_text(kept, lines, redraw, (n - 1) as nat) + row_text(
            lines[n - 1],
            row_drawn(kept, lines, redraw, n - 1),
        )
    }
}

/// What is written for a directory in a window of `visible_rows` rows: the
/// row of the path, then the cursor to the lowest row of the window, then
/// the rows from the lowest up.
pub open spec fn contents_text(
    kept: Seq<Seq<char>>,
    dir: DirView,
    visible_rows: u16,
    redraw: bool,
) -> Seq<char> {
    path_row_text(dir.path, visible_rows) + goto_text(1, visible_rows) + rows_text(
        kept,
        window_lines(dir, visible_rows as nat),
        redraw,
        visible_rows as nat,
    )
}

/// What is written for a state on a terminal of `terminal_height` rows,
/// where `kept` holds the lines that were drawn last. With `clear_screen`
/// the screen is cleared first. All rows are drawn where the screen is
/// cleared or the window has another height than before.
pub open spec fn frame_text(
    kept: Seq<Seq<char>>,
    dir: DirView,
    terminal_height: u16,
    clear_screen: bool,
) -> Seq<char> {
    let visible_rows = (terminal_height - 1) as u16;
    let cleared = if clear_screen {
        clear_after_cursor_text()
    } else {
        Seq::empty()
    };
    cleared + contents_text(kept, dir, visible_rows, clear_screen || kept.len() != visible_rows)
}

/// Each kind has a style of its own: two entries of one name and of
/// different kinds have different lines.
pub proof fn lemma_kinds_styled_apart(a: Entry, b: Entry)
    requires
        a.name == b.name,
        a.kind != b.kind,
    ensures
        entry_text(a) != entry_text(b),
        style_text(a.kind) != style_text(b.kind),
{
    reveal_strlit("\x1b[38;5;14m");
    reveal_strlit("\x1b[1m");
    reveal_strlit("\x1b[3m");
    assert(style_text(Kind::Dir).len() == 14);
    assert(style_text(Kind::File).len() == 0);
    assert(style_text(Kind::Unknown).len() == 4);
    assert(entry_text(a).len() == style_text(a.kind).len() + a.name.len() + reset_text().len());
    assert(entry_text(b).len() == style_text(b.kind).len() + b.name.len() + reset_text().len());
}

/// The entry that row `row` of a window shows without highlight, if any:
/// none where the listing has ended or the row shows the selected entry.
pub open spec fn plain_row(dir: DirView, visible_rows: nat, row: int) -> Option<Entry> {
    let index = window_offset(dir.content_selection, visible_rows) + row;
    if 0 <= row < visible_rows && index < dir.contents.len() && index != dir.content_selection {
        Some(dir.contents[index])
    } else {
        None
    }
}

/// Rows that show entries of one name and of different kinds, without
/// highlight, hold different lines.
pub open spec fn kinds_apart(dir: DirView, visible_rows: nat, lines: Seq<Seq<char>>) -> bool {
    forall|i: int, j: int|
        #![trigger lines[i], lines[j]]
        plain_row(dir, visible_rows, i) is Some && plain_row(dir, visible_rows, j) is Some
            && plain_row(dir, visible_rows, i)->0.name == plain_row(dir, visible_rows, j)->0.name
            && plain_row(dir, visible_rows, i)->0.kind != plain_row(dir, visible_rows, j)->0.kind
            ==> lines[i] != lines[j]
}

/// The lines of a window tell the kinds apart.
pub proof fn lemma_rows_of_kinds_differ(dir: DirView, visible_rows: nat)
    ensures
        kinds_apart(dir, visible_rows, window_lines(dir, visible_rows)),
{
    let lines = window_lines(dir, visible_rows);
    assert forall|i: int, j: int|
        plain_row(dir, visible_rows, i) is Some && plain_row(dir, visible_rows, j) is Some
            && plain_row(dir, visible_rows, i)->0.name == plain_row(dir, visible_rows, j)->0.name
            && plain_row(dir, visible_rows, i)->0.kind != plain_row(
            dir,
            visible_rows,
            j,
        )->0.kind implies #[trigger] lines[i] != #[trigger] lines[j] by {
        lemma_kinds_styled_apart(
            plain_row(dir, visible_rows, i)->0,
            plain_row(dir, visible_rows, j)->0,
        );
    }
}

/// The line of an entry holds its name, between the style of its kind and
/// the sequence that sets the style back.
pub proof fn lemma_line_holds_name(entry: Entry)
    ensures
        entry_text(entry).subrange(
            style_text(entry.kind).len() as int,
            (style_text(entry.kind).len() + entry.name.len()) as int,
        ) == entry.name,
        entry_text(entry).len() == style_text(entry.kind).len() + entry.name.len()
            + reset_text().len(),
{
    let style = style_text(entry.kind);
    assert(entry_text(entry).subrange(
        style.len() as int,
        (style.len() + entry.name.len()) as int,
    ) =~= entry.name);
}

/// A window of at least one row holds the selection, and begins at the
/// first entry as long as the selection is within the first rows. The row
/// of the selected entry shows it highlighted, and no other row is
/// highlighted.
pub proof fn lemma_selection_in_window(dir: DirView, visible_rows: nat, row: int)
    requires
        visible_rows >= 1,
        0 <= row < visible_rows,
    ensures
        window_offset(dir.content_selection, visible_rows) <= dir.content_selection
            < window_offset(dir.content_selection, visible_rows) + visible_rows,
        dir.content_selection < visible_rows ==> window_offset(
            dir.content_selection,
            visible_rows,
        ) == 0,
        dir.content_selection >= visible_rows ==> window_offset(
            dir.content_selection,
            visible_rows,
        ) + visible_rows - 1 == dir.content_selection,
        window_offset(dir.content_selection, visible_rows) + row == dir.content_selection
            && dir.content_selection < dir.contents.len() ==> window_line(dir, visible_rows, row)
            == highlighted(entry_text(dir.contents[dir.content_selection as int])),
        window_offset(dir.content_selection, visible_rows) + row != dir.content_selection
            && window_offset(dir.content_selection, visible_rows) + row < dir.contents.len()
            ==> window_line(dir, visible_rows, row) == entry_text(
            dir.contents[window_offset(dir.content_selection, visible_rows) + row],
        ),
{
}

/// The index of the first entry that a window of `visible_rows` rows shows.
pub fn index_offset(content_selection: usize, visible_rows: usize) -> (r: usize)
    requires
        content_selection - visible_rows + 1 <= usize::MAX,
    ensures
        r == window_offset(content_selection as nat, visible_rows as nat),
{
    if content_selection >= visible_rows {
        content_selection - visible_rows + 1
    } else {
        0
    }
}

/// The line of an entry.
fn entry_line(object: &DirObject) -> (line: String)
    ensures
        line@ == entry_text(object@),
{
    match object {
        DirObject::Dir { name, .. } => {
            let mut line = light_cyan();
            line.append(bold().as_str());
            line.append(name.as_str());
            line.append(reset().as_str());
            line
        },
        DirObject::File { name, .. } => {
            let mut line = name.clone();
            line.append(reset().as_str());
            line
        },
        DirObject::Unknown { name, .. } => {
            let mut line = italic();
            line.append(name.as_str());
            line.append(reset().as_str());
            line
        },
    }
}

/// The line with its colours swapped.
pub fn highlight_line(line: &str) -> (r: String)
    ensures
        r@ == highlighted(line@),
{
    let mut r = invert();
    r.append(line);
    r
}

/// The lines of the window.
fn draw_lines(dir: &Dir, visible_rows: u16) -> (lines: Vec<String>)
    ensures
        lines@.len() == visible_rows,
        lines_view(lines@) == window_lines(dir@, visible_rows as nat),
        forall|row: int|
            0 <= row < visible_rows ==> (#[trigger] lines@[row])@ == window_line(
                dir@,
                visible_rows as nat,
                row,
            ),
{
    let mut lines: Vec<String> = Vec::new();
    if visible_rows == 0 {
        return lines;
    }
    let index_offset = index_offset(dir.content_selection, visible_rows as usize);
    let mut row: u16 = 0;
    while row < visible_rows
        invariant
            row <= visible_rows,
            lines@.len() == row,
            index_offset == window_offset(dir@.content_selection, visible_rows as nat),
            forall|i: int|
                0 <= i < row ==> (#[trigger] lines@[i])@ == window_line(
                    dir@,
                    visible_rows as nat,
                    i,
                ),
        decreases visible_rows - row,
    {
        let index = index_offset + row as usize;
        let line = if index < dir.contents.len() {
            let line = entry_line(&dir.contents[index]);
            if index == dir.content_selection {
                highlight_line(line.as_str())
            } else {
                line
            }
        } else {
            clear_until_newline()
        };
        lines.push(line);
        row = row + 1;
    }
    lines
}

/// Draws the directory in a window of `visible_rows` rows, and keeps the
/// lines of the window in place of those kept before. With `redraw` every
/// row is written, else only the rows whose line has changed.
pub fn print_dir_contents(
    terminal_line_buffers: &mut Vec<String>,
    dir: &Dir,
    visible_rows: u16,
    redraw: bool,
) -> (text: String)
    requires
        visible_rows < u16::MAX,
    ensures
        lines_view(final(terminal_line_buffers)@) == window_lines(dir@, visible_rows as nat),
        final(terminal_line_buffers)@.len() == visible_rows,
        forall|row: int|
            0 <= row < visible_rows ==> (#[trigger] final(terminal_line_buffers)@[row])@
                == window_line(dir@, visible_rows as nat, row),
        kinds_apart(dir@, visible_rows as nat, lines_view(final(terminal_line_buffers)@)),
        text@ == contents_text(
            lines_view(old(terminal_line_buffers)@),
            dir@,
            visible_rows,
            redraw,
        ),
{
    let lines = draw_lines(dir, visible_rows);
    proof {
        lemma_rows_of_kinds_differ(dir@, visible_rows as nat);
    }
    let ghost kept = lines_view(terminal_line_buffers@);
    let ghost wanted = window_lines(dir@, visible_rows as nat);

    let mut text = goto(1, visible_rows + 1);
    text.append(magenta().as_str());
    text.append("\u{25ba} ");
    text.append(dir.path.as_str());
    text.append(reset().as_str());
    text.append(goto(1, visible_rows).as_str());

    let ghost head = text@;
    let mut row: usize = 0;
    while row < lines.len()
        invariant
            row <= lines@.len(),
            lines@.len() == visible_rows,
            lines_view(lines@) == wanted,
            kept == lines_view(terminal_line_buffers@),
            text@ == head + rows_text(kept, wanted, redraw, row as nat),
        decreases lines@.len() - row,
    {
        let drawn = redraw || row >= terminal_line_buffers.len() || !(terminal_line_buffers[row]
            == lines[row]);
        if drawn {
            text.append(lines[row].as_str());
        }
        text.append(up(1).as_str());
        if drawn {
            text.append(left(#[verifier::truncate] (lines[row].as_str().len() as u16)).as_str());
        }
        row = row + 1;
    }
    *terminal_line_buffers = lines;
    text
}

/// Draws the state on a terminal of `terminal_height` rows: gives what is
/// to be written to the screen, and keeps the lines of the window in
/// `terminal_line_buffers`.
pub fn render(
    state: &State,
    terminal_height: u16,
    terminal_line_buffers: &mut Vec<String>,
    clear_screen: bool,
) -> (frame: String)
    requires
        terminal_height >= 1,
    ensures
        lines_view(final(terminal_line_buffers)@) == window_lines(
            state@.dir,
            (terminal_height - 1) as nat,
        ),
        final(terminal_line_buffers)@.len() == terminal_height - 1,
        forall|row: int|
            0 <= row < terminal_height - 1 ==> (#[trigger] final(terminal_line_buffers)@[row])@
                == window_line(state@.dir, (terminal_height - 1) as nat, row),
        kinds_apart(
            state@.dir,
            (terminal_height - 1) as nat,
            lines_view(final(terminal_line_buffers)@),
        ),
        frame@ == frame_text(
            lines_view(old(terminal_line_buffers)@),
            state@.dir,
            terminal_height,
            clear_screen,
        ),
{
    let visible_rows: u16 = terminal_height - 1;
    let redraw = clear_screen || terminal_line_buffers.len() != visible_rows as usize;
    let mut frame = String::new();
    if clear_screen {
        frame.append(clear_after_cursor().as_str());
    }
    let text = print_dir_contents(terminal_line_buffers, &state.dir, visible_rows, redraw);
    frame.append(text.as_str());
    frame
}

} // verus!
