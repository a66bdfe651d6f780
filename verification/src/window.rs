//! Blocks of text lines: padding them to one width, framing them, laying one
//! block over another, and putting them together for the screen.
//!
//! The width of a line is counted in extended grapheme clusters; filling up
//! a line is counted in characters.

use crate::stateful_list::join_lines;
use crate::stateful_list::joined;
use crate::stateful_list::line_feed;
use crate::text::filled_right;
use crate::text::push_filled_right;
use crate::text::push_run;
use crate::text::run_of;
use unicode_segmentation::UnicodeSegmentation;
use vstd::prelude::*;
use vstd::string::StringExecFns;

verus! {

/// The extended grapheme clusters of a text, in order, as Unicode Standard
/// Annex #29 draws their boundaries.
pub uninterp spec fn extended_graphemes(text: Seq<char>) -> Seq<Seq<char>>;

/// `UnicodeSegmentation::graphemes` of the crate unicode-segmentation, asked
/// for extended clusters: the clusters of the text, each as a text of its
/// own, in the order in which they stand in it.
#[verifier::external_body]
fn graphemes(text: &str) -> (clusters: Vec<String>)
    ensures
        clusters.deep_view() == extended_graphemes(text@),
{
    let mut clusters: Vec<String> = Vec::new();
    for cluster in UnicodeSegmentation::graphemes(text, true) {
        clusters.push(String::from(cluster));
    }
    clusters
}

/// The lines that frame a block.
pub enum BorderStyle {
    NoBorder,
    Solid,
    Bold,
    Ascii,
}

/// The characters of a frame.
pub struct Frame {
    pub top_left: char,
    pub top_right: char,
    pub horizontal: char,
    pub vertical: char,
    pub bottom_left: char,
    pub bottom_right: char,
}

/// The characters that a style draws its frame with. `NoBorder` has none;
/// blanks stand for them.
pub open spec fn frame_of(style: BorderStyle) -> Frame {
    match style {
        BorderStyle::Bold => Frame {
            top_left: '┏',
            top_right: '┓',
            horizontal: '━',
            vertical: '┃',
            bottom_left: '┗',
            bottom_right: '┛',
        },
        BorderStyle::Solid => Frame {
            top_left: '┌',
            top_right: '┐',
            horizontal: '─',
            vertical: '│',
            bottom_left: '└',
            bottom_right: '┘',
        },
        BorderStyle::Ascii => Frame {
            top_left: '+',
            top_right: '+',
            horizontal: '-',
            vertical: '|',
            bottom_left: '+',
            bottom_right: '+',
        },
        BorderStyle::NoBorder => Frame {
            top_left: ' ',
            top_right: ' ',
            horizontal: ' ',
            vertical: ' ',
            bottom_left: ' ',
            bottom_right: ' ',
        },
    }
}

/// The width of a line: the number of its extended grapheme clusters.
pub open spec fn width_of(line: Seq<char>) -> nat {
    extended_graphemes(line).len()
}

/// The width of the widest line of a block, zero for an empty block.
pub open spec fn widest(lines: Seq<Seq<char>>) -> nat
    decreases lines.len(),
{
    if lines.len() == 0 {
        0
    } else {
        let rest = widest(lines.drop_last());
        if width_of(lines.last()) >= rest {
            width_of(lines.last())
        } else {
            rest
        }
    }
}

/// Some texts put together, one behind the other.
pub open spec fn glued(parts: Seq<Seq<char>>) -> Seq<char>
    decreases parts.len(),
{
    if parts.len() == 0 {
        Seq::empty()
    } else {
        glued(parts.drop_last()) + parts.last()
    }
}

/// The top or bottom line of a frame around a block of a given width.
pub open spec fn edge_row(left: char, fill: char, right: char, width: nat) -> Seq<char> {
    seq![' ', left] + run_of(fill, width as int) + seq![right, ' ']
}

/// A line of a block between the sides of its frame.
pub open spec fn framed_row(side: char, line: Seq<char>) -> Seq<char> {
    seq![' ', side] + line + seq![side, ' ']
}

/// A block in its frame: a top line, the lines of the block between the
/// sides, a bottom line. Top and bottom are as wide as the widest line.
pub open spec fn bordered(lines: Seq<Seq<char>>, style: BorderStyle) -> Seq<Seq<char>> {
    let frame = frame_of(style);
    Seq::new(
        lines.len() + 2,
        |i: int|
            if i == 0 {
                edge_row(frame.top_left, frame.horizontal, frame.top_right, widest(lines))
            } else if i <= lines.len() {
                framed_row(frame.vertical, lines[i - 1])
            } else {
                edge_row(frame.bottom_left, frame.horizontal, frame.bottom_right, widest(lines))
            },
    )
}

/// A line filled up with blanks to a width, between `padding` blanks on
/// either side.
pub open spec fn padded_row(line: Seq<char>, width: nat, padding: usize) -> Seq<char> {
    run_of(' ', padding as int) + filled_right(line, width as int, ' ') + run_of(
        ' ',
        padding as int,
    )
}

/// A block with every line filled up to the width of the widest one, between
/// `padding` blanks on either side.
pub open spec fn padded(lines: Seq<Seq<char>>, padding: usize) -> Seq<Seq<char>> {
    Seq::new(lines.len(), |i: int| padded_row(lines[i], widest(lines), padding))
}

/// A line of the lower block with a line of the upper block laid over it
/// from cluster `x` on: the clusters before `x`, the upper line, and what is
/// left of the lower line behind as many clusters as the upper line has.
pub open spec fn overlaid_row(under: Seq<char>, over: Seq<char>, x: int) -> Seq<char> {
    let clusters = extended_graphemes(under);
    if x + width_of(over) < clusters.len() {
        glued(clusters.subrange(0, x)) + over + glued(
            clusters.subrange(x + width_of(over), clusters.len() as int),
        )
    } else {
        glued(clusters.subrange(0, x)) + over
    }
}

/// A line of the upper block below the end of the lower one: moved right by
/// `x` blanks and filled up with blanks to the width of the lower block.
pub open spec fn floating_row(over: Seq<char>, x: int, width: nat) -> Seq<char> {
    run_of(' ', x) + over + run_of(' ', width - x - width_of(over))
}

/// Whether a block can be laid over another at column `x` and row `y`: the
/// row is not below the end of the lower block, and every line that is
/// covered has at least `x` clusters.
pub open spec fn popup_fits(base: Seq<Seq<char>>, lines: Seq<Seq<char>>, x: int, y: int) -> bool {
    &&& 0 <= y <= base.len()
    &&& forall|j: int| 0 <= j < lines.len() && y + j < base.len() ==> x <= width_of(#[trigger] base[y + j])
}

/// One block laid over another at column `x` and row `y`.
pub open spec fn popped_up(base: Seq<Seq<char>>, lines: Seq<Seq<char>>, x: int, y: int) -> Seq<
    Seq<char>,
> {
    Seq::new(
        if y + lines.len() > base.len() {
            (y + lines.len()) as nat
        } else {
            base.len()
        },
        |i: int|
            if i < y || i >= y + lines.len() {
                base[i]
            } else if i < base.len() {
                overlaid_row(base[i], lines[i - y], x)
            } else {
                floating_row(lines[i - y], x, widest(base))
            },
    )
}

/// The characters that a style draws its frame with.
fn frame(style: &BorderStyle) -> (frame: Frame)
    ensures
        frame == frame_of(*style),
{
    match style {
        BorderStyle::Bold => Frame {
            top_left: '┏',
            top_right: '┓',
            horizontal: '━',
            vertical: '┃',
            bottom_left: '┗',
            bottom_right: '┛',
        },
        BorderStyle::Solid => Frame {
            top_left: '┌',
            top_right: '┐',
            horizontal: '─',
            vertical: '│',
            bottom_left: '└',
            bottom_right: '┘',
        },
        BorderStyle::Ascii => Frame {
            top_left: '+',
            top_right: '+',
            horizontal: '-',
            vertical: '|',
            bottom_left: '+',
            bottom_right: '+',
        },
        BorderStyle::NoBorder => Frame {
            top_left: ' ',
            top_right: ' ',
            horizontal: ' ',
            vertical: ' ',
            bottom_left: ' ',
            bottom_right: ' ',
        },
    }
}

/// The width of a line.
pub fn line_width(line: &str) -> (width: usize)
    ensures
        width == width_of(line@),
{
    graphemes(line).len()
}

/// The width of the widest line of a block.
pub fn block_width(lines: &Vec<String>) -> (width: usize)
    ensures
        width == widest(lines.deep_view()),
{
    let mut width: usize = 0;
    let mut idx: usize = 0;
    while idx < lines.len()
        invariant
            idx <= lines.len(),
            width == widest(lines.deep_view().take(idx as int)),
        decreases lines.len() - idx,
    {
        let here = line_width(lines[idx].as_str());
        proof {
            let seen = lines.deep_view().take(idx + 1);
            assert(seen.drop_last() =~= lines.deep_view().take(idx as int));
            assert(seen.last() == lines[idx as int]@);
        }
        if here >= width {
            width = here;
        }
        idx += 1;
    }
    assert(lines.deep_view().take(lines.len() as int) =~= lines.deep_view());
    width
}

/// Puts the clusters from `from` up to `to` together.
fn glue(clusters: &Vec<String>, from: usize, to: usize) -> (text: String)
    requires
        from <= to <= clusters.len(),
    ensures
        text@ == glued(clusters.deep_view().subrange(from as int, to as int)),
{
    let mut text = String::new();
    let mut idx: usize = from;
    assert(clusters.deep_view().subrange(from as int, from as int) =~= Seq::<Seq<char>>::empty());
    while idx < to
        invariant
            from <= idx <= to <= clusters.len(),
            text@ == glued(clusters.deep_view().subrange(from as int, idx as int)),
        decreases to - idx,
    {
        proof {
            let seen = clusters.deep_view().subrange(from as int, idx + 1);
            assert(seen.drop_last() =~= clusters.deep_view().subrange(from as int, idx as int));
            assert(seen.last() == clusters[idx as int]@);
        }
        text.append(clusters[idx].as_str());
        idx += 1;
    }
    text
}

/// The top or bottom line of a frame.
fn edge(left: char, fill: char, right: char, width: usize) -> (row: String)
    ensures
        row@ == edge_row(left, fill, right, width as nat),
{
    let mut row = String::new();
    row.push(' ');
    row.push(left);
    push_run(&mut row, fill, width);
    row.push(right);
    row.push(' ');
    assert(row@ =~= edge_row(left, fill, right, width as nat));
    row
}

/// Blocks that can be framed.
pub trait Border: Sized {
    /// The block in a frame of the given style.
    fn border(&self, style: BorderStyle) -> Self
        requires
            !(style is NoBorder),
    ;
}

impl Border for Vec<String> {
    fn border(&self, style: BorderStyle) -> (out: Self)
        ensures
            out.deep_view() == bordered(self.deep_view(), style),
    {
        let frame = frame(&style);
        let mut out: Vec<String> = Vec::new();
        let width = block_width(self);

        out.push(edge(frame.top_left, frame.horizontal, frame.top_right, width));
        let mut idx: usize = 0;
        while idx < self.len()
            invariant
                idx <= self.len(),
                frame == frame_of(style),
                width == widest(self.deep_view()),
                out@.len() == idx + 1,
                forall|i: int|
                    0 <= i < out@.len() ==> (#[trigger] out@[i])@ == bordered(
                        self.deep_view(),
                        style,
                    )[i],
            decreases self.len() - idx,
        {
            let mut row = String::new();
            row.push(' ');
            row.push(frame.vertical);
            row.append(self[idx].as_str());
            row.push(frame.vertical);
            row.push(' ');
            assert(row@ =~= framed_row(frame.vertical, self[idx as int]@));
            out.push(row);
            idx += 1;
        }
        out.push(edge(frame.bottom_left, frame.horizontal, frame.bottom_right, width));
        assert(out.deep_view() =~= bordered(self.deep_view(), style));
        out
    }
}

/// Blocks that can be padded.
pub trait Padding: Sized {
    /// The block with every line filled up to one width, between `padding`
    /// blanks on either side.
    fn pad(&self, padding: usize) -> Self;
}

impl Padding for Vec<String> {
    fn pad(&self, padding: usize) -> (out: Self)
        ensures
            out.deep_view() == padded(self.deep_view(), padding),
    {
        let width = block_width(self);
        let mut out: Vec<String> = Vec::new();
        let mut idx: usize = 0;
        while idx < self.len()
            invariant
                idx <= self.len(),
                width == widest(self.deep_view()),
                out@.len() == idx,
                forall|i: int|
                    0 <= i < out@.len() ==> (#[trigger] out@[i])@ == padded_row(
                        self.deep_view()[i],
                        width as nat,
                        padding,
                    ),
            decreases self.len() - idx,
        {
            let mut row = String::new();
            push_run(&mut row, ' ', padding);
            push_filled_right(&mut row, self[idx].as_str(), width, ' ');
            push_run(&mut row, ' ', padding);
            assert(row@ =~= padded_row(self[idx as int]@, width as nat, padding));
            out.push(row);
            idx += 1;
        }
        assert(out.deep_view() =~= padded(self.deep_view(), padding));
        out
    }
}

/// Blocks that another block can be laid over.
pub trait Popup: Sized {
    /// Whether `lines` can be laid over the block at column `x` and row `y`.
    spec fn fits(&self, lines: &Vec<String>, x: usize, y: usize) -> bool;

    /// The block with `lines` laid over it at column `x` and row `y`.
    fn popup(&self, lines: &Vec<String>, x: usize, y: usize) -> Self
        requires
            self.fits(lines, x, y),
    ;
}

impl Popup for Vec<String> {
    open spec fn fits(&self, lines: &Vec<String>, x: usize, y: usize) -> bool {
        popup_fits(self.deep_view(), lines.deep_view(), x as int, y as int)
    }

    fn popup(&self, lines: &Vec<String>, x: usize, y: usize) -> (out: Self)
        ensures
            out.deep_view() == popped_up(self.deep_view(), lines.deep_view(), x as int, y as int),
    {
        let ghost goal = popped_up(self.deep_view(), lines.deep_view(), x as int, y as int);
        // start with the unaffected lines before it
        let mut out: Vec<String> = Vec::new();
        let mut idx: usize = 0;
        while idx < y
            invariant
                idx <= y <= self.len(),
                out@.len() == idx,
                goal == popped_up(self.deep_view(), lines.deep_view(), x as int, y as int),
                forall|i: int| 0 <= i < out@.len() ==> (#[trigger] out@[i])@ == goal[i],
            decreases y - idx,
        {
            out.push(self[idx].clone());
            idx += 1;
        }
        let width = block_width(self);
        let inside = self.len() - y;

        let mut j: usize = 0;
        while j < lines.len()
            invariant
                j <= lines.len(),
                y <= self.len(),
                inside == self.len() - y,
                width == widest(self.deep_view()),
                self.fits(lines, x, y),
                out@.len() == y + j,
                goal == popped_up(self.deep_view(), lines.deep_view(), x as int, y as int),
                forall|i: int| 0 <= i < out@.len() ==> (#[trigger] out@[i])@ == goal[i],
            decreases lines.len() - j,
        {
            let line = &lines[j];
            let length = line_width(line.as_str());
            let mut row = String::new();
            // the line lies over a line of the block
            if j < inside {
                assert(self.deep_view()[y + j] == self[y + j]@);
                let clusters = graphemes(self[y + j].as_str());
                let count = clusters.len();
                assert(x <= count);
                row.append(glue(&clusters, 0, x).as_str());
                row.append(line.as_str());
                if length < count - x {
                    row.append(glue(&clusters, x + length, count).as_str());
                }
                assert(row@ =~= overlaid_row(self[y + j]@, line@, x as int));
            } else {
                // the line lies below the block
                push_run(&mut row, ' ', x);
                row.append(line.as_str());
                push_run(&mut row, ' ', width.saturating_sub(x).saturating_sub(length));
                assert(run_of(' ', width.saturating_sub(x).saturating_sub(length) as int)
                    =~= run_of(' ', width - x - width_of(line@)));
                assert(row@ =~= floating_row(line@, x as int, width as nat));
            }
            out.push(row);
            j += 1;
        }

        if lines.len() < inside {
            let mut idx: usize = y + lines.len();
            while idx < self.len()
                invariant
                    y + lines.len() <= idx <= self.len(),
                    out@.len() == idx,
                    goal == popped_up(self.deep_view(), lines.deep_view(), x as int, y as int),
                    forall|i: int| 0 <= i < out@.len() ==> (#[trigger] out@[i])@ == goal[i],
                decreases self.len() - idx,
            {
                out.push(self[idx].clone());
                idx += 1;
            }
        }
        assert(out.deep_view() =~= goal);
        out
    }
}

/// Lays `lines` over `base` at column `x` and row `y` where that can be
/// done, and says so where it cannot.
pub fn try_popup(base: &Vec<String>, lines: &Vec<String>, x: usize, y: usize) -> (out: Option<
    Vec<String>,
>)
    ensures
        match out {
            Some(block) => base.fits(lines, x, y) && block.deep_view() == popped_up(
                base.deep_view(),
                lines.deep_view(),
                x as int,
                y as int,
            ),
            None => !base.fits(lines, x, y),
        },
{
    if y > base.len() {
        return None;
    }
    let inside = base.len() - y;
    let mut j: usize = 0;
    while j < lines.len() && j < inside
        invariant
            y <= base.len(),
            inside == base.len() - y,
            forall|k: int| 0 <= k < j ==> x <= width_of(#[trigger] base.deep_view()[y + k]),
        decreases lines.len() - j,
    {
        assert(base.deep_view()[y + j] == base[y + j]@);
        if line_width(base[y + j].as_str()) < x {
            return None;
        }
        j += 1;
    }
    Some(base.popup(lines, x, y))
}

/// Adds the lines of a block at the end of another.
pub fn push_lines(block: &mut Vec<String>, more: &Vec<String>)
    ensures
        final(block).deep_view() == old(block).deep_view() + more.deep_view(),
{
    let ghost head = block.deep_view();
    let mut idx: usize = 0;
    assert(block.deep_view() =~= head + more.deep_view().take(0));
    while idx < more.len()
        invariant
            idx <= more.len(),
            block.deep_view() == head + more.deep_view().take(idx as int),
        decreases more.len() - idx,
    {
        let ghost held = block.deep_view();
        block.push(more[idx].clone());
        assert(block.deep_view() =~= held.push(more[idx as int]@));
        assert(held.push(more[idx as int]@) =~= head + more.deep_view().take(idx + 1));
        idx += 1;
    }
    assert(more.deep_view().take(more.len() as int) =~= more.deep_view());
}

/// Blocks that can be put together as one text.
pub trait Render {
    /// The block as one text, one line of text per line of the block.
    fn render(&self) -> String;
}

impl Render for Vec<String> {
    fn render(&self) -> (text: String)
        ensures
            text@ == joined(self.deep_view(), line_feed()),
    {
        join_lines(self)
    }
}

} // verus!
