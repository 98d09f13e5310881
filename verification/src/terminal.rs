//! The terminal in which an agent runs, as far as its screen goes.
use crate::text::texts;
use vstd::prelude::*;

verus! {

#[verifier::external_type_specification]
#[verifier::external_body]
pub struct ExParser(vt100::Parser);

/// The bytes that a terminal has been given, in order.
pub uninterp spec fn fed(terminal: vt100::Parser) -> Seq<u8>;

/// How many rows and columns a terminal was made with.
pub uninterp spec fn extent(terminal: vt100::Parser) -> (u16, u16);

/// The text of each row of a terminal with `rows` rows and `cols` columns after it was given
/// `bytes`, as `vt100::Screen::rows` gives it for all columns.
pub uninterp spec fn screen_text(rows: u16, cols: u16, bytes: Seq<u8>) -> Seq<Seq<char>>;

/// The bytes that draw the screen of a terminal with `rows` rows and `cols` columns after it
/// was given `bytes`, as `vt100::Screen::contents_formatted` gives them.
pub uninterp spec fn screen_drawing(rows: u16, cols: u16, bytes: Seq<u8>) -> Seq<u8>;

/// A terminal. Its parser was made by [`new_terminal`] and has since been given bytes by
/// [`feed`], and nothing else has been done to it: it was never scrolled back or resized.
pub struct Terminal {
    parser: vt100::Parser,
}

/// `vt100::Parser::new`: a terminal of the given size that has been given nothing. A size of
/// zero is left out: the last row would have no number.
#[verifier::external_body]
fn new_terminal(rows: u16, cols: u16, scrollback: usize) -> (r: Terminal)
    requires
        rows > 0,
        cols > 0,
    ensures
        extent(r.parser) == (rows, cols),
        fed(r.parser) == Seq::<u8>::empty(),
{
    Terminal { parser: vt100::Parser::new(rows, cols, scrollback) }
}

/// `vt100::Parser::process`: gives the terminal more bytes. They are taken one at a time, so
/// how they are cut into calls makes no difference. A terminal of a single row is left out, and
/// one of fewer than three columns: in it the widest characters have no place. So is one that
/// is so wide that the tab stop after its last column has no number.
#[verifier::external_body]
fn feed(terminal: &mut Terminal, bytes: &[u8])
    requires
        extent(old(terminal).parser).0 >= 2,
        3 <= extent(old(terminal).parser).1 <= 65_527,
    ensures
        extent(final(terminal).parser) == extent(old(terminal).parser),
        fed(final(terminal).parser) == fed(old(terminal).parser) + bytes@,
{
    terminal.parser.process(bytes)
}

/// `vt100::Screen::rows`: the text of each row, all columns of it.
#[verifier::external_body]
fn screen_rows(terminal: &Terminal) -> (lines: Vec<String>)
    ensures
        texts(lines@) == screen_text(
            extent(terminal.parser).0,
            extent(terminal.parser).1,
            fed(terminal.parser),
        ),
{
    let screen = terminal.parser.screen();
    let cols = screen.size().1;
    screen.rows(0, cols).collect()
}

/// `vt100::Screen::contents_formatted`: the bytes that draw the screen. A screen without columns
/// is left out: it looks at the first cell of each row.
#[verifier::external_body]
fn screen_bytes(terminal: &Terminal) -> (bytes: Vec<u8>)
    requires
        extent(terminal.parser).1 > 0,
    ensures
        bytes@ == screen_drawing(
            extent(terminal.parser).0,
            extent(terminal.parser).1,
            fed(terminal.parser),
        ),
{
    terminal.parser.screen().contents_formatted()
}

impl Terminal {
    /// How many rows it has.
    pub closed spec fn rows(self) -> u16 {
        extent(self.parser).0
    }

    /// How many columns it has.
    pub closed spec fn cols(self) -> u16 {
        extent(self.parser).1
    }

    /// The bytes that it has been given, in order.
    pub closed spec fn input(self) -> Seq<u8> {
        fed(self.parser)
    }

    /// The text of each row.
    pub open spec fn shown(self) -> Seq<Seq<char>> {
        screen_text(self.rows(), self.cols(), self.input())
    }

    /// The bytes that draw its screen.
    pub open spec fn drawing(self) -> Seq<u8> {
        screen_drawing(self.rows(), self.cols(), self.input())
    }

    /// A terminal that has been given nothing.
    pub fn new(rows: u16, cols: u16, scrollback: usize) -> (r: Terminal)
        requires
            rows > 0,
            cols > 0,
        ensures
            r.rows() == rows,
            r.cols() == cols,
            r.input() == Seq::<u8>::empty(),
    {
        new_terminal(rows, cols, scrollback)
    }

    /// Gives it more bytes.
    pub fn process(&mut self, bytes: &[u8])
        requires
            old(self).rows() >= 2,
            3 <= old(self).cols() <= 65_527,
        ensures
            final(self).rows() == old(self).rows(),
            final(self).cols() == old(self).cols(),
            final(self).input() == old(self).input() + bytes@,
    {
        feed(self, bytes)
    }

    /// What each of its rows shows.
    pub fn lines(&self) -> (lines: Vec<String>)
        ensures
            texts(lines@) == self.shown(),
    {
        screen_rows(self)
    }

    /// The bytes that draw what it shows.
    pub fn contents_formatted(&self) -> (bytes: Vec<u8>)
        requires
            self.cols() > 0,
        ensures
            bytes@ == self.drawing(),
    {
        screen_bytes(self)
    }
}

} // verus!
