//! A terminal, as far as the output here needs one: what it does with the characters it is
//! sent, one after the other.

use vstd::prelude::*;

use crate::text::{decimal, digit, move_to};

verus! {

/// How text looks.
pub struct Look {
    pub fg: Option<(nat, nat, nat)>,
    pub bg: Option<(nat, nat, nat)>,
    pub bold: bool,
    pub faint: bool,
    pub italic: bool,
    pub underline: bool,
    pub inverse: bool,
    pub strike: bool,
}

/// How text looks after a reset.
pub open spec fn plain_look() -> Look {
    Look {
        fg: None,
        bg: None,
        bold: false,
        faint: false,
        italic: false,
        underline: false,
        inverse: false,
        strike: false,
    }
}

/// A place on the screen: `nth` characters behind a 1-based row and column.
pub struct Place {
    pub row: nat,
    pub col: nat,
    pub nth: nat,
}

/// Something that changes the screen.
pub enum Mark {
    /// A character appears.
    Put { at: Place, look: Look, c: char },
    /// The rest of the line goes blank.
    ClearLine { at: Place, look: Look },
    /// The rest of the screen goes blank.
    ClearBelow { at: Place, look: Look },
}

/// Where in a control sequence the terminal is.
pub enum Parse {
    Text,
    Escape,
    Control { params: Seq<nat>, private: bool, spaced: bool },
}

/// A terminal, and everything that was put on its screen.
pub struct Terminal {
    pub parse: Parse,
    pub at: Place,
    pub look: Look,
    pub visible: bool,
    pub shape: nat,
    pub marks: Seq<Mark>,
}

/// What a single SGR parameter makes of a look.
pub open spec fn attributed(look: Look, p: nat) -> Look {
    if p == 0 {
        plain_look()
    } else if p == 1 {
        Look { bold: true, ..look }
    } else if p == 2 {
        Look { faint: true, ..look }
    } else if p == 3 {
        Look { italic: true, ..look }
    } else if p == 4 {
        Look { underline: true, ..look }
    } else if p == 7 {
        Look { inverse: true, ..look }
    } else if p == 9 {
        Look { strike: true, ..look }
    } else {
        look
    }
}

/// What the SGR parameters from the `i`-th on make of a look. A color takes five of them:
/// which one it is, that it is given by its parts, and the parts.
pub open spec fn styled(look: Look, params: Seq<nat>, i: int) -> Look
    decreases params.len() - i,
{
    if i >= params.len() {
        look
    } else if i + 4 < params.len() && params[i] == 38 && params[i + 1] == 2 {
        let fg = (params[i + 2], params[i + 3], params[i + 4]);
        styled(Look { fg: Some(fg), ..look }, params, i + 5)
    } else if i + 4 < params.len() && params[i] == 48 && params[i + 1] == 2 {
        let bg = (params[i + 2], params[i + 3], params[i + 4]);
        styled(Look { bg: Some(bg), ..look }, params, i + 5)
    } else {
        styled(attributed(look, params[i]), params, i + 1)
    }
}

/// A 1-based coordinate; a missing one stands for the first.
pub open spec fn coordinate(params: Seq<nat>, i: int) -> nat {
    if i < params.len() && params[i] > 0 {
        params[i]
    } else {
        1
    }
}

/// What a whole control sequence does.
pub open spec fn controlled(
    t: Terminal,
    params: Seq<nat>,
    private: bool,
    spaced: bool,
    c: char,
) -> Terminal {
    let t = Terminal { parse: Parse::Text, ..t };
    if private {
        if c == 'h' && params == seq![25nat] {
            Terminal { visible: true, ..t }
        } else if c == 'l' && params == seq![25nat] {
            Terminal { visible: false, ..t }
        } else {
            t
        }
    } else if spaced {
        if c == 'q' && params.len() == 1 {
            Terminal { shape: params[0], ..t }
        } else {
            t
        }
    } else if c == 'm' {
        Terminal { look: styled(t.look, params, 0), ..t }
    } else if c == 'H' {
        Terminal {
            at: Place { row: coordinate(params, 0), col: coordinate(params, 1), nth: 0 },
            ..t
        }
    } else if c == 'K' {
        Terminal { marks: t.marks.push(Mark::ClearLine { at: t.at, look: t.look }), ..t }
    } else if c == 'J' {
        Terminal { marks: t.marks.push(Mark::ClearBelow { at: t.at, look: t.look }), ..t }
    } else {
        t
    }
}

/// What a terminal does with one character.
pub open spec fn sent(t: Terminal, c: char) -> Terminal {
    match t.parse {
        Parse::Text => if c == '\x1b' {
            Terminal { parse: Parse::Escape, ..t }
        } else if c == '\r' {
            Terminal { at: Place { col: 1, nth: 0, ..t.at }, ..t }
        } else if c == '\n' {
            Terminal { at: Place { row: t.at.row + 1, ..t.at }, ..t }
        } else {
            Terminal {
                at: Place { nth: t.at.nth + 1, ..t.at },
                marks: t.marks.push(Mark::Put { at: t.at, look: t.look, c }),
                ..t
            }
        },
        Parse::Escape => if c == '[' {
            Terminal {
                parse: Parse::Control { params: seq![0nat], private: false, spaced: false },
                ..t
            }
        } else {
            Terminal { parse: Parse::Text, ..t }
        },
        Parse::Control { params, private, spaced } => if '0' <= c <= '9' {
            let last = (params.last() * 10 + (c as nat - '0' as nat)) as nat;
            Terminal {
                parse: Parse::Control { params: params.drop_last().push(last), private, spaced },
                ..t
            }
        } else if c == ';' {
            Terminal { parse: Parse::Control { params: params.push(0), private, spaced }, ..t }
        } else if c == '?' {
            Terminal { parse: Parse::Control { params, private: true, spaced }, ..t }
        } else if c == ' ' {
            Terminal { parse: Parse::Control { params, private, spaced: true }, ..t }
        } else {
            controlled(t, params, private, spaced, c)
        },
    }
}

/// What a terminal does with a text.
pub open spec fn shown(t: Terminal, text: Seq<char>) -> Terminal
    decreases text.len(),
{
    if text.len() == 0 {
        t
    } else {
        sent(shown(t, text.drop_last()), text.last())
    }
}

/// Whether a character is shown as such, and moves nothing else.
pub open spec fn printable(c: char) -> bool {
    c != '\x1b' && c != '\r' && c != '\n'
}

/// The mark of a character that is written `i` characters behind a place.
pub open spec fn put(at: Place, look: Look, i: int, c: char) -> Mark {
    Mark::Put { at: Place { nth: (at.nth + i) as nat, ..at }, look, c }
}

/// The marks that a text leaves behind when it is written from some place on.
pub open spec fn written(text: Seq<char>, at: Place, look: Look) -> Seq<Mark> {
    Seq::new(text.len(), |i: int| put(at, look, i, text[i]))
}

/// It makes no difference in how many pieces a text is sent.
pub proof fn law_sent_in_pieces(t: Terminal, a: Seq<char>, b: Seq<char>)
    ensures
        shown(t, a + b) == shown(shown(t, a), b),
    decreases b.len(),
{
    if b.len() == 0 {
        assert(a + b =~= a);
    } else {
        law_sent_in_pieces(t, a, b.drop_last());
        assert((a + b).drop_last() =~= a + b.drop_last());
        assert((a + b).last() == b.last());
    }
}

/// Printable text appears where the cursor stands, in the look that is in force.
pub proof fn lemma_written(t: Terminal, text: Seq<char>)
    requires
        t.parse is Text,
        forall|i: int| 0 <= i < text.len() ==> printable(#[trigger] text[i]),
    ensures
        shown(t, text) == (Terminal {
            at: Place { nth: t.at.nth + text.len(), ..t.at },
            marks: t.marks + written(text, t.at, t.look),
            ..t
        }),
    decreases text.len(),
{
    if text.len() == 0 {
        assert(t.marks + written(text, t.at, t.look) =~= t.marks);
    } else {
        let front = text.drop_last();
        assert forall|i: int| 0 <= i < front.len() implies printable(#[trigger] front[i]) by {
            assert(front[i] == text[i]);
        }
        lemma_written(t, front);
        let w = written(text, t.at, t.look);
        let v = written(front, t.at, t.look);
        assert(w =~= v.push(put(t.at, t.look, front.len() as int, text.last())));
        assert(t.marks + w =~= (t.marks + v).push(w.last()));
    }
}

/// A single character, sent as a text.
pub proof fn lemma_one(t: Terminal, c: char)
    ensures
        shown(t, seq![c]) == sent(t, c),
{
    reveal_with_fuel(shown, 2);
    assert(seq![c].drop_last() =~= Seq::empty());
}

/// A number in decimal notation is read as that number.
pub proof fn lemma_number(t: Terminal, front: Seq<nat>, private: bool, spaced: bool, n: nat)
    requires
        t.parse == (Parse::Control { params: front.push(0), private, spaced }),
    ensures
        shown(t, decimal(n)) == (Terminal {
            parse: Parse::Control { params: front.push(n), private, spaced },
            ..t
        }),
    decreases n,
{
    if n < 10 {
        lemma_one(t, digit(n));
        assert(front.push(0).drop_last() =~= front);
        assert(front.push(0).last() == 0);
    } else {
        lemma_number(t, front, private, spaced, n / 10);
        let d = decimal(n / 10);
        let c = digit(n % 10);
        assert(d.push(c).drop_last() =~= d);
        assert(d.push(c).last() == c);
        assert(front.push(n / 10).drop_last() =~= front);
        assert(front.push(n / 10).last() == n / 10);
        assert(n == n / 10 * 10 + n % 10);
    }
}

/// The control sequence that moves the cursor does so.
pub proof fn law_move_to(t: Terminal, row: nat, col: nat)
    requires
        t.parse is Text,
        row > 0,
        col > 0,
    ensures
        shown(t, move_to(row, col)) == (Terminal { at: Place { row, col, nth: 0 }, ..t }),
{
    let a = "\x1b["@;
    let b = a + decimal(row);
    let c = b + ";"@;
    let d = c + decimal(col);
    lemma_start(t);
    law_sent_in_pieces(t, a, decimal(row));
    law_sent_in_pieces(t, b, ";"@);
    law_sent_in_pieces(t, c, decimal(col));
    law_sent_in_pieces(t, d, "H"@);
    reveal_strlit(";");
    reveal_strlit("H");
    assert(";"@ =~= seq![';']);
    assert("H"@ =~= seq!['H']);
    let e = Seq::<nat>::empty();
    assert(seq![0nat] =~= e.push(0));
    lemma_number(shown(t, a), e, false, false, row);
    lemma_one(shown(t, b), ';');
    lemma_number(shown(t, c), e.push(row), false, false, col);
    lemma_one(shown(t, d), 'H');
}

/// A control sequence starts with one empty parameter.
pub proof fn lemma_start(t: Terminal)
    requires
        t.parse is Text,
    ensures
        shown(t, "\x1b["@) == (Terminal {
            parse: Parse::Control { params: seq![0nat], private: false, spaced: false },
            ..t
        }),
{
    reveal_strlit("\x1b[");
    reveal_with_fuel(shown, 3);
    let s = "\x1b["@;
    assert(s.drop_last() =~= seq!['\x1b']);
    assert(s.drop_last().drop_last() =~= Seq::empty());
}

pub proof fn lemma_next(t: Terminal, s: Seq<char>, c: char)
    ensures
        shown(t, s.push(c)) == sent(shown(t, s), c),
{
    assert(s.push(c).drop_last() =~= s);
}

/// A control sequence without parameters.
proof fn lemma_bare(t: Terminal, c: char)
    requires
        t.parse is Text,
        c == 'H' || c == 'K' || c == 'J',
    ensures
        shown(t, "\x1b["@.push(c)) == controlled(t, seq![0nat], false, false, c),
{
    lemma_start(t);
    lemma_next(t, "\x1b["@, c);
}

/// A control sequence with a one-digit parameter.
proof fn lemma_digit(t: Terminal, d: char, c: char)
    requires
        t.parse is Text,
        '0' <= d <= '9',
        c == 'm',
    ensures
        shown(t, "\x1b["@.push(d).push(c)) == controlled(
            t,
            seq![(d as nat - '0' as nat) as nat],
            false,
            false,
            c,
        ),
{
    lemma_start(t);
    lemma_next(t, "\x1b["@, d);
    lemma_next(t, "\x1b["@.push(d), c);
    assert(seq![0nat].drop_last().push((d as nat - '0' as nat) as nat) =~= seq![
        (d as nat - '0' as nat) as nat,
    ]);
}

/// The two control sequences for the cursor hide and reveal it.
pub proof fn law_cursor_visibility(t: Terminal)
    requires
        t.parse is Text,
    ensures
        shown(t, "\x1b[?25l"@) == (Terminal { visible: false, ..t }),
        shown(t, "\x1b[?25h"@) == (Terminal { visible: true, ..t }),
{
    reveal_strlit("\x1b[");
    reveal_strlit("\x1b[?25l");
    reveal_strlit("\x1b[?25h");
    lemma_start(t);
    let a = "\x1b["@.push('?');
    let b = a.push('2');
    let c = b.push('5');
    lemma_next(t, "\x1b["@, '?');
    lemma_next(t, a, '2');
    lemma_next(t, b, '5');
    lemma_next(t, c, 'l');
    lemma_next(t, c, 'h');
    assert("\x1b[?25l"@ =~= c.push('l'));
    assert("\x1b[?25h"@ =~= c.push('h'));
    assert(seq![0nat].drop_last().push(2) =~= seq![2nat]);
    assert(seq![2nat].drop_last().push(25) =~= seq![25nat]);
}

/// The control sequences for home, reset, reverse video and clearing do what they are for.
pub proof fn law_controls(t: Terminal)
    requires
        t.parse is Text,
    ensures
        shown(t, "\x1b[H"@) == (Terminal { at: Place { row: 1, col: 1, nth: 0 }, ..t }),
        shown(t, "\x1b[0m"@) == (Terminal { look: plain_look(), ..t }),
        shown(t, "\x1b[7m"@) == (Terminal { look: Look { inverse: true, ..t.look }, ..t }),
        shown(t, "\x1b[K"@) == (Terminal {
            marks: t.marks.push(Mark::ClearLine { at: t.at, look: t.look }),
            ..t
        }),
        shown(t, "\x1b[J"@) == (Terminal {
            marks: t.marks.push(Mark::ClearBelow { at: t.at, look: t.look }),
            ..t
        }),
{
    reveal_strlit("\x1b[");
    reveal_strlit("\x1b[H");
    reveal_strlit("\x1b[0m");
    reveal_strlit("\x1b[7m");
    reveal_strlit("\x1b[K");
    reveal_strlit("\x1b[J");
    let s = "\x1b["@;
    assert("\x1b[H"@ =~= s.push('H'));
    assert("\x1b[K"@ =~= s.push('K'));
    assert("\x1b[J"@ =~= s.push('J'));
    assert("\x1b[0m"@ =~= s.push('0').push('m'));
    assert("\x1b[7m"@ =~= s.push('7').push('m'));
    lemma_bare(t, 'H');
    lemma_bare(t, 'K');
    lemma_bare(t, 'J');
    lemma_digit(t, '0', 'm');
    lemma_digit(t, '7', 'm');
    reveal_with_fuel(styled, 2);
}

/// The control sequence that shapes the cursor does so.
pub proof fn law_cursor_shape(t: Terminal, n: nat)
    requires
        t.parse is Text,
    ensures
        shown(t, "\x1b["@ + decimal(n) + " q"@) == (Terminal { shape: n, ..t }),
{
    let a = "\x1b["@;
    let b = a + decimal(n);
    reveal_strlit(" q");
    assert(b + " q"@ =~= b.push(' ').push('q'));
    lemma_start(t);
    law_sent_in_pieces(t, a, decimal(n));
    let e = Seq::<nat>::empty();
    assert(seq![0nat] =~= e.push(0));
    lemma_number(shown(t, a), e, false, false, n);
    lemma_next(t, b, ' ');
    lemma_next(t, b.push(' '), 'q');
}

/// A new line starts at the left, one row further down.
pub proof fn law_new_line(t: Terminal)
    requires
        t.parse is Text,
    ensures
        shown(t, "\r\n"@) == (Terminal {
            at: Place { row: t.at.row + 1, col: 1, nth: 0 },
            ..t
        }),
{
    reveal_strlit("\r\n");
    assert("\r\n"@ =~= seq!['\r'].push('\n'));
    lemma_one(t, '\r');
    lemma_next(t, seq!['\r'], '\n');
}

} // verus!
