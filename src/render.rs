use vstd::prelude::*;
use vstd::string::StringExecFns;
use colored::Colorize;
use crate::glyph::ColorChar;
use crate::pixel::Rgb;

verus! {

/// The terminal reset sequence `ESC [ 0 m`.
pub open spec fn reset_seq() -> Seq<char> {
    seq!['\x1b', '[', '0', 'm']
}

/// The decimal digit `d`.
pub open spec fn digit(d: int) -> char {
    seq!['0', '1', '2', '3', '4', '5', '6', '7', '8', '9'][d]
}

/// `n` in decimal, without leading zeros.
pub open spec fn decimal(n: nat) -> Seq<char>
    decreases n,
{
    if n < 10 {
        seq![digit(n as int)]
    } else {
        decimal(n / 10) + seq![digit((n % 10) as int)]
    }
}

/// The 24-bit foreground code `38;2;R;G;B`.
pub open spec fn truecolor_code(c: Rgb) -> Seq<char> {
    seq!['3', '8', ';', '2', ';'] + decimal(c.r as nat) + seq![';'] + decimal(c.g as nat) + seq![';']
        + decimal(c.b as nat)
}

/// One of the sixteen basic foreground codes `30`-`37` and `90`-`97`.
pub open spec fn basic_code(code: Seq<char>) -> bool {
    &&& code.len() == 2
    &&& (code[0] == '3' || code[0] == '9')
    &&& '0' <= code[1] <= '7'
}

/// `ch` between the style sequence `ESC [ code m` and the reset sequence.
pub open spec fn wrapped(code: Seq<char>, ch: char) -> Seq<char> {
    seq!['\x1b', '['] + code + seq!['m', ch] + reset_seq()
}

/// `s` is `ch` in `color` as the painter may emit it: bare, with the 24-bit
/// code of the colour, or with a basic colour code.
pub open spec fn painted_form(s: Seq<char>, ch: char, color: Rgb) -> bool {
    ||| s == seq![ch]
    ||| s == wrapped(truecolor_code(color), ch)
    ||| exists|code: Seq<char>| basic_code(code) && s == #[trigger] wrapped(code, ch)
}

/// Relies on colored's `Colorize::custom_color` and the `Display` of
/// `ColoredString`: the character alone where the environment turns colour off,
/// else the character between a foreground sequence and the reset sequence;
/// the sequence carries `38;2;R;G;B` where `COLORTERM` announces 24-bit colour,
/// else the code of the nearest of the sixteen basic colours.
#[verifier::external_body]
fn paint(ch: char, color: Rgb) -> (s: String)
    ensures
        painted_form(s@, ch, color),
{
    ch.to_string().custom_color(colored::CustomColor::new(color.r, color.g, color.b)).to_string()
}

/// Relies on `String::push`: appends one character.
#[verifier::external_body]
fn push_char(s: &mut String, ch: char)
    ensures
        final(s)@ == old(s)@.push(ch),
{
    s.push(ch)
}

/// A space on pure black is invisible in colour mode.
pub open spec fn invisible(cc: ColorChar) -> bool {
    cc.ch == ' ' && cc.color == Some(Rgb { r: 0, g: 0, b: 0 })
}

/// `p` is the text emitted for `cc`: the bare character when colour mode is
/// off or the cell has no colour, nothing for an invisible cell, else the
/// painted character.
pub open spec fn piece_fits(p: Seq<char>, cc: ColorChar, colored: bool) -> bool {
    if !colored || cc.color is None {
        p == seq![cc.ch]
    } else if invisible(cc) {
        p == Seq::<char>::empty()
    } else {
        painted_form(p, cc.ch, cc.color->Some_0)
    }
}

/// The concatenation of the pieces.
pub open spec fn concat_all(ps: Seq<Seq<char>>) -> Seq<char>
    decreases ps.len(),
{
    if ps.len() == 0 {
        Seq::empty()
    } else {
        concat_all(ps.drop_last()) + ps.last()
    }
}

/// The lines joined with one newline between consecutive lines.
pub open spec fn join_lines(lines: Seq<Seq<char>>) -> Seq<char>
    decreases lines.len(),
{
    if lines.len() == 0 {
        Seq::empty()
    } else if lines.len() == 1 {
        lines[0]
    } else {
        join_lines(lines.drop_last()) + seq!['\n'] + lines.last()
    }
}

/// The pieces fit the cells of one row.
pub open spec fn row_pieces_fit(ps: Seq<Seq<char>>, row: Seq<ColorChar>, colored: bool) -> bool {
    &&& ps.len() == row.len()
    &&& forall|j: int| 0 <= j < row.len() ==> piece_fits(#[trigger] ps[j], row[j], colored)
}

/// `s` is the text of the grid for the given pieces of each cell.
pub open spec fn text_of(
    s: Seq<char>,
    pieces: Seq<Seq<Seq<char>>>,
    grid: Seq<Vec<ColorChar>>,
    colored: bool,
) -> bool {
    &&& pieces.len() == grid.len()
    &&& forall|i: int| 0 <= i < grid.len() ==> row_pieces_fit(#[trigger] pieces[i], grid[i]@, colored)
    &&& s == join_lines(Seq::new(pieces.len(), |i: int| concat_all(pieces[i])))
}

/// The number of newlines in `s`.
pub open spec fn newline_count(s: Seq<char>) -> nat
    decreases s.len(),
{
    if s.len() == 0 {
        0
    } else {
        newline_count(s.drop_last()) + if s.last() == '\n' {
            1nat
        } else {
            0nat
        }
    }
}

pub open spec fn no_newline(s: Seq<char>) -> bool {
    forall|i: int| 0 <= i < s.len() ==> #[trigger] s[i] != '\n'
}

proof fn lemma_no_newline_count(s: Seq<char>)
    requires
        no_newline(s),
    ensures
        newline_count(s) == 0,
    decreases s.len(),
{
    if s.len() > 0 {
        assert(no_newline(s.drop_last()));
        lemma_no_newline_count(s.drop_last());
        assert(s.last() == s[s.len() - 1]);
    }
}

proof fn lemma_count_add(a: Seq<char>, b: Seq<char>)
    ensures
        newline_count(a + b) == newline_count(a) + newline_count(b),
    decreases b.len(),
{
    if b.len() == 0 {
        assert(a + b =~= a);
    } else {
        lemma_count_add(a, b.drop_last());
        assert((a + b).drop_last() =~= a + b.drop_last());
    }
}

proof fn lemma_decimal_no_newline(n: nat)
    ensures
        no_newline(decimal(n)),
    decreases n,
{
    let d = (n % 10) as int;
    assert(digit(d) != '\n');
    if n >= 10 {
        lemma_decimal_no_newline(n / 10);
    }
}

proof fn lemma_piece_no_newline(p: Seq<char>, cc: ColorChar, colored: bool)
    requires
        piece_fits(p, cc, colored),
        cc.ch != '\n',
    ensures
        newline_count(p) == 0,
{
    if colored && cc.color is Some && !invisible(cc) && p != seq![cc.ch] {
        let c = cc.color->Some_0;
        if p == wrapped(truecolor_code(c), cc.ch) {
            lemma_decimal_no_newline(c.r as nat);
            lemma_decimal_no_newline(c.g as nat);
            lemma_decimal_no_newline(c.b as nat);
            assert(no_newline(truecolor_code(c)));
            assert(no_newline(p));
        } else {
            let code = choose|code: Seq<char>| basic_code(code) && p == #[trigger] wrapped(code, cc.ch);
            assert(no_newline(code));
            assert(no_newline(p));
        }
    } else {
        assert(no_newline(p));
    }
    lemma_no_newline_count(p);
}

proof fn lemma_concat_no_newline(ps: Seq<Seq<char>>, row: Seq<ColorChar>, colored: bool)
    requires
        row_pieces_fit(ps, row, colored),
        forall|j: int| 0 <= j < row.len() ==> (#[trigger] row[j]).ch != '\n',
    ensures
        newline_count(concat_all(ps)) == 0,
    decreases ps.len(),
{
    if ps.len() > 0 {
        let n = ps.len() - 1;
        assert(row_pieces_fit(ps.drop_last(), row.drop_last(), colored));
        lemma_concat_no_newline(ps.drop_last(), row.drop_last(), colored);
        assert(row[n].ch != '\n');
        lemma_piece_no_newline(ps[n], row[n], colored);
        lemma_count_add(concat_all(ps.drop_last()), ps.last());
    }
}

proof fn lemma_join_count(lines: Seq<Seq<char>>)
    requires
        lines.len() >= 1,
        forall|i: int| 0 <= i < lines.len() ==> newline_count(#[trigger] lines[i]) == 0,
    ensures
        newline_count(join_lines(lines)) == lines.len() - 1,
    decreases lines.len(),
{
    if lines.len() > 1 {
        let init = lines.drop_last();
        assert(newline_count(init[0]) == 0 && newline_count(lines[0]) == 0);
        lemma_join_count(init);
        lemma_count_add(join_lines(init), seq!['\n']);
        lemma_count_add(join_lines(init) + seq!['\n'], lines.last());
        assert(newline_count(seq!['\n']) == 1) by {
            let nl = seq!['\n'];
            assert(nl.drop_last() =~= Seq::<char>::empty());
            assert(newline_count(Seq::<char>::empty()) == 0);
            assert(nl.last() == '\n');
        }
        assert(newline_count(lines[lines.len() - 1]) == 0);
    }
}

/// The text of a grid of at least one row, none of whose characters is a
/// newline, holds one newline fewer than the grid has rows, in colour mode or
/// not.
pub proof fn lemma_text_rows(
    s: Seq<char>,
    pieces: Seq<Seq<Seq<char>>>,
    grid: Seq<Vec<ColorChar>>,
    colored: bool,
)
    requires
        text_of(s, pieces, grid, colored),
        grid.len() >= 1,
        forall|i: int, j: int| 0 <= i < grid.len() && 0 <= j < grid[i]@.len() ==> (#[trigger] grid[i]@[j]).ch != '\n',
    ensures
        newline_count(s) == grid.len() - 1,
{
    let lines = Seq::new(pieces.len(), |i: int| concat_all(pieces[i]));
    assert forall|i: int| 0 <= i < lines.len() implies newline_count(#[trigger] lines[i]) == 0 by {
        assert(row_pieces_fit(pieces[i], grid[i]@, colored));
        assert forall|j: int| 0 <= j < grid[i]@.len() implies (#[trigger] grid[i]@[j]).ch != '\n' by {}
        lemma_concat_no_newline(pieces[i], grid[i]@, colored);
    }
    lemma_join_count(lines);
}

/// The text of one cell, in colour mode or not.
pub fn cell_text(cc: ColorChar, colored: bool) -> (s: String)
    ensures
        piece_fits(s@, cc, colored),
{
    if !colored {
        let mut s = String::new();
        push_char(&mut s, cc.ch);
        return s;
    }
    match cc.color {
        None => {
            let mut s = String::new();
            push_char(&mut s, cc.ch);
            s
        },
        Some(color) => {
            if cc.ch == ' ' && color.r == 0 && color.g == 0 && color.b == 0 {
                String::new()
            } else {
                paint(cc.ch, color)
            }
        },
    }
}

/// The text of one row: its cells' texts with nothing between them.
fn row_text(row: &Vec<ColorChar>, colored: bool) -> (r: (String, Ghost<Seq<Seq<char>>>))
    ensures
        row_pieces_fit(r.1@, row@, colored),
        r.0@ == concat_all(r.1@),
{
    let mut s = String::new();
    let mut ps: Ghost<Seq<Seq<char>>> = Ghost(Seq::empty());
    let mut j: usize = 0;
    while j < row.len()
        invariant
            j <= row@.len(),
            ps@.len() == j,
            forall|k: int| 0 <= k < j ==> piece_fits(#[trigger] ps@[k], row@[k], colored),
            s@ == concat_all(ps@),
        decreases row@.len() - j,
    {
        let piece = cell_text(row[j], colored);
        let ghost prev = ps@;
        s.append(piece.as_str());
        ps = Ghost(ps@.push(piece@));
        proof {
            assert(ps@.drop_last() =~= prev);
        }
        j = j + 1;
    }
    (s, ps)
}

/// The text of a character grid: rows joined by newlines, no trailing newline;
/// colour escapes only in colour mode.
pub fn gen_ascii(pixels: &Vec<Vec<ColorChar>>, colored: bool) -> (s: String)
    ensures
        exists|pieces: Seq<Seq<Seq<char>>>| text_of(s@, pieces, pixels@, colored),
{
    let mut s = String::new();
    let mut pieces: Ghost<Seq<Seq<Seq<char>>>> = Ghost(Seq::empty());
    let mut i: usize = 0;
    while i < pixels.len()
        invariant
            i <= pixels@.len(),
            pieces@.len() == i,
            forall|k: int| 0 <= k < i ==> row_pieces_fit(#[trigger] pieces@[k], pixels@[k]@, colored),
            s@ == join_lines(Seq::new(pieces@.len(), |k: int| concat_all(pieces@[k]))),
        decreases pixels@.len() - i,
    {
        let (line, ps) = row_text(&pixels[i], colored);
        let ghost prev = pieces@;
        if i > 0 {
            push_char(&mut s, '\n');
        }
        s.append(line.as_str());
        pieces = Ghost(pieces@.push(ps@));
        proof {
            let lines = Seq::new(pieces@.len(), |k: int| concat_all(pieces@[k]));
            let before = Seq::new(prev.len(), |k: int| concat_all(prev[k]));
            assert(lines.drop_last() =~= before);
            if i == 0 {
                assert(s@ =~= lines[0]);
            }
        }
        i = i + 1;
    }
    assert(text_of(s@, pieces@, pixels@, colored));
    s
}

} // verus!
