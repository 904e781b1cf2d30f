use vstd::prelude::*;

use crate::color::{cell_wf, Color};
use crate::sgr::{spec_sgr_sequence, write_sgr};

verus! {

/// A visible glyph together with the color it is drawn in.
#[derive(Clone, Copy, PartialEq, Eq, Hash, Debug, Default)]
pub struct Foreground<C> {
    pub color: C,
    pub character: char,
}

/// One character cell of rendered output: a background color and, unless the
/// cell is a plain colored blank, a foreground glyph with its color.
#[derive(Clone, Copy, PartialEq, Eq, Hash, Debug, Default)]
pub struct AsciiCell<C> {
    pub background: C,
    pub foreground: Option<Foreground<C>>,
}

/// Both foregrounds are absent, or both are present with colors the
/// renderer treats as equal and the same glyph.
pub open spec fn spec_fg_eq<C: Color>(a: Option<Foreground<C>>, b: Option<Foreground<C>>) -> bool {
    match a {
        None => b is None,
        Some(x) => match b {
            None => false,
            Some(y) => x.color.eq_spec(y.color) && x.character == y.character,
        },
    }
}

/// The SGR parameters a cell emits, diffed against the preceding cell: the
/// background selection unless it is unchanged, then the foreground
/// selection unless the cell has no glyph or the pair is unchanged.
pub open spec fn spec_cell_params<C: Color>(
    cell: AsciiCell<C>,
    previous: Option<AsciiCell<C>>,
) -> Seq<u8> {
    let bg = match previous {
        None => cell.background.bg_params(),
        Some(p) => if p.background.eq_spec(cell.background) {
            Seq::<u8>::empty()
        } else {
            cell.background.bg_params()
        },
    };
    let fg = match cell.foreground {
        None => Seq::<u8>::empty(),
        Some(f) => match previous {
            None => f.color.fg_params(),
            Some(p) => if spec_fg_eq(p.foreground, cell.foreground) {
                Seq::<u8>::empty()
            } else {
                f.color.fg_params()
            },
        },
    };
    bg + fg
}

/// The visible character of a cell: its glyph if a foreground is present,
/// else a space over the bare background.
pub open spec fn spec_cell_char<C: Color>(cell: AsciiCell<C>) -> char {
    match cell.foreground {
        Some(f) => f.character,
        None => ' ',
    }
}

/// Everything one cell adds to the row's text: at most one escape sequence,
/// then its visible character.
pub open spec fn spec_render_cell<C: Color>(
    cell: AsciiCell<C>,
    previous: Option<AsciiCell<C>>,
) -> Seq<char> {
    spec_sgr_sequence(spec_cell_params(cell, previous)) + seq![spec_cell_char(cell)]
}

impl<C: Color> AsciiCell<C> {
    /// Appends this cell's text to `out`, emitting only the color codes
    /// that differ from `previous` (all of them when there is none).
    pub fn fmt_with_previous(&self, out: &mut Vec<char>, previous: Option<&AsciiCell<C>>)
        requires
            cell_wf(*self),
            (match previous {
                Some(p) => cell_wf(*p),
                None => true,
            }),
        ensures
            final(out)@ == old(out)@ + spec_render_cell(*self, match previous {
                Some(p) => Some(*p),
                None => None,
            }),
    {
        let mut params: Vec<u8> = Vec::new();

        let write_background: bool = match previous {
            None => true,
            Some(p) => !p.background.same(&self.background),
        };
        if write_background {
            self.background.write_background(&mut params);
        }

        let character: char = match &self.foreground {
            None => ' ',
            Some(f) => {
                let write_foreground: bool = match previous {
                    None => true,
                    Some(p) => match &p.foreground {
                        None => true,
                        Some(pf) => !(pf.color.same(&f.color) && pf.character == f.character),
                    },
                };
                if write_foreground {
                    f.color.write_foreground(&mut params);
                }
                f.character
            },
        };

        proof {
            assert(params@ =~= spec_cell_params(*self, match previous {
                Some(p) => Some(*p),
                None => None,
            }));
        }
        write_sgr(out, &params);
        out.push(character);
        proof {
            assert(out@ =~= old(out)@ + spec_render_cell(*self, match previous {
                Some(p) => Some(*p),
                None => None,
            }));
        }
    }
}

} // verus!
