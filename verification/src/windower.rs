use vstd::prelude::*;

use vstd::arithmetic::div_mod::{
    lemma_basic_div, lemma_div_is_ordered_by_denominator, lemma_div_minus_one,
    lemma_div_pos_is_pos, lemma_fundamental_div_mod, lemma_mod_bound,
};
use vstd::arithmetic::mul::lemma_mul_inequality;

use crate::char_line::{CharCode, CharCodeStyle, CharLine};
use crate::utils::{is_wide_char, is_wide_char_spec};

verus! {

/// An axis-aligned rectangle in device units.
#[derive(Clone, Copy, Debug, PartialEq, Eq)]
pub struct ScreenRect {
    pub x: u32,
    pub y: u32,
    pub w: u32,
    pub h: u32,
}

/// One render instruction: draw this character, in this style, filling this
/// cell rectangle.
#[derive(Clone, Copy, Debug, PartialEq, Eq)]
pub struct RenderInstruction {
    pub rect: ScreenRect,
    pub c: char,
    pub style: CharCodeStyle,
}

/// The width of the cell a character occupies: wide for CJK, thin otherwise.
pub open spec fn cell_width_spec(c: char, wide_width: u32, thin_width: u32) -> u32 {
    if is_wide_char_spec(c) {
        wide_width
    } else {
        thin_width
    }
}

/// How many whole rows of the given cell height fit in a viewport height.
pub open spec fn visible_rows_spec(viewport_h: u32, cell_height: u32) -> int {
    viewport_h as int / cell_height as int
}

/// The index of the first visible line: the window is bottom-anchored, so
/// with more lines than rows only the trailing `rows` lines are shown.
pub open spec fn window_start_spec(line_count: int, rows: int) -> int {
    if line_count > rows {
        line_count - rows
    } else {
        0
    }
}

/// The instructions of one row: cells left to right, each placed after the
/// width already consumed, up to but not including the first cell that would
/// cross the remaining budget; everything from there on is dropped, never
/// wrapped.
pub open spec fn row_instructions_spec(
    cells: Seq<CharCode>,
    x: u32,
    y: u32,
    budget: u32,
    cell_height: u32,
    wide_width: u32,
    thin_width: u32,
) -> Seq<RenderInstruction>
    decreases cells.len(),
{
    if cells.len() == 0 {
        Seq::<RenderInstruction>::empty()
    } else {
        let w = cell_width_spec(cells[0].c, wide_width, thin_width);
        if w > budget {
            Seq::<RenderInstruction>::empty()
        } else {
            seq![
                RenderInstruction {
                    rect: ScreenRect { x, y, w, h: cell_height },
                    c: cells[0].c,
                    style: cells[0].style,
                },
            ] + row_instructions_spec(
                cells.drop_first(),
                (x + w) as u32,
                y,
                (budget - w) as u32,
                cell_height,
                wide_width,
                thin_width,
            )
        }
    }
}

/// The instructions of a window of lines, top row first, each row one cell
/// height below the previous one. An empty line contributes nothing but
/// still occupies its row.
pub open spec fn rows_instructions_spec(
    window: Seq<Seq<CharCode>>,
    x: u32,
    y: u32,
    budget: u32,
    cell_height: u32,
    wide_width: u32,
    thin_width: u32,
) -> Seq<RenderInstruction>
    decreases window.len(),
{
    if window.len() == 0 {
        Seq::<RenderInstruction>::empty()
    } else {
        row_instructions_spec(window[0], x, y, budget, cell_height, wide_width, thin_width)
            + rows_instructions_spec(
            window.drop_first(),
            x,
            (y + cell_height) as u32,
            budget,
            cell_height,
            wide_width,
            thin_width,
        )
    }
}

/// The lines of a buffer slice as a sequence of sequences of cells.
pub open spec fn lines_view_spec(lines: Seq<CharLine>) -> Seq<Seq<CharCode>> {
    lines.map_values(|line: CharLine| line@)
}

/// Everything the windower paints for a buffer and a viewport: the trailing
/// window of lines that fits the viewport height, each line clipped to the
/// viewport width.
pub open spec fn render_spec(
    lines: Seq<Seq<CharCode>>,
    viewport: ScreenRect,
    cell_height: u32,
    wide_width: u32,
    thin_width: u32,
) -> Seq<RenderInstruction> {
    let rows = visible_rows_spec(viewport.h, cell_height);
    let start = window_start_spec(lines.len() as int, rows);
    rows_instructions_spec(
        lines.skip(start),
        viewport.x,
        viewport.y,
        viewport.w,
        cell_height,
        wide_width,
        thin_width,
    )
}

/// Lay out one line left to right from `x`, stopping at the first cell that
/// would cross the width budget.
fn render_line(
    cells: &[CharCode],
    x: u32,
    y: u32,
    budget: u32,
    cell_height: u32,
    wide_width: u32,
    thin_width: u32,
) -> (row: Vec<RenderInstruction>)
    requires
        x + budget <= u32::MAX,
    ensures
        row@ == row_instructions_spec(
            cells@,
            x,
            y,
            budget,
            cell_height,
            wide_width,
            thin_width,
        ),
{
    let ghost row_goal = row_instructions_spec(
        cells@,
        x,
        y,
        budget,
        cell_height,
        wide_width,
        thin_width,
    );
    let mut row: Vec<RenderInstruction> = Vec::new();
    let mut used: u32 = 0;
    let mut j: usize = 0;
    proof {
        assert(cells@.skip(0) =~= cells@);
        assert(row@ + row_instructions_spec(
            cells@,
            x,
            y,
            budget,
            cell_height,
            wide_width,
            thin_width,
        ) =~= row_goal);
    }
    while j < cells.len()
        invariant
            j <= cells@.len(),
            used <= budget,
            x + budget <= u32::MAX,
            row_goal == row_instructions_spec(
                cells@,
                x,
                y,
                budget,
                cell_height,
                wide_width,
                thin_width,
            ),
            row_goal == row@ + row_instructions_spec(
                cells@.skip(j as int),
                (x + used) as u32,
                y,
                (budget - used) as u32,
                cell_height,
                wide_width,
                thin_width,
            ),
        decreases cells@.len() - j,
    {
        let cc = &cells[j];
        let char_width: u32 = if is_wide_char(cc.c) {
            wide_width
        } else {
            thin_width
        };
        proof {
            assert(cells@.skip(j as int)[0] == cells@[j as int]);
            assert(cells@.skip(j as int).drop_first() =~= cells@.skip(j as int + 1));
        }
        if char_width > budget - used {
            proof {
                assert(row_instructions_spec(
                    cells@.skip(j as int),
                    (x + used) as u32,
                    y,
                    (budget - used) as u32,
                    cell_height,
                    wide_width,
                    thin_width,
                ) =~= Seq::<RenderInstruction>::empty());
                assert(row_goal =~= row@);
            }
            return row;
        }
        let ghost row_prev = row@;
        let ghost used_prev = used;
        let rect = ScreenRect { x: x + used, y, w: char_width, h: cell_height };
        let instruction = RenderInstruction { rect, c: cc.c, style: cc.style };
        row.push(instruction);
        used = used + char_width;
        j = j + 1;
        proof {
            assert(row@ =~= row_prev + seq![instruction]);
            assert((row_prev + seq![instruction]) + row_instructions_spec(
                cells@.skip(j as int),
                (x + used) as u32,
                y,
                (budget - used) as u32,
                cell_height,
                wide_width,
                thin_width,
            ) =~= row_prev + (seq![instruction] + row_instructions_spec(
                cells@.skip(j as int),
                (x + used) as u32,
                y,
                (budget - used) as u32,
                cell_height,
                wide_width,
                thin_width,
            )));
        }
    }
    proof {
        assert(cells@.skip(cells@.len() as int) =~= Seq::<CharCode>::empty());
        assert(row_goal =~= row@);
    }
    row
}

/// The viewport windower: a pure query over the buffer snapshot. It selects
/// the trailing window of lines that fits the viewport height (bottom-
/// anchored scrolling) and walks each line left to right, emitting one cell
/// rectangle per character until the line would cross the viewport width.
pub fn render(
    lines: &[CharLine],
    viewport: ScreenRect,
    cell_height: u32,
    wide_width: u32,
    thin_width: u32,
) -> (instructions: Vec<RenderInstruction>)
    requires
        cell_height > 0,
        viewport.x + viewport.w <= u32::MAX,
        viewport.y + viewport.h <= u32::MAX,
    ensures
        instructions@ == render_spec(
            lines_view_spec(lines@),
            viewport,
            cell_height,
            wide_width,
            thin_width,
        ),
{
    let ghost all = lines_view_spec(lines@);
    let ghost goal = render_spec(all, viewport, cell_height, wide_width, thin_width);
    let rows: u32 = viewport.h / cell_height;
    let line_len: usize = lines.len();
    let start: usize = if line_len > rows as usize {
        line_len - rows as usize
    } else {
        0
    };
    proof {
        lemma_fundamental_div_mod(viewport.h as int, cell_height as int);
        lemma_mod_bound(viewport.h as int, cell_height as int);
        assert(rows as int * cell_height as int <= viewport.h as int);
        assert(start as int == window_start_spec(all.len() as int, rows as int));
    }
    let mut out: Vec<RenderInstruction> = Vec::new();
    let mut y: u32 = viewport.y;
    let mut i: usize = start;
    proof {
        assert(out@ + rows_instructions_spec(
            all.skip(start as int),
            viewport.x,
            viewport.y,
            viewport.w,
            cell_height,
            wide_width,
            thin_width,
        ) =~= goal);
    }
    while i < line_len
        invariant
            start <= i <= line_len,
            line_len == lines@.len(),
            all == lines_view_spec(lines@),
            all.len() == line_len,
            cell_height > 0,
            viewport.x + viewport.w <= u32::MAX,
            viewport.y + viewport.h <= u32::MAX,
            rows as int * cell_height as int <= viewport.h as int,
            start as int == window_start_spec(all.len() as int, rows as int),
            i as int - start as int <= rows as int,
            y as int == viewport.y + (i as int - start as int) * cell_height,
            goal == out@ + rows_instructions_spec(
                all.skip(i as int),
                viewport.x,
                y,
                viewport.w,
                cell_height,
                wide_width,
                thin_width,
            ),
        decreases line_len - i,
    {
        proof {
            assert((i as int - start as int) < rows as int);
            lemma_mul_inequality(i as int - start as int + 1, rows as int, cell_height as int);
            assert((i as int - start as int + 1) * cell_height == (i as int - start as int)
                * cell_height + cell_height) by (nonlinear_arith);
            assert(y as int + cell_height as int <= viewport.y as int + viewport.h as int);
        }
        let line = &lines[i];
        let cells: &[CharCode] = line.char_codes();
        proof {
            assert(all[i as int] == lines@[i as int]@);
        }
        let mut row = render_line(
            cells,
            viewport.x,
            y,
            viewport.w,
            cell_height,
            wide_width,
            thin_width,
        );
        let ghost out_prev = out@;
        let ghost row_seq = row@;
        out.append(&mut row);
        proof {
            assert(all.skip(i as int)[0] == all[i as int]);
            assert(all.skip(i as int).drop_first() =~= all.skip(i as int + 1));
            assert((out_prev + row_seq) + rows_instructions_spec(
                all.skip(i as int + 1),
                viewport.x,
                (y + cell_height) as u32,
                viewport.w,
                cell_height,
                wide_width,
                thin_width,
            ) =~= out_prev + (row_seq + rows_instructions_spec(
                all.skip(i as int + 1),
                viewport.x,
                (y + cell_height) as u32,
                viewport.w,
                cell_height,
                wide_width,
                thin_width,
            )));
        }
        y = y + cell_height;
        i = i + 1;
    }
    proof {
        assert(all.skip(line_len as int) =~= Seq::<Seq<CharCode>>::empty());
        assert(goal =~= out@);
    }
    out
}

/// Bottom-anchored windowing law: the windower renders exactly the trailing
/// window of lines. With more lines than visible rows the window is lines
/// [N - R, N - 1]; with at most as many it is the whole buffer from line 0.
pub proof fn lemma_bottom_anchored_window(
    lines: Seq<Seq<CharCode>>,
    viewport: ScreenRect,
    cell_height: u32,
    wide_width: u32,
    thin_width: u32,
)
    requires
        cell_height > 0,
    ensures
        ({
            let n = lines.len() as int;
            let rows = visible_rows_spec(viewport.h, cell_height);
            let start = window_start_spec(n, rows);
            let window = lines.skip(start);
            &&& render_spec(lines, viewport, cell_height, wide_width, thin_width)
                == rows_instructions_spec(
                window,
                viewport.x,
                viewport.y,
                viewport.w,
                cell_height,
                wide_width,
                thin_width,
            )
            &&& rows < n ==> start == n - rows
            &&& n <= rows ==> start == 0
            &&& window.len() == vstd::math::min(n, rows)
            &&& forall|k: int| 0 <= k < window.len() ==> window[k] == lines[start + k]
        }),
{
    lemma_div_pos_is_pos(viewport.h as int, cell_height as int);
}

/// Growing the buffer never breaks the start-index formula: appending one
/// line moves the window start monotonically, and the formula keeps its
/// closed form for every buffer length and row count.
pub proof fn lemma_window_start_append(line_count: int, rows: int)
    requires
        line_count >= 0,
        rows >= 0,
    ensures
        window_start_spec(line_count, rows) <= window_start_spec(line_count + 1, rows),
        window_start_spec(line_count + 1, rows) == if line_count + 1 > rows {
            line_count + 1 - rows
        } else {
            0
        },
{
}

/// The number of cells a row of uniform cell width shows: every cell of the
/// line up to the number of whole widths that fit the budget.
proof fn lemma_uniform_row_count(
    cells: Seq<CharCode>,
    x: u32,
    y: u32,
    budget: u32,
    cell_height: u32,
    wide_width: u32,
    thin_width: u32,
    width: u32,
)
    requires
        width > 0,
        forall|k: int|
            0 <= k < cells.len() ==> cell_width_spec(
                (#[trigger] cells[k]).c,
                wide_width,
                thin_width,
            ) == width,
    ensures
        row_instructions_spec(cells, x, y, budget, cell_height, wide_width, thin_width).len()
            == vstd::math::min(cells.len() as int, budget as int / width as int),
    decreases cells.len(),
{
    lemma_div_pos_is_pos(budget as int, width as int);
    if cells.len() == 0 {
    } else {
        let w = cell_width_spec(cells[0].c, wide_width, thin_width);
        assert(w == width);
        if w > budget {
            lemma_basic_div(budget as int, width as int);
        } else {
            assert(forall|k: int|
                0 <= k < cells.drop_first().len() ==> cell_width_spec(
                    (#[trigger] cells.drop_first()[k]).c,
                    wide_width,
                    thin_width,
                ) == width);
            lemma_uniform_row_count(
                cells.drop_first(),
                (x + w) as u32,
                y,
                (budget - w) as u32,
                cell_height,
                wide_width,
                thin_width,
                width,
            );
            lemma_div_minus_one(budget as int, width as int);
            assert((budget - width) as int / width as int == budget as int / width as int - 1);
        }
    }
}

/// Wide-character accounting: a line of wide (CJK) characters shows
/// min(k, W / wideWidth) cells in a viewport of width W, a line of thin
/// characters of the same length shows min(k, W / thinWidth), and with
/// thinWidth <= wideWidth the thin line never shows fewer cells.
pub proof fn lemma_wide_thin_accounting(
    wide_cells: Seq<CharCode>,
    thin_cells: Seq<CharCode>,
    x: u32,
    y: u32,
    budget: u32,
    cell_height: u32,
    wide_width: u32,
    thin_width: u32,
)
    requires
        0 < thin_width,
        0 < wide_width,
        wide_cells.len() == thin_cells.len(),
        forall|k: int| 0 <= k < wide_cells.len() ==> is_wide_char_spec((#[trigger] wide_cells[k]).c),
        forall|k: int|
            0 <= k < thin_cells.len() ==> !is_wide_char_spec((#[trigger] thin_cells[k]).c),
    ensures
        row_instructions_spec(wide_cells, x, y, budget, cell_height, wide_width, thin_width).len()
            == vstd::math::min(wide_cells.len() as int, budget as int / wide_width as int),
        row_instructions_spec(thin_cells, x, y, budget, cell_height, wide_width, thin_width).len()
            == vstd::math::min(thin_cells.len() as int, budget as int / thin_width as int),
        thin_width <= wide_width ==> row_instructions_spec(
            thin_cells,
            x,
            y,
            budget,
            cell_height,
            wide_width,
            thin_width,
        ).len() >= row_instructions_spec(
            wide_cells,
            x,
            y,
            budget,
            cell_height,
            wide_width,
            thin_width,
        ).len(),
{
    lemma_uniform_row_count(
        wide_cells,
        x,
        y,
        budget,
        cell_height,
        wide_width,
        thin_width,
        wide_width,
    );
    lemma_uniform_row_count(
        thin_cells,
        x,
        y,
        budget,
        cell_height,
        wide_width,
        thin_width,
        thin_width,
    );
    if thin_width <= wide_width {
        lemma_div_is_ordered_by_denominator(
            budget as int,
            thin_width as int,
            wide_width as int,
        );
    }
}

} // verus!
