use vstd::prelude::*;
use vstd::string::StringExecFns;
use crate::text::push_char;
use crate::text::repeat_char;
use crate::text::spec_repeat;
use crate::text::pad_left;
use crate::text::pad_right;
use crate::text::spec_pad_left;
use crate::text::spec_pad_right;
use crate::text::spec_dec;
use crate::text::u128_to_string;

verus! {

/// The glyph families a chart can be drawn with.
#[derive(Debug, Clone, Copy, PartialEq, Eq, Structural)]
pub enum ChartStyle {
    Basic,
    Blocks,
    Dots,
    Lines,
}

/// How a chart is rendered: glyph style, an optional terminal color for
/// the glue layer to apply, the full-scale width in glyph positions, and
/// whether each row shows its percentage.
#[derive(Debug)]
pub struct ChartConfig {
    pub style: ChartStyle,
    pub color: Option<termcolor::Color>,
    pub width: usize,
    pub show_percentage: bool,
}

/// The labeled values with their labels taken as character sequences.
pub open spec fn data_view(data: Seq<(String, usize)>) -> Seq<(Seq<char>, usize)> {
    data.map_values(|p: (String, usize)| (p.0@, p.1))
}

/// The sum of the values of a dataset.
pub open spec fn spec_sum(data: Seq<(Seq<char>, usize)>) -> int
    decreases data.len(),
{
    if data.len() == 0 {
        0
    } else {
        spec_sum(data.drop_last()) + data.last().1
    }
}

/// Every value is at most the sum, and the sum is nonnegative.
pub proof fn lemma_sum_bounds(data: Seq<(Seq<char>, usize)>)
    ensures
        spec_sum(data) >= 0,
        forall|k: int| 0 <= k < data.len() ==> data[k].1 <= spec_sum(data),
    decreases data.len(),
{
    if data.len() > 0 {
        lemma_sum_bounds(data.drop_last());
        assert forall|k: int| 0 <= k < data.len() implies data[k].1 <= spec_sum(data) by {
            if k < data.len() - 1 {
                assert(data.drop_last()[k] == data[k]);
            }
        }
    }
}

/// The sum of `n` machine-sized values is below `n` times the machine
/// limit.
pub proof fn lemma_sum_le(data: Seq<(Seq<char>, usize)>)
    ensures
        spec_sum(data) <= data.len() * (usize::MAX as int),
    decreases data.len(),
{
    if data.len() > 0 {
        lemma_sum_le(data.drop_last());
        assert((data.len() - 1) * (usize::MAX as int) + (usize::MAX as int) == data.len() * (
        usize::MAX as int)) by (nonlinear_arith);
    }
}

/// A row's bar length: the full width scaled by the row's share of the
/// sum, rounded down.
pub open spec fn spec_bar_width(value: int, total: int, width: int) -> int {
    width * value / total
}

/// The row's percentage of the sum, rounded to the nearest whole number
/// with ties to the even neighbor.
pub open spec fn spec_percent_round(value: int, total: int) -> int {
    let q = 100 * value / total;
    let r = 100 * value % total;
    if 2 * r > total {
        q + 1
    } else if 2 * r < total {
        q
    } else if q % 2 == 0 {
        q
    } else {
        q + 1
    }
}

/// The eight-level partial glyph tables: index `k` holds the glyph for a
/// remainder of `k + 1` eighths.
pub open spec fn spec_block_glyph(k: int) -> char {
    if k == 0 {
        '▏'
    } else if k == 1 {
        '▎'
    } else if k == 2 {
        '▍'
    } else if k == 3 {
        '▌'
    } else if k == 4 {
        '▋'
    } else if k == 5 {
        '▊'
    } else if k == 6 {
        '▉'
    } else {
        '█'
    }
}

pub open spec fn spec_dot_glyph(k: int) -> char {
    if k == 0 {
        '⠄'
    } else if k == 1 {
        '⠆'
    } else if k == 2 {
        '⠖'
    } else if k == 3 {
        '⠶'
    } else if k == 4 {
        '⢶'
    } else if k == 5 {
        '⣶'
    } else if k == 6 {
        '⣾'
    } else {
        '⣿'
    }
}

/// One row's bar. Basic repeats the solid glyph; Blocks and Dots draw one
/// full glyph per eight units plus one partial glyph for the remainder;
/// Lines draws heavy lines and appends a light line unless the row is the
/// whole sum.
pub open spec fn spec_bar(style: ChartStyle, bw: int, value: int, total: int) -> Seq<char> {
    match style {
        ChartStyle::Basic => spec_repeat('█', bw),
        ChartStyle::Blocks => spec_repeat('█', bw / 8) + (if bw % 8 > 0 {
            seq![spec_block_glyph(bw % 8 - 1)]
        } else {
            Seq::empty()
        }),
        ChartStyle::Dots => spec_repeat('⣿', bw / 8) + (if bw % 8 > 0 {
            seq![spec_dot_glyph(bw % 8 - 1)]
        } else {
            Seq::empty()
        }),
        ChartStyle::Lines => spec_repeat('━', bw) + (if value < total {
            seq!['─']
        } else {
            Seq::empty()
        }),
    }
}

/// One rendered chart row: the label padded to twenty places, optionally
/// the bracketed three-place percentage, then the bar and a newline.
pub open spec fn spec_chart_line(
    label: Seq<char>,
    value: int,
    total: int,
    style: ChartStyle,
    width: int,
    show_percentage: bool,
) -> Seq<char> {
    spec_pad_right(label, 20) + (if show_percentage {
        " ["@ + spec_pad_left(spec_dec(spec_percent_round(value, total)), 3) + "%] "@
    } else {
        " "@
    }) + spec_bar(style, spec_bar_width(value, total, width), value, total) + "\n"@
}

/// The rendered rows of a dataset, against the given (whole-dataset) sum.
pub open spec fn spec_chart_rows(
    rows: Seq<(Seq<char>, usize)>,
    total: int,
    style: ChartStyle,
    width: int,
    show_percentage: bool,
) -> Seq<char>
    decreases rows.len(),
{
    if rows.len() == 0 {
        Seq::empty()
    } else {
        spec_chart_rows(rows.drop_last(), total, style, width, show_percentage)
            + spec_chart_line(
            rows.last().0,
            rows.last().1 as int,
            total,
            style,
            width,
            show_percentage,
        )
    }
}

/// The whole rendered chart of a dataset.
pub open spec fn spec_chart(
    data: Seq<(Seq<char>, usize)>,
    style: ChartStyle,
    width: int,
    show_percentage: bool,
) -> Seq<char> {
    spec_chart_rows(data, spec_sum(data), style, width, show_percentage)
}

fn block_glyph(k: u128) -> (r: char)
    requires
        k < 8,
    ensures
        r == spec_block_glyph(k as int),
{
    if k == 0 {
        '▏'
    } else if k == 1 {
        '▎'
    } else if k == 2 {
        '▍'
    } else if k == 3 {
        '▌'
    } else if k == 4 {
        '▋'
    } else if k == 5 {
        '▊'
    } else if k == 6 {
        '▉'
    } else {
        '█'
    }
}

fn dot_glyph(k: u128) -> (r: char)
    requires
        k < 8,
    ensures
        r == spec_dot_glyph(k as int),
{
    if k == 0 {
        '⠄'
    } else if k == 1 {
        '⠆'
    } else if k == 2 {
        '⠖'
    } else if k == 3 {
        '⠶'
    } else if k == 4 {
        '⢶'
    } else if k == 5 {
        '⣶'
    } else if k == 6 {
        '⣾'
    } else {
        '⣿'
    }
}

/// Renders a labeled distribution as a proportional text chart, one row
/// per pair, in the caller's order. The dataset's sum must be positive:
/// with a zero sum the percentage of a row is undefined, so callers guard
/// against empty or zero-sum datasets.
pub fn create_enhanced_chart(data: &[(String, usize)], config: ChartConfig) -> (r: String)
    requires
        spec_sum(data_view(data@)) > 0,
    ensures
        r@ == spec_chart(data_view(data@), config.style, config.width as int,
            config.show_percentage),
{
    let ghost rows = data_view(data@);
    let ghost total_spec = spec_sum(rows);
    let n = data.len();
    let mut total: u128 = 0;
    let mut k: usize = 0;
    proof {
        assert(rows.take(0) =~= Seq::<(Seq<char>, usize)>::empty());
        lemma_sum_le(rows);
        lemma_sum_bounds(rows);
    }
    while k < n
        invariant
            k <= n,
            n == data@.len(),
            rows == data_view(data@),
            rows.len() == n,
            total == spec_sum(rows.take(k as int)),
            spec_sum(rows.take(k as int)) <= (k as int) * (usize::MAX as int),
        decreases n - k,
    {
        proof {
            assert(rows.take(k + 1).drop_last() =~= rows.take(k as int));
            assert(rows.take(k + 1).last() == rows[k as int]);
            assert(rows[k as int].1 == data@[k as int].1);
            assert((k as int) * (usize::MAX as int) + (usize::MAX as int) == ((k + 1) as int) * (
            usize::MAX as int)) by (nonlinear_arith);
            assert((k as int) * (usize::MAX as int) <= (u128::MAX as int) - (usize::MAX as int))
                by (nonlinear_arith)
                requires
                    0 <= k as int <= usize::MAX as int,
            ;
        }
        let v = data[k].1;
        total = total + (v as u128);
        k += 1;
    }
    proof {
        assert(rows.take(n as int) =~= rows);
    }
    let mut chart = String::new();
    let mut i: usize = 0;
    proof {
        assert(chart@ =~= spec_chart_rows(rows.take(0), total_spec, config.style,
            config.width as int, config.show_percentage));
    }
    while i < n
        invariant
            i <= n,
            n == data@.len(),
            rows == data_view(data@),
            rows.len() == n,
            total == spec_sum(rows),
            total_spec == spec_sum(rows),
            total > 0,
            chart@ == spec_chart_rows(rows.take(i as int), total_spec, config.style,
                config.width as int, config.show_percentage),
        decreases n - i,
    {
        proof {
            assert(rows.take(i + 1).drop_last() =~= rows.take(i as int));
            assert(rows.take(i + 1).last() == rows[i as int]);
            assert(rows[i as int] == (data@[i as int].0@, data@[i as int].1));
            lemma_sum_bounds(rows);
            assert(rows[i as int].1 <= spec_sum(rows));
        }
        let label = &data[i].0;
        let value = data[i].1;
        let ghost gv = value as int;
        let ghost gt = total_spec;
        let ghost gw = config.width as int;
        let v128 = value as u128;
        let w128 = config.width as u128;
        proof {
            assert((w128 as int) * (v128 as int) <= u128::MAX as int) by (nonlinear_arith)
                requires
                    0 <= w128 as int <= 0xffff_ffff_ffff_ffffu64 as int,
                    0 <= v128 as int <= 0xffff_ffff_ffff_ffffu64 as int,
            ;
            assert((w128 as int) * (v128 as int) / (total as int) <= w128 as int)
                by (nonlinear_arith)
                requires
                    total as int > 0,
                    0 <= v128 as int <= total as int,
                    w128 as int >= 0,
            ;
        }
        let bw128 = w128 * v128 / total;
        let bw = bw128 as usize;
        proof {
            assert(bw as int == spec_bar_width(gv, gt, gw));
        }
        let mut line = pad_right(label.as_str(), 20);
        if config.show_percentage {
            line.append(" [");
            proof {
                assert(100 * (v128 as int) <= u128::MAX as int) by (nonlinear_arith)
                    requires
                        0 <= v128 as int <= 0xffff_ffff_ffff_ffffu64 as int,
                ;
            }
            let q128 = 100u128 * v128 / total;
            let r128 = 100u128 * v128 % total;
            let diff = total - r128;
            let rounded: u128 = if r128 > diff {
                q128 + 1
            } else if r128 < diff {
                q128
            } else if q128 % 2 == 0 {
                q128
            } else {
                q128 + 1
            };
            proof {
                assert((q128 as int) <= 100) by (nonlinear_arith)
                    requires
                        total as int > 0,
                        0 <= v128 as int <= total as int,
                        q128 as int == 100 * (v128 as int) / (total as int),
                ;
                assert(rounded as int == spec_percent_round(gv, gt));
            }
            let pct = u128_to_string(rounded);
            let padded = pad_left(pct.as_str(), 3);
            line.append(padded.as_str());
            line.append("%] ");
        } else {
            line.append(" ");
        }
        let bar: String = match config.style {
            ChartStyle::Basic => repeat_char('█', bw),
            ChartStyle::Blocks => {
                let mut b = repeat_char('█', bw / 8);
                if bw % 8 > 0 {
                    let g = block_glyph((bw % 8 - 1) as u128);
                    push_char(&mut b, g);
                } else {
                    proof {
                        assert(b@ + Seq::<char>::empty() =~= b@);
                    }
                }
                proof {
                    assert(b@ =~= spec_bar(config.style, bw as int, gv, gt));
                }
                b
            },
            ChartStyle::Dots => {
                let mut b = repeat_char('⣿', bw / 8);
                if bw % 8 > 0 {
                    let g = dot_glyph((bw % 8 - 1) as u128);
                    push_char(&mut b, g);
                } else {
                    proof {
                        assert(b@ + Seq::<char>::empty() =~= b@);
                    }
                }
                proof {
                    assert(b@ =~= spec_bar(config.style, bw as int, gv, gt));
                }
                b
            },
            ChartStyle::Lines => {
                let mut b = repeat_char('━', bw);
                if (value as u128) < total {
                    push_char(&mut b, '─');
                } else {
                    proof {
                        assert(b@ + Seq::<char>::empty() =~= b@);
                    }
                }
                proof {
                    assert(b@ =~= spec_bar(config.style, bw as int, gv, gt));
                }
                b
            },
        };
        line.append(bar.as_str());
        line.append("\n");
        chart.append(line.as_str());
        proof {
            assert(line@ =~= spec_chart_line(rows[i as int].0, gv, gt, config.style, gw,
                config.show_percentage));
            assert(chart@ =~= spec_chart_rows(rows.take(i + 1), total_spec, config.style, gw,
                config.show_percentage));
        }
        i += 1;
    }
    proof {
        assert(rows.take(n as int) =~= rows);
    }
    chart
}

} // verus!
