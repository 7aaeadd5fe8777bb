use vstd::prelude::*;

verus! {

// Coefficients are kept in thousandths: 1.07 is 1070.

/// The MCP/CPP table: (micron, coefficient in thousandths).
pub open spec fn mcp_cpp_table() -> Seq<(u32, u64)> {
    seq![
        (20u32, 1070u64),
        (25, 1300),
        (30, 1600),
        (35, 2000),
        (40, 2150),
        (45, 2700),
        (50, 2800),
        (60, 3200),
    ]
}

/// The JEM table.
pub open spec fn jem_table() -> Seq<(u32, u64)> {
    seq![(25u32, 1000u64), (30, 1500)]
}

/// The PE table.
pub open spec fn pe_table() -> Seq<(u32, u64)> {
    seq![
        (30u32, 2000u64),
        (35, 2300),
        (40, 2600),
        (45, 3000),
        (50, 3300),
        (55, 3600),
        (60, 4000),
        (65, 4300),
        (70, 4600),
        (75, 5000),
        (80, 5300),
        (85, 5600),
        (90, 6000),
    ]
}

/// A table whose microns rise strictly and whose coefficients never fall.
pub open spec fn table_wf(t: Seq<(u32, u64)>) -> bool {
    &&& forall|i: int| 0 <= i < t.len() - 1 ==> #[trigger] t[i].0 < t[i + 1].0
    &&& forall|i: int| 0 <= i < t.len() - 1 ==> #[trigger] t[i].1 <= t[i + 1].1
    &&& forall|i: int| 0 <= i < t.len() ==> #[trigger] t[i].1 <= 1_000_000
}

/// The coefficient that a table gives for a micron: the listed value at a
/// listed micron, the straight line between two neighbouring listed microns,
/// and nothing outside the table.
pub open spec fn interp(m: u32, t: Seq<(u32, u64)>) -> Option<u64>
    decreases t.len(),
{
    if t.len() == 0 {
        None
    } else if t.len() == 1 {
        if t[0].0 == m {
            Some(t[0].1)
        } else {
            None
        }
    } else if m == t[0].0 {
        Some(t[0].1)
    } else if t[0].0 < m < t[1].0 {
        Some(
            (t[0].1 + (t[1].1 - t[0].1) * (m - t[0].0) as int / (t[1].0 - t[0].0) as int) as u64,
        )
    } else {
        interp(m, t.drop_first())
    }
}

/// The straight line from `(m0, v0)` to `(m1, v1)` at `m`, rounded down:
/// it lies between `v0` and `v1`.
fn line_at(m: u32, m0: u32, v0: u64, m1: u32, v1: u64) -> (r: u64)
    requires
        m0 < m < m1,
    ensures
        r == (v0 + (v1 - v0) * (m - m0) as int / (m1 - m0) as int) as u64,
        (v0 + (v1 - v0) * (m - m0) as int / (m1 - m0) as int) == r as int,
{
    let gap = (m - m0) as i128;
    let span = (m1 - m0) as i128;
    let diff = (v1 as i128) - (v0 as i128);
    assert(-(0x1_0000_0000_0000_0000 * 0x1_0000_0000) <= diff * gap <= 0x1_0000_0000_0000_0000 * 0x1_0000_0000)
        by (nonlinear_arith)
        requires
            -0x1_0000_0000_0000_0000 <= diff <= 0x1_0000_0000_0000_0000,
            0 < gap <= 0x1_0000_0000,
    ;
    let num = diff * gap;
    // Rounded down, also for a falling line.
    let q: i128 = if num >= 0 {
        num / span
    } else {
        -((-num + span - 1) / span)
    };
    assert(q == num as int / span as int) by (nonlinear_arith)
        requires
            span > 0,
            num >= 0 ==> q as int == num as int / span as int,
            num < 0 ==> q as int == -((-(num as int) + span as int - 1) / (span as int)),
    ;
    assert(0 < gap < span);
    assert(diff >= 0 ==> 0 <= q <= diff) by (nonlinear_arith)
        requires
            0 < gap < span,
            num == diff * gap,
            q == num as int / span as int,
    ;
    assert(diff < 0 ==> diff <= q <= 0) by (nonlinear_arith)
        requires
            0 < gap < span,
            num == diff * gap,
            q == num as int / span as int,
    ;
    let v = (v0 as i128) + q;
    v as u64
}

pub fn interpolate(micron: u32, table: &Vec<(u32, u64)>) -> (r: Option<u64>)
    ensures
        r == interp(micron, table@),
{
    let n = table.len();
    if n == 0 {
        return None;
    }
    let mut i: usize = 0;
    assert(table@.skip(0) =~= table@);
    while i + 1 < n
        invariant
            i < n == table.len(),
            interp(micron, table@) == interp(micron, table@.skip(i as int)),
        decreases n - i,
    {
        let (lm, lv) = table[i];
        let (rm, rv) = table[i + 1];
        let ghost t = table@.skip(i as int);
        assert(t[0] == table@[i as int] && t[1] == table@[i + 1]);
        if micron == lm {
            return Some(lv);
        }
        if micron > lm && micron < rm {
            return Some(line_at(micron, lm, lv, rm, rv));
        }
        assert(t.drop_first() =~= table@.skip(i + 1));
        i = i + 1;
    }
    assert(table@.skip(i as int).len() == 1);
    let (lm, lv) = table[i];
    if lm == micron {
        Some(lv)
    } else {
        None
    }
}

pub fn mcp_cpp(micron: u32) -> (r: Option<u64>)
    ensures
        r == interp(micron, mcp_cpp_table()),
{
    let t: Vec<(u32, u64)> = vec![
        (20, 1070),
        (25, 1300),
        (30, 1600),
        (35, 2000),
        (40, 2150),
        (45, 2700),
        (50, 2800),
        (60, 3200),
    ];
    assert(t@ =~= mcp_cpp_table());
    interpolate(micron, &t)
}

pub fn jem(micron: u32) -> (r: Option<u64>)
    ensures
        r == interp(micron, jem_table()),
{
    let t: Vec<(u32, u64)> = vec![(25, 1000), (30, 1500)];
    assert(t@ =~= jem_table());
    interpolate(micron, &t)
}

pub fn pe(micron: u32) -> (r: Option<u64>)
    ensures
        r == interp(micron, pe_table()),
{
    let t: Vec<(u32, u64)> = vec![
        (30, 2000),
        (35, 2300),
        (40, 2600),
        (45, 3000),
        (50, 3300),
        (55, 3600),
        (60, 4000),
        (65, 4300),
        (70, 4600),
        (75, 5000),
        (80, 5300),
        (85, 5600),
        (90, 6000),
    ];
    assert(t@ =~= pe_table());
    interpolate(micron, &t)
}

pub proof fn lemma_interp_bounded(m: u32, t: Seq<(u32, u64)>)
    requires
        table_wf(t),
    ensures
        interp(m, t) matches Some(v) ==> v <= 1_000_000,
    decreases t.len(),
{
    if t.len() >= 2 && m != t[0].0 {
        if t[0].0 < m < t[1].0 {
            let d = (t[1].1 - t[0].1) as int;
            let x = (m - t[0].0) as int;
            let g = (t[1].0 - t[0].0) as int;
            assert(0 <= d && 0 < x < g);
            assert(d * x / g <= d) by (nonlinear_arith)
                requires
                    0 <= d,
                    0 < x < g,
            ;
            assert(d * x / g >= 0) by (nonlinear_arith)
                requires
                    0 <= d,
                    0 < x < g,
            ;
        } else {
            assert(table_wf(t.drop_first())) by {
                assert forall|i: int| 0 <= i < t.drop_first().len() - 1 implies #[trigger] t.drop_first()[i].0 < t.drop_first()[i + 1].0 by {
                    assert(t[i + 1].0 < t[i + 2].0);
                }
                assert forall|i: int| 0 <= i < t.drop_first().len() - 1 implies #[trigger] t.drop_first()[i].1 <= t.drop_first()[i + 1].1 by {
                    assert(t[i + 1].1 <= t[i + 2].1);
                }
                assert forall|i: int| 0 <= i < t.drop_first().len() implies #[trigger] t.drop_first()[i].1 <= 1_000_000 by {
                    assert(t[i + 1].1 <= 1_000_000);
                }
            }
            lemma_interp_bounded(m, t.drop_first());
        }
    }
}

pub proof fn lemma_tables_wf()
    ensures
        table_wf(mcp_cpp_table()),
        table_wf(jem_table()),
        table_wf(pe_table()),
{
}

pub proof fn lemma_tables_bounded(m: u32)
    ensures
        interp(m, mcp_cpp_table()) matches Some(v) ==> v <= 1_000_000,
        interp(m, jem_table()) matches Some(v) ==> v <= 1_000_000,
        interp(m, pe_table()) matches Some(v) ==> v <= 1_000_000,
{
    lemma_tables_wf();
    lemma_interp_bounded(m, mcp_cpp_table());
    lemma_interp_bounded(m, jem_table());
    lemma_interp_bounded(m, pe_table());
}


/// The microns of a table rise strictly.
pub open spec fn microns_rise(t: Seq<(u32, u64)>) -> bool {
    forall|i: int, j: int| 0 <= i < j < t.len() ==> #[trigger] t[i].0 < #[trigger] t[j].0
}

/// The straight line between the table's entries `i` and `i + 1` at micron
/// `m`, rounded down.
pub open spec fn line_between(t: Seq<(u32, u64)>, i: int, m: u32) -> u64 {
    (t[i].1 + (t[i + 1].1 - t[i].1) * (m - t[i].0) as int / (t[i + 1].0 - t[i].0) as int) as u64
}

/// On a table whose microns rise strictly, a micron has a coefficient exactly
/// when it lies between the first and the last listed micron; a listed
/// micron gets its listed value, and one strictly between two neighbouring
/// listed microns gets the straight line between them.
pub proof fn lemma_interp_rule(m: u32, t: Seq<(u32, u64)>)
    requires
        t.len() >= 1,
        microns_rise(t),
    ensures
        interp(m, t) is Some <==> t[0].0 <= m <= t[t.len() - 1].0,
        forall|i: int| 0 <= i < t.len() && m == #[trigger] t[i].0 ==> interp(m, t) == Some(t[i].1),
        forall|i: int|
            0 <= i < t.len() - 1 && #[trigger] t[i].0 < m < t[i + 1].0 ==> interp(m, t) == Some(
                line_between(t, i, m),
            ),
    decreases t.len(),
{
    if t.len() > 1 {
        if m == t[0].0 {
            assert forall|i: int| 0 <= i < t.len() && m == #[trigger] t[i].0 implies interp(m, t)
                == Some(t[i].1) by {
                if i > 0 {
                    assert(t[0].0 < t[i].0);
                }
            }
            assert forall|i: int| 0 <= i < t.len() - 1 && #[trigger] t[i].0 < m < t[i + 1].0 implies interp(
                m,
                t,
            ) == Some(line_between(t, i, m)) by {
                if i > 0 {
                    assert(t[0].0 < t[i].0);
                }
            }
            assert(t[0].0 < t[t.len() - 1].0);
        } else if t[0].0 < m < t[1].0 {
            assert forall|i: int| 0 <= i < t.len() && m == #[trigger] t[i].0 implies interp(m, t)
                == Some(t[i].1) by {
                if i > 1 {
                    assert(t[1].0 < t[i].0);
                }
            }
            assert forall|i: int| 0 <= i < t.len() - 1 && #[trigger] t[i].0 < m < t[i + 1].0 implies interp(
                m,
                t,
            ) == Some(line_between(t, i, m)) by {
                if i > 1 {
                    assert(t[1].0 < t[i].0);
                }
            }
            assert(t[1].0 <= t[t.len() - 1].0) by {
                if t.len() > 2 {
                    assert(t[1].0 < t[t.len() - 1].0);
                }
            }
        } else {
            let s = t.drop_first();
            assert(microns_rise(s)) by {
                assert forall|i: int, j: int| 0 <= i < j < s.len() implies #[trigger] s[i].0
                    < #[trigger] s[j].0 by {
                    assert(s[i] == t[i + 1] && s[j] == t[j + 1]);
                }
            }
            lemma_interp_rule(m, s);
            assert(s[s.len() - 1] == t[t.len() - 1]);
            assert(s[0] == t[1]);
            assert(t[0].0 < t[1].0);
            assert forall|i: int| 0 <= i < t.len() && m == #[trigger] t[i].0 implies interp(m, t)
                == Some(t[i].1) by {
                if i > 0 {
                    assert(s[i - 1] == t[i]);
                }
            }
            assert forall|i: int| 0 <= i < t.len() - 1 && #[trigger] t[i].0 < m < t[i + 1].0 implies interp(
                m,
                t,
            ) == Some(line_between(t, i, m)) by {
                if i > 0 {
                    assert(s[i - 1] == t[i] && s[i] == t[i + 1]);
                    assert(line_between(s, i - 1, m) == line_between(t, i, m));
                } else {
                    assert(false);
                }
            }
        }
    }
}

/// The three tables have strictly rising microns.
pub proof fn lemma_tables_rise()
    ensures
        microns_rise(mcp_cpp_table()),
        microns_rise(jem_table()),
        microns_rise(pe_table()),
{
    lemma_tables_wf();
    lemma_wf_rises(mcp_cpp_table());
    lemma_wf_rises(jem_table());
    lemma_wf_rises(pe_table());
}

proof fn lemma_wf_rises(t: Seq<(u32, u64)>)
    requires
        table_wf(t),
    ensures
        microns_rise(t),
{
    assert forall|i: int, j: int| 0 <= i < j < t.len() implies #[trigger] t[i].0 < #[trigger] t[j].0 by {
        lemma_wf_rises_from(t, i, j);
    }
}

proof fn lemma_wf_rises_from(t: Seq<(u32, u64)>, i: int, j: int)
    requires
        table_wf(t),
        0 <= i < j < t.len(),
    ensures
        t[i].0 < t[j].0,
    decreases j - i,
{
    assert(t[j - 1].0 < t[j].0);
    if i < j - 1 {
        lemma_wf_rises_from(t, i, j - 1);
    }
}

} // verus!
