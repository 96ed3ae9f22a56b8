//! The column plans of the price normalisation of a stored quote table, and
//! where a normalised file is written.
//!
//! The price adjustment follows qlib's collector: with an "adjclose" column
//! a factor adjclose / close is added, prices are multiplied by it and the
//! volume divided by it; the normalisation then divides the prices, the
//! money and the factor by the first day's close and multiplies the volume
//! by it.

use vstd::prelude::*;

use vstd::string::StrSliceExecFns;

use crate::util::{is_text, strings_view};

verus! {

/// What is done to one column.
#[derive(Debug, Clone, Copy, PartialEq, Eq, Structural)]
pub enum ColumnOp {
    /// Taken as it is.
    Keep,
    /// Multiplied by the scale (the factor, or the first close).
    Multiply,
    /// Divided by the scale (the factor, or the first close).
    Divide,
}

/// How a table is price-adjusted.
#[derive(Debug, PartialEq, Eq)]
pub enum AdjustPlan {
    /// A "factor" column adjclose / close is appended to the columns, and
    /// `ops[i]` is applied to the i-th of the columns so extended.
    Adjust { ops: Vec<ColumnOp> },
    /// The table has no "adjclose": the missing values of its "factor"
    /// column become 1 and the columns are kept.
    FillFactor,
}

pub open spec fn is_price(c: Seq<char>) -> bool {
    c == "open"@ || c == "close"@ || c == "high"@ || c == "low"@
}

/// The adjustment of one column by the factor.
pub open spec fn adjust_op(c: Seq<char>) -> ColumnOp {
    if c == "volume"@ {
        ColumnOp::Divide
    } else if is_price(c) {
        ColumnOp::Multiply
    } else {
        ColumnOp::Keep
    }
}

/// The normalisation of one column by the first close.
pub open spec fn normalize_op(c: Seq<char>) -> ColumnOp {
    if c == "volume"@ {
        ColumnOp::Multiply
    } else if is_price(c) || c == "money"@ || c == "factor"@ {
        ColumnOp::Divide
    } else {
        ColumnOp::Keep
    }
}

fn adjust_op_exec(c: &String) -> (res: ColumnOp)
    ensures
        res == adjust_op(c@),
{
    if is_text(c, "volume") {
        ColumnOp::Divide
    } else if is_text(c, "open") || is_text(c, "close") || is_text(c, "high") || is_text(c, "low") {
        ColumnOp::Multiply
    } else {
        ColumnOp::Keep
    }
}

fn normalize_op_exec(c: &String) -> (res: ColumnOp)
    ensures
        res == normalize_op(c@),
{
    if is_text(c, "volume") {
        ColumnOp::Multiply
    } else if is_text(c, "open") || is_text(c, "close") || is_text(c, "high") || is_text(c, "low")
        || is_text(c, "money") || is_text(c, "factor") {
        ColumnOp::Divide
    } else {
        ColumnOp::Keep
    }
}

/// The price adjustment of a table with the given columns: with an
/// "adjclose" column, each column and the appended "factor" get
/// `adjust_op`; otherwise the factor is filled.
pub fn adjusted_price_plan(columns: &Vec<String>) -> (res: AdjustPlan)
    ensures
        strings_view(columns@).contains("adjclose"@) ==> (res matches AdjustPlan::Adjust { ops } && ops@
            == strings_view(columns@).push("factor"@).map_values(|c: Seq<char>| adjust_op(c))),
        !strings_view(columns@).contains("adjclose"@) ==> res == AdjustPlan::FillFactor,
        res matches AdjustPlan::Adjust { ops } ==> ops@.len() == columns@.len() + 1 && forall|i: int|
            0 <= i < ops@.len() ==> {
                let c = #[trigger] strings_view(columns@).push("factor"@)[i];
                &&& (ops@[i] == ColumnOp::Multiply <==> (c == "open"@ || c == "close"@ || c == "high"@ || c
                    == "low"@))
                &&& (ops@[i] == ColumnOp::Divide <==> c == "volume"@)
            },
{
    let mut has_adjclose = false;
    let mut ops: Vec<ColumnOp> = Vec::new();
    let mut i: usize = 0;
    while i < columns.len()
        invariant
            i <= columns.len(),
            has_adjclose == strings_view(columns@).take(i as int).contains("adjclose"@),
            ops@ == strings_view(columns@).take(i as int).map_values(|c: Seq<char>| adjust_op(c)),
        decreases columns.len() - i,
    {
        let ghost prev = strings_view(columns@).take(i as int);
        let ghost next = strings_view(columns@).take(i + 1);
        assert(next =~= prev.push(columns@[i as int]@));
        if is_text(&columns[i], "adjclose") {
            has_adjclose = true;
            assert(next[i as int] == "adjclose"@);
        } else {
            proof {
                assert forall|j: int| 0 <= j < next.len() && next[j] == "adjclose"@ implies prev.contains(
                    "adjclose"@,
                ) by {
                    assert(j < i);
                    assert(prev[j] == next[j]);
                }
                if prev.contains("adjclose"@) {
                    let j = choose|j: int| 0 <= j < prev.len() && prev[j] == "adjclose"@;
                    assert(next[j] == prev[j]);
                }
            }
        }
        ops.push(adjust_op_exec(&columns[i]));
        assert(ops@ =~= next.map_values(|c: Seq<char>| adjust_op(c)));
        i = i + 1;
    }
    assert(strings_view(columns@).take(columns.len() as int) =~= strings_view(columns@));
    if has_adjclose {
        let factor = String::from_str("factor");
        ops.push(adjust_op_exec(&factor));
        let ghost ext = strings_view(columns@).push("factor"@);
        assert(ops@ =~= ext.map_values(|c: Seq<char>| adjust_op(c)));
        assert forall|i: int| 0 <= i < ops@.len() implies {
            let c = #[trigger] ext[i];
            &&& (ops@[i] == ColumnOp::Multiply <==> (c == "open"@ || c == "close"@ || c == "high"@ || c
                == "low"@))
            &&& (ops@[i] == ColumnOp::Divide <==> c == "volume"@)
        } by {
            law_adjustment_scales_prices_and_volume_only(ext[i]);
        }
        AdjustPlan::Adjust { ops }
    } else {
        AdjustPlan::FillFactor
    }
}

/// The normalisation by the first close of a price-adjusted table with the
/// given columns: `normalize_op` of each column, in order.
pub fn normalize_plan(columns: &Vec<String>) -> (res: Vec<ColumnOp>)
    ensures
        res@ == strings_view(columns@).map_values(|c: Seq<char>| normalize_op(c)),
        res@.len() == columns@.len(),
        forall|i: int|
            0 <= i < res@.len() ==> {
                let c = #[trigger] strings_view(columns@)[i];
                &&& (res@[i] == ColumnOp::Divide <==> (c == "open"@ || c == "close"@ || c == "high"@ || c
                    == "low"@ || c == "money"@ || c == "factor"@))
                &&& (res@[i] == ColumnOp::Multiply <==> c == "volume"@)
            },
{
    let mut ops: Vec<ColumnOp> = Vec::new();
    let mut i: usize = 0;
    while i < columns.len()
        invariant
            i <= columns.len(),
            ops@ == strings_view(columns@).take(i as int).map_values(|c: Seq<char>| normalize_op(c)),
        decreases columns.len() - i,
    {
        ops.push(normalize_op_exec(&columns[i]));
        assert(ops@ =~= strings_view(columns@).take(i + 1).map_values(|c: Seq<char>| normalize_op(c)));
        i = i + 1;
    }
    assert(strings_view(columns@).take(columns.len() as int) =~= strings_view(columns@));
    assert forall|i: int| 0 <= i < ops@.len() implies {
        let c = #[trigger] strings_view(columns@)[i];
        &&& (ops@[i] == ColumnOp::Divide <==> (c == "open"@ || c == "close"@ || c == "high"@ || c == "low"@
            || c == "money"@ || c == "factor"@))
        &&& (ops@[i] == ColumnOp::Multiply <==> c == "volume"@)
    } by {
        law_normalisation_scales_listed_columns_only(strings_view(columns@)[i]);
    }
    ops
}

/// `s` with every occurrence of `pat`, taken from left to right without
/// overlap, replaced by `rep` (the semantics of `str::replace`).
pub open spec fn replace_all(s: Seq<char>, pat: Seq<char>, rep: Seq<char>) -> Seq<char>
    decreases s.len(),
{
    if s.len() == 0 {
        s
    } else if pat.len() > 0 && s.len() >= pat.len() && s.take(pat.len() as int) == pat {
        rep + replace_all(s.skip(pat.len() as int), pat, rep)
    } else {
        seq![s[0]] + replace_all(s.skip(1), pat, rep)
    }
}

/// Where the normalised table of a stored file is written: its path with
/// every "source" replaced by "normalize".
pub fn normalized_path(path: &str) -> (res: String)
    ensures
        res@ == replace_all(path@, "source"@, "normalize"@),
{
    proof {
        reveal_strlit("source");
        reveal_strlit("normalize");
    }
    let n = path.unicode_len();
    let pat = String::from_str("source");
    let mut out = String::new();
    let mut i: usize = 0;
    assert(path@.skip(0) =~= path@);
    while i < n
        invariant
            n == path@.len(),
            i <= n,
            pat@ == "source"@,
            "source"@.len() == 6,
            replace_all(path@, "source"@, "normalize"@) == out@ + replace_all(
                path@.skip(i as int),
                "source"@,
                "normalize"@,
            ),
        decreases n - i,
    {
        let ghost rest = path@.skip(i as int);
        if n - i >= 6 && String::from_str(path.substring_char(i, i + 6)) == pat {
            assert(rest.take(6) =~= path@.subrange(i as int, i + 6));
            assert(rest.skip(6) =~= path@.skip(i + 6));
            out.append("normalize");
            i = i + 6;
        } else {
            if n - i >= 6 {
                assert(rest.take(6) =~= path@.subrange(i as int, i + 6));
            }
            let one = path.substring_char(i, i + 1);
            assert(one@ =~= seq![rest[0]]);
            assert(rest.skip(1) =~= path@.skip(i + 1));
            out.append(one);
            i = i + 1;
        }
    }
    out
}

/// The price adjustment multiplies by the factor exactly the prices open,
/// close, high and low, divides exactly the volume by it, and keeps every
/// other column (money, change, adjclose, symbol and the factor among them).
pub proof fn law_adjustment_scales_prices_and_volume_only(c: Seq<char>)
    ensures
        adjust_op(c) == ColumnOp::Multiply <==> (c == "open"@ || c == "close"@ || c == "high"@ || c == "low"@),
        adjust_op(c) == ColumnOp::Divide <==> c == "volume"@,
        adjust_op(c) == ColumnOp::Keep <==> !(c == "open"@ || c == "close"@ || c == "high"@ || c == "low"@
            || c == "volume"@),
{
    lemma_column_names_differ();
}

/// The normalisation divides by the first close exactly open, close, high,
/// low, money and the factor, multiplies exactly the volume by it, and keeps
/// every other column (adjclose, change and symbol among them).
pub proof fn law_normalisation_scales_listed_columns_only(c: Seq<char>)
    ensures
        normalize_op(c) == ColumnOp::Divide <==> (c == "open"@ || c == "close"@ || c == "high"@ || c == "low"@
            || c == "money"@ || c == "factor"@),
        normalize_op(c) == ColumnOp::Multiply <==> c == "volume"@,
        normalize_op(c) == ColumnOp::Keep <==> !(c == "open"@ || c == "close"@ || c == "high"@ || c == "low"@
            || c == "money"@ || c == "factor"@ || c == "volume"@),
{
    lemma_column_names_differ();
}

proof fn lemma_column_names_differ()
    ensures
        "volume"@ != "open"@,
        "volume"@ != "close"@,
        "volume"@ != "high"@,
        "volume"@ != "low"@,
        "volume"@ != "money"@,
        "volume"@ != "factor"@,
{
    reveal_strlit("volume");
    reveal_strlit("open");
    reveal_strlit("close");
    reveal_strlit("high");
    reveal_strlit("low");
    reveal_strlit("money");
    reveal_strlit("factor");
    assert("volume"@[0] != "open"@[0]);
    assert("volume"@[0] != "close"@[0]);
    assert("volume"@[0] != "high"@[0]);
    assert("volume"@[0] != "low"@[0]);
    assert("volume"@[0] != "money"@[0]);
    assert("volume"@[0] != "factor"@[0]);
}

/// The normalisation scales back every column the adjustment scales: a
/// column multiplied by the factor is divided by the first close, and the
/// volume, divided by the factor, is multiplied by the first close.
pub proof fn law_normalize_reverses_adjustment(c: Seq<char>)
    ensures
        adjust_op(c) == ColumnOp::Multiply ==> normalize_op(c) == ColumnOp::Divide,
        adjust_op(c) == ColumnOp::Divide ==> normalize_op(c) == ColumnOp::Multiply,
{
}

/// `pat` occurs in `s` at position `i`.
pub open spec fn occurs_at(s: Seq<char>, i: int, pat: Seq<char>) -> bool {
    0 <= i && i + pat.len() <= s.len() && s.subrange(i, i + pat.len()) == pat
}

proof fn lemma_replace_prefix(x: Seq<char>, q: Seq<char>)
    requires
        "source"@ == seq!['s', 'o', 'u', 'r', 'c', 'e'],
        "normalize"@ == seq!['n', 'o', 'r', 'm', 'a', 'l', 'i', 'z', 'e'],
        forall|j: int| 0 <= j < q.len() ==> q[j] != 'n',
        q.len() <= replace_all(x, "source"@, "normalize"@).len(),
        replace_all(x, "source"@, "normalize"@).take(q.len() as int) == q,
    ensures
        q.len() <= x.len(),
        x.take(q.len() as int) == q,
    decreases q.len(),
{
    let r = replace_all(x, "source"@, "normalize"@);
    if q.len() == 0 {
        assert(x.take(0) =~= q);
    } else {
        assert(x.len() > 0);
        assert(r[0] == q[0]);
        if x.len() >= 6 && x.take(6) == "source"@ {
            assert(r[0] == 'n');
        } else {
            let r1 = replace_all(x.skip(1), "source"@, "normalize"@);
            assert(r =~= seq![x[0]] + r1);
            let q1 = q.skip(1);
            assert(r1.take(q1.len() as int) =~= q1) by {
                assert forall|j: int| 0 <= j < q1.len() implies r1.take(q1.len() as int)[j] == q1[j] by {
                    assert(r[j + 1] == r.take(q.len() as int)[j + 1]);
                }
            }
            lemma_replace_prefix(x.skip(1), q1);
            assert(x.take(q.len() as int) =~= seq![x[0]] + x.skip(1).take(q1.len() as int));
        }
    }
}

proof fn lemma_replace_no_source(s: Seq<char>, i: int)
    requires
        "source"@ == seq!['s', 'o', 'u', 'r', 'c', 'e'],
        "normalize"@ == seq!['n', 'o', 'r', 'm', 'a', 'l', 'i', 'z', 'e'],
    ensures
        !occurs_at(replace_all(s, "source"@, "normalize"@), i, "source"@),
    decreases s.len(),
{
    let pat = "source"@;
    let rep = "normalize"@;
    let r = replace_all(s, pat, rep);
    if s.len() == 0 {
    } else if s.len() >= 6 && s.take(6) == pat {
        let rest = replace_all(s.skip(6), pat, rep);
        assert(r == rep + rest);
        if i >= 9 {
            lemma_replace_no_source(s.skip(6), i - 9);
            if occurs_at(r, i, pat) {
                assert(rest.subrange(i - 9, i - 3) =~= r.subrange(i, i + 6));
            }
        } else if occurs_at(r, i, pat) {
            assert(r.subrange(i, i + 6)[0] == r[i]);
            assert(r[i] == rep[i]);
        }
    } else {
        let rest = replace_all(s.skip(1), pat, rep);
        assert(r == seq![s[0]] + rest);
        if i >= 1 {
            lemma_replace_no_source(s.skip(1), i - 1);
            if occurs_at(r, i, pat) {
                assert(rest.subrange(i - 1, i + 5) =~= r.subrange(i, i + 6));
            }
        } else if occurs_at(r, i, pat) {
            let w = r.subrange(0, 6);
            let q = seq!['o', 'u', 'r', 'c', 'e'];
            assert(rest.take(5) =~= q) by {
                assert forall|j: int| 0 <= j < 5 implies rest.take(5)[j] == q[j] by {
                    assert(rest[j] == r[j + 1]);
                    assert(w[j + 1] == r[j + 1]);
                }
            }
            lemma_replace_prefix(s.skip(1), q);
            assert(s.take(6) =~= pat) by {
                assert(s[0] == r[0]);
                assert(w[0] == r[0]);
                assert forall|j: int| 1 <= j < 6 implies s.take(6)[j] == pat[j] by {
                    assert(s.skip(1).take(5)[j - 1] == s[j]);
                }
            }
        }
    }
}

/// A normalised table is never written under a path naming the source
/// store: no "source" is left in the path it is written to.
pub proof fn law_normalized_path_has_no_source(path: Seq<char>, i: int)
    ensures
        !occurs_at(replace_all(path, "source"@, "normalize"@), i, "source"@),
{
    reveal_strlit("source");
    reveal_strlit("normalize");
    assert("source"@ =~= seq!['s', 'o', 'u', 'r', 'c', 'e']);
    assert("normalize"@ =~= seq!['n', 'o', 'r', 'm', 'a', 'l', 'i', 'z', 'e']);
    lemma_replace_no_source(path, i);
}

} // verus!
