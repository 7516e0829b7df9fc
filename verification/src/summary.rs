use vstd::prelude::*;

verus! {

/// A money or quantity figure: a fixed-point value in the caller's unit
/// beside an optional currency code.
#[derive(Debug)]
pub struct Amount {
    pub currency: Option<String>,
    pub value: i64,
}

/// One position held in a trading account.
#[derive(Debug)]
pub struct Position {
    pub amount: Amount,
    pub label: String,
    pub quantity: Amount,
    pub symbol: String,
}

/// One segment of a trading account's summary; the remote side may split a
/// summary into several segments, each with its own position list.
#[derive(Debug)]
pub struct Summary {
    pub positions: Option<Vec<Position>>,
}

pub open spec fn positions_of(s: Summary) -> Seq<Position> {
    match s.positions {
        Some(v) => v@,
        None => Seq::empty(),
    }
}

/// All positions of all segments, flattened in segment order.
pub open spec fn flattened(ss: Seq<Summary>) -> Seq<Position>
    decreases ss.len(),
{
    if ss.len() == 0 {
        Seq::empty()
    } else {
        positions_of(ss[0]) + flattened(ss.drop_first())
    }
}

/// Flatten the positions of a summary's segments into one list, in order,
/// never deduplicating: the same instrument may legitimately appear in
/// several segments.
pub fn flatten_positions(summaries: Vec<Summary>) -> (r: Vec<Position>)
    ensures
        r@ == flattened(summaries@),
{
    let ghost orig = summaries@;
    let mut rest = summaries;
    let mut out: Vec<Position> = Vec::new();
    while rest.len() > 0
        invariant
            out@ + flattened(rest@) == flattened(orig),
        decreases rest@.len(),
    {
        let ghost rest_before = rest@;
        let s = rest.remove(0);
        proof {
            assert(rest@ =~= rest_before.drop_first());
            assert(out@ + (positions_of(s) + flattened(rest@)) =~= (out@ + positions_of(s))
                + flattened(rest@));
        }
        match s.positions {
            Some(ps) => {
                let mut ps = ps;
                while ps.len() > 0
                    invariant
                        (out@ + ps@) + flattened(rest@) == flattened(orig),
                    decreases ps@.len(),
                {
                    let ghost ps_before = ps@;
                    let ghost out_before = out@;
                    let p = ps.remove(0);
                    out.push(p);
                    proof {
                        assert(ps@ =~= ps_before.drop_first());
                        assert(out@ + ps@ =~= out_before + ps_before);
                    }
                }
                proof {
                    assert(out@ + ps@ =~= out@);
                }
            },
            None => {
                proof {
                    assert(out@ + positions_of(s) =~= out@);
                }
            },
        }
    }
    proof {
        assert(out@ + flattened(rest@) =~= out@);
    }
    out
}

} // verus!
