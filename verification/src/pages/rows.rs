//! How the pages arrange the rows the store lists: consecutive rows that share
//! a key collected into runs (an alliance and its parties), and a list split in
//! two by a yes/no reading of each row (current and former members).

use vstd::prelude::*;

use crate::text::str_eq;

verus! {

/// A run of consecutive rows that share a key, such as an alliance's name.
pub struct Run<T> {
    pub key: String,
    pub items: Vec<T>,
}

/// A run as its key's text and its rows.
pub open spec fn run_view<T>(r: Run<T>) -> (Seq<char>, Seq<T>) {
    (r.key@, r.items@)
}

/// A list of runs as key texts and rows.
pub open spec fn runs_view<T>(rs: Seq<Run<T>>) -> Seq<(Seq<char>, Seq<T>)> {
    rs.map_values(|r: Run<T>| run_view(r))
}

/// Keyed rows with each key taken as its text.
pub open spec fn keyed_view<T>(rows: Seq<(String, T)>) -> Seq<(Seq<char>, T)> {
    rows.map_values(|p: (String, T)| (p.0@, p.1))
}

/// The rows grouped into runs: a row joins the run before it when that run has
/// its key, and starts a new run otherwise.
pub open spec fn runs_of<T>(rows: Seq<(Seq<char>, T)>) -> Seq<(Seq<char>, Seq<T>)>
    decreases rows.len(),
{
    if rows.len() == 0 {
        Seq::empty()
    } else {
        let g = runs_of(rows.drop_last());
        let k = rows.last().0;
        let x = rows.last().1;
        if g.len() > 0 && g.last().0 == k {
            g.update(g.len() - 1, (k, g.last().1.push(x)))
        } else {
            g.push((k, seq![x]))
        }
    }
}

/// The runs laid out again as keyed rows, in order.
pub open spec fn spread<T>(g: Seq<(Seq<char>, Seq<T>)>) -> Seq<(Seq<char>, T)>
    decreases g.len(),
{
    if g.len() == 0 {
        Seq::empty()
    } else {
        spread(g.drop_last()) + g.last().1.map_values(|x: T| (g.last().0, x))
    }
}

/// Group keyed rows, in their order, into runs of consecutive rows that share a
/// key.
pub fn group_runs<T>(rows: Vec<(String, T)>) -> (r: Vec<Run<T>>)
    ensures
        runs_view(r@) == runs_of(keyed_view(rows@)),
{
    let ghost src = keyed_view(rows@);
    let mut out: Vec<Run<T>> = Vec::new();
    let mut cur: Option<Run<T>> = None;
    for row in it: rows.into_iter()
        invariant
            src == keyed_view(it.seq()),
            cur is None ==> it.index() == 0 && out@.len() == 0,
            cur matches Some(c) ==> runs_of(src.take(it.index() as int)) == runs_view(
                out@,
            ).push(run_view(c)),
    {
        let ghost i = it.index() as int;
        let ghost before = runs_of(src.take(i));
        proof {
            assert(src.take(i + 1).drop_last() =~= src.take(i));
            assert(src.take(i + 1).last() == (row.0@, row.1));
        }
        let (k, x) = row;
        let next = match cur {
            None => {
                let mut items: Vec<T> = Vec::new();
                items.push(x);
                proof {
                    assert(src.take(0) =~= Seq::<(Seq<char>, T)>::empty());
                    assert(items@ =~= seq![x]);
                    assert(runs_of(src.take(i + 1)) =~= runs_view(out@).push(
                        (k@, items@),
                    ));
                }
                Run { key: k, items }
            },
            Some(run) => {
                let mut run = run;
                if str_eq(run.key.as_str(), k.as_str()) {
                    let ghost old_items = run.items@;
                    run.items.push(x);
                    proof {
                        assert(before.last() == (k@, old_items));
                        assert(runs_view(out@).push((k@, old_items)).update(
                            runs_view(out@).len() as int,
                            (k@, old_items.push(x)),
                        ) =~= runs_view(out@).push(run_view(run)));
                    }
                    run
                } else {
                    let ghost prior = run_view(run);
                    out.push(run);
                    let mut items: Vec<T> = Vec::new();
                    items.push(x);
                    proof {
                        assert(runs_view(out@) =~= before);
                        assert(items@ =~= seq![x]);
                    }
                    Run { key: k, items }
                }
            },
        };
        cur = Some(next);
    }
    proof {
        assert(src.take(src.len() as int) =~= src);
    }
    match cur {
        Some(run) => {
            out.push(run);
        },
        None => {},
    }
    proof {
        assert(runs_view(out@) =~= runs_of(src));
    }
    out
}

/// Grouping loses, adds and reorders no row: laying the runs out again gives
/// back the rows. Every run holds a row, and no two neighbouring runs share a
/// key.
pub proof fn law_runs_keep_every_row<T>(rows: Seq<(Seq<char>, T)>)
    ensures
        spread(runs_of(rows)) == rows,
        forall|i: int| 0 <= i < runs_of(rows).len() ==> #[trigger] runs_of(rows)[i].1.len() > 0,
        forall|i: int|
            0 <= i < runs_of(rows).len() - 1 ==> #[trigger] runs_of(rows)[i].0 != runs_of(
                rows,
            )[i + 1].0,
    decreases rows.len(),
{
    if rows.len() > 0 {
        let front = rows.drop_last();
        law_runs_keep_every_row(front);
        let g = runs_of(front);
        let k = rows.last().0;
        let x = rows.last().1;
        let f = |y: T| (k, y);
        if g.len() > 0 && g.last().0 == k {
            let h = g.update(g.len() - 1, (k, g.last().1.push(x)));
            assert(h.drop_last() =~= g.drop_last());
            assert(g.last().1.push(x).map_values(f) =~= g.last().1.map_values(f).push((k, x)));
            assert(spread(h) =~= spread(g).push((k, x)));
        } else {
            let h = g.push((k, seq![x]));
            assert(h.drop_last() =~= g);
            assert(seq![x].map_values(f) =~= seq![(k, x)]);
            assert(spread(h) =~= spread(g).push((k, x)));
        }
        assert(front.push((k, x)) =~= rows);
    }
}

/// The indices, in order, whose flag equals `want`.
pub open spec fn picked(flags: Seq<bool>, want: bool) -> Seq<usize>
    decreases flags.len(),
{
    if flags.len() == 0 {
        Seq::empty()
    } else if flags.last() == want {
        picked(flags.drop_last(), want).push((flags.len() - 1) as usize)
    } else {
        picked(flags.drop_last(), want)
    }
}

/// Split the indices of a list by a flag per row: those flagged, then those
/// not, each in order.
pub fn split_indices(flags: &Vec<bool>) -> (r: (Vec<usize>, Vec<usize>))
    ensures
        r.0@ == picked(flags@, true),
        r.1@ == picked(flags@, false),
{
    let mut yes: Vec<usize> = Vec::new();
    let mut no: Vec<usize> = Vec::new();
    let mut i: usize = 0;
    while i < flags.len()
        invariant
            i <= flags@.len(),
            yes@ == picked(flags@.take(i as int), true),
            no@ == picked(flags@.take(i as int), false),
        decreases flags.len() - i,
    {
        proof {
            assert(flags@.take(i + 1).drop_last() =~= flags@.take(i as int));
        }
        if flags[i] {
            yes.push(i);
        } else {
            no.push(i);
        }
        i = i + 1;
    }
    proof {
        assert(flags@.take(flags@.len() as int) =~= flags@);
    }
    (yes, no)
}

/// The picked indices are exactly the rows whose flag is the one wanted, each
/// once and in increasing order.
pub proof fn law_picked_is_exact(flags: Seq<bool>, want: bool)
    requires
        flags.len() <= usize::MAX,
    ensures
        forall|j: int| 0 <= j < picked(flags, want).len() ==> (#[trigger] picked(flags, want)[j]) < flags.len(),
        forall|j: int|
            0 <= j < picked(flags, want).len() ==> flags[#[trigger] picked(flags, want)[j] as int] == want,
        forall|a: int, b: int|
            0 <= a < b < picked(flags, want).len() ==> #[trigger] picked(flags, want)[a] < #[trigger] picked(
                flags,
                want,
            )[b],
        forall|k: int| 0 <= k < flags.len() && flags[k] == want ==> #[trigger] picked(flags, want).contains(
            k as usize,
        ),
    decreases flags.len(),
{
    if flags.len() > 0 {
        let front = flags.drop_last();
        law_picked_is_exact(front, want);
        let p = picked(front, want);
        let q = picked(flags, want);
        let last = (flags.len() - 1) as usize;
        assert(last as int == flags.len() - 1);
        if flags.last() == want {
            assert(q == p.push(last));
            assert forall|j: int| 0 <= j < q.len() implies flags[#[trigger] q[j] as int] == want by {
                if j < p.len() {
                    assert(q[j] == p[j]);
                    assert(front[p[j] as int] == want);
                }
            }
            assert forall|a: int, b: int| 0 <= a < b < q.len() implies #[trigger] q[a] < #[trigger] q[b] by {
                assert(q[a] == p[a]);
                if b < p.len() {
                    assert(q[b] == p[b]);
                }
            }
        } else {
            assert(q == p);
            assert forall|j: int| 0 <= j < q.len() implies flags[#[trigger] q[j] as int] == want by {
                assert(front[p[j] as int] == want);
            }
        }
        assert forall|k: int| 0 <= k < flags.len() && flags[k] == want implies #[trigger] q.contains(
            k as usize,
        ) by {
            if k < flags.len() - 1 {
                assert(front[k] == want);
                assert(p.contains(k as usize));
                let j = choose|j: int| 0 <= j < p.len() && p[j] == k as usize;
                assert(q[j] == k as usize);
            } else {
                assert(q.last() == k as usize);
            }
        }
    }
}

/// Splitting by a flag puts every row on exactly one side: a row is among the
/// flagged indices exactly when its flag is set, and among the others exactly
/// when it is not.
pub proof fn law_every_row_on_one_side(flags: Seq<bool>)
    requires
        flags.len() <= usize::MAX,
    ensures
        forall|k: int|
            0 <= k < flags.len() ==> (#[trigger] picked(flags, true).contains(k as usize) <==> flags[k]),
        forall|k: int|
            0 <= k < flags.len() ==> (#[trigger] picked(flags, false).contains(k as usize) <==> !flags[k]),
{
    law_picked_is_exact(flags, true);
    law_picked_is_exact(flags, false);
    assert forall|k: int| 0 <= k < flags.len() implies (#[trigger] picked(flags, true).contains(
        k as usize,
    ) <==> flags[k]) by {
        if picked(flags, true).contains(k as usize) {
            let j = choose|j: int| 0 <= j < picked(flags, true).len() && picked(flags, true)[j] == k as usize;
            assert(flags[picked(flags, true)[j] as int] == true);
        }
    }
    assert forall|k: int| 0 <= k < flags.len() implies (#[trigger] picked(flags, false).contains(
        k as usize,
    ) <==> !flags[k]) by {
        if picked(flags, false).contains(k as usize) {
            let j = choose|j: int|
                0 <= j < picked(flags, false).len() && picked(flags, false)[j] == k as usize;
            assert(flags[picked(flags, false)[j] as int] == false);
        }
    }
}

} // verus!
