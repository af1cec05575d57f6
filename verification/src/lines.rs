//! Line handling for log previews: an exact model of how text splits
//! into lines (line feeds end a line, a carriage return directly before
//! a line feed is dropped, a final line ending is optional), and the
//! tail of the last `n` lines joined back together.

use vstd::prelude::*;
use vstd::string::StrSliceExecFns;
use vstd::string::StringExecFns;
use vstd::std_specs::iter::IteratorSpec;

verus! {

/// A line with one trailing carriage return dropped.
pub open spec fn trim_cr(l: Seq<char>) -> Seq<char> {
    if l.len() > 0 && l.last() == '\r' {
        l.drop_last()
    } else {
        l
    }
}

/// Text split at line feeds, processed left to right: a line feed
/// closes the current segment (dropping one carriage return directly
/// before it) and opens a new one; any other character extends the
/// current segment. The final segment is never trimmed.
pub open spec fn split_lines(s: Seq<char>) -> Seq<Seq<char>>
    decreases s.len(),
{
    if s.len() == 0 {
        seq![Seq::<char>::empty()]
    } else {
        let t = split_lines(s.drop_last());
        if s.last() == '\n' {
            t.update(t.len() - 1, trim_cr(t.last())).push(Seq::<char>::empty())
        } else {
            t.update(t.len() - 1, t.last().push(s.last()))
        }
    }
}

/// The lines of a text: empty text has none, and a final line feed
/// does not open an empty last line.
pub open spec fn lines_spec(s: Seq<char>) -> Seq<Seq<char>> {
    if s.len() == 0 {
        Seq::empty()
    } else if s.last() == '\n' {
        split_lines(s).drop_last()
    } else {
        split_lines(s)
    }
}

/// Lines joined with single line feeds.
pub open spec fn join_nl(ls: Seq<Seq<char>>) -> Seq<char>
    decreases ls.len(),
{
    if ls.len() == 0 {
        Seq::empty()
    } else if ls.len() == 1 {
        ls[0]
    } else {
        join_nl(ls.drop_last()) + seq!['\n'] + ls.last()
    }
}

/// The last `n` lines of a text, joined with line feeds.
pub open spec fn last_n_lines_spec(s: Seq<char>, n: int) -> Seq<char> {
    let ls = lines_spec(s);
    let start = if ls.len() > n {
        ls.len() - n
    } else {
        0
    };
    join_nl(ls.skip(start))
}

/// Returns the last `n` lines of the text, joined with line feeds, as
/// the status card's log preview shows them.
pub fn last_n_lines(text: &str, n: usize) -> (r: String)
    ensures
        r@ == last_n_lines_spec(text@, n as int),
{
    broadcast use vstd::string::group_string_axioms;

    let total = text.unicode_len();
    let mut segs: Vec<(usize, usize)> = Vec::new();
    segs.push((0, 0));
    let mut i: usize = 0;
    let mut prev_cr: bool = false;
    let mut ends_nl: bool = false;
    let mut it = text.chars();
    proof {
        assert(text@.skip(0) =~= text@);
        assert(text@.take(0) =~= Seq::<char>::empty());
    }
    loop
        invariant
            total == text@.len(),
            i <= text@.len(),
            it.obeys_prophetic_iter_laws(),
            it.remaining() == text@.skip(i as int),
            segs@.len() >= 1,
            segs@.len() == split_lines(text@.take(i as int)).len(),
            forall|k: int|
                0 <= k < segs@.len() ==> (#[trigger] segs@[k]).0 <= segs@[k].1 <= i && split_lines(
                    text@.take(i as int),
                )[k] == text@.subrange(segs@[k].0 as int, segs@[k].1 as int),
            segs@.last().1 == i,
            prev_cr == (segs@.last().1 > segs@.last().0 && text@[i as int - 1] == '\r'),
            ends_nl == (i > 0 && text@[i as int - 1] == '\n'),
        ensures
            i == text@.len(),
            segs@.len() >= 1,
            segs@.len() == split_lines(text@).len(),
            forall|k: int|
                0 <= k < segs@.len() ==> (#[trigger] segs@[k]).0 <= segs@[k].1 <= text@.len()
                    && split_lines(text@)[k] == text@.subrange(
                    segs@[k].0 as int,
                    segs@[k].1 as int,
                ),
            ends_nl == (text@.len() > 0 && text@.last() == '\n'),
        decreases text@.len() - i,
    {
        let c = match it.next() {
            Some(c) => c,
            None => {
                proof {
                    assert(text@.skip(i as int).len() == 0);
                    assert(i == text@.len());
                    assert(text@.take(i as int) =~= text@);
                }
                break ;
            },
        };
        proof {
            assert(text@.skip(i as int).len() > 0);
            assert(c == text@.skip(i as int)[0]);
            assert(c == text@[i as int]);
            assert(text@.skip(i as int).drop_first() =~= text@.skip(i as int + 1));
            assert(text@.take(i as int + 1).drop_last() =~= text@.take(i as int));
            assert(text@.take(i as int + 1).last() == c);
        }
        let last = segs.len() - 1;
        let seg = segs[last];
        let ghost pre_sp = split_lines(text@.take(i as int));
        if c == '\n' {
            let closed_end = if prev_cr {
                seg.1 - 1
            } else {
                seg.1
            };
            proof {
                assert(trim_cr(text@.subrange(seg.0 as int, seg.1 as int)) =~= text@.subrange(
                    seg.0 as int,
                    closed_end as int,
                ));
            }
            segs[last] = (seg.0, closed_end);
            segs.push((i + 1, i + 1));
            proof {
                let sp = split_lines(text@.take(i as int + 1));
                assert(sp == pre_sp.update(pre_sp.len() - 1, trim_cr(pre_sp.last())).push(
                    Seq::<char>::empty(),
                ));
                assert(text@.subrange(i as int + 1, i as int + 1) =~= Seq::<char>::empty());
            }
            prev_cr = false;
            ends_nl = true;
        } else {
            segs[last] = (seg.0, seg.1 + 1);
            proof {
                let sp = split_lines(text@.take(i as int + 1));
                assert(sp == pre_sp.update(pre_sp.len() - 1, pre_sp.last().push(c)));
                assert(text@.subrange(seg.0 as int, seg.1 as int).push(c) =~= text@.subrange(
                    seg.0 as int,
                    seg.1 as int + 1,
                ));
            }
            prev_cr = c == '\r';
            ends_nl = false;
        }
        i += 1;
    }
    let m = if total == 0 {
        0
    } else if ends_nl {
        segs.len() - 1
    } else {
        segs.len()
    };
    proof {
        if text@.len() > 0 && !ends_nl {
            assert(lines_spec(text@) == split_lines(text@));
        }
        assert(m == lines_spec(text@).len());
        assert forall|k: int| 0 <= k < m implies lines_spec(text@)[k] == text@.subrange(
            (#[trigger] segs@[k]).0 as int,
            segs@[k].1 as int,
        ) by {
            assert(split_lines(text@)[k] == text@.subrange(segs@[k].0 as int, segs@[k].1 as int));
        }
    }
    let start = if m > n {
        m - n
    } else {
        0
    };
    let ghost ls = lines_spec(text@);
    let mut out = String::new();
    let mut j: usize = start;
    proof {
        assert(ls.subrange(start as int, start as int) =~= Seq::<Seq<char>>::empty());
    }
    while j < m
        invariant
            start <= j <= m,
            m == ls.len(),
            ls == lines_spec(text@),
            forall|k: int|
                0 <= k < m ==> (#[trigger] segs@[k]).0 <= segs@[k].1 <= text@.len() && ls[k]
                    == text@.subrange(segs@[k].0 as int, segs@[k].1 as int),
            m <= segs@.len(),
            out@ == join_nl(ls.subrange(start as int, j as int)),
        decreases m - j,
    {
        if j > start {
            out.append("\n");
            proof {
                reveal_strlit("\n");
                assert("\n"@ =~= seq!['\n']);
            }
        }
        let seg = segs[j];
        let piece = text.substring_char(seg.0, seg.1);
        out.append(piece);
        proof {
            let sub = ls.subrange(start as int, j as int + 1);
            assert(sub.drop_last() =~= ls.subrange(start as int, j as int));
            assert(sub.last() == ls[j as int]);
            if j == start {
                assert(join_nl(sub) == ls[j as int]);
                assert(out@ =~= ls[j as int]);
            } else {
                assert(join_nl(sub) == join_nl(ls.subrange(start as int, j as int)) + seq!['\n']
                    + ls[j as int]);
                assert(out@ =~= join_nl(ls.subrange(start as int, j as int)) + seq!['\n']
                    + ls[j as int]);
            }
        }
        j += 1;
    }
    proof {
        assert(ls.subrange(start as int, m as int) =~= ls.skip(start as int));
        if start == m {
            assert(join_nl(ls.skip(start as int)) =~= Seq::<char>::empty());
        }
    }
    out
}

} // verus!
