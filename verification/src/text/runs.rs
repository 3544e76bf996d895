//! The grouping of a text object's glyphs into runs. Whether a glyph
//! continues a run is a question of geometry that the caller answers; this
//! module decides which glyphs take part and where runs break.

use vstd::prelude::*;

use crate::model::ReconstructionDecision;
use crate::output::markup::push_char;

verus! {

/// The glyphs among the first `n` that have a Unicode value, in order.
pub open spec fn kept_glyphs(unicode: Seq<Option<char>>, n: int) -> Seq<usize>
    decreases n,
{
    if n <= 0 {
        Seq::empty()
    } else {
        kept_glyphs(unicode, n - 1) + if unicode[n - 1] is Some {
            seq![(n - 1) as usize]
        } else {
            Seq::empty()
        }
    }
}

/// The runs one after the other.
pub open spec fn joined(runs: Seq<Seq<usize>>) -> Seq<usize>
    decreases runs.len(),
{
    if runs.len() == 0 {
        Seq::empty()
    } else {
        joined(runs.drop_last()) + runs.last()
    }
}

/// The glyph indices of each run.
pub open spec fn run_views(runs: Seq<Vec<usize>>) -> Seq<Seq<usize>> {
    runs.map_values(|run: Vec<usize>| run@)
}

/// Every glyph of `run` after its first was found to continue the run, as
/// asked with the run's first glyph, the glyph before it, and the glyph.
pub open spec fn run_holds_together<F: Fn(usize, usize, usize) -> bool>(continues: F, run: Seq<usize>) -> bool {
    &&& run.len() > 0
    &&& forall|j: int| 1 <= j < run.len() ==> #[trigger] continues.ensures((run[0], run[j - 1], run[j]), true)
}

/// The first glyph of `next` was found not to continue `run`.
pub open spec fn breaks_between<F: Fn(usize, usize, usize) -> bool>(
    continues: F,
    run: Seq<usize>,
    next: Seq<usize>,
) -> bool {
    continues.ensures((run[0], run.last(), next[0]), false)
}

/// `runs` splits the glyphs that have Unicode values into runs, in order:
/// each run holds together, and each run ends where the next glyph was
/// found not to continue it.
pub open spec fn is_run_split<F: Fn(usize, usize, usize) -> bool>(
    continues: F,
    unicode: Seq<Option<char>>,
    runs: Seq<Seq<usize>>,
) -> bool {
    &&& joined(runs) == kept_glyphs(unicode, unicode.len() as int)
    &&& forall|k: int| 0 <= k < runs.len() ==> run_holds_together(continues, #[trigger] runs[k])
    &&& forall|k: int| 0 <= k < runs.len() - 1 ==> breaks_between(continues, #[trigger] runs[k], runs[k + 1])
}

proof fn lemma_kept_glyphs_increase(unicode: Seq<Option<char>>, n: int)
    requires
        0 <= n <= unicode.len(),
        unicode.len() <= usize::MAX,
    ensures
        forall|i: int| 0 <= i < kept_glyphs(unicode, n).len() ==> #[trigger] kept_glyphs(unicode, n)[i] < n,
        forall|i: int, j: int|
            0 <= i < j < kept_glyphs(unicode, n).len() ==> #[trigger] kept_glyphs(unicode, n)[i]
                < #[trigger] kept_glyphs(unicode, n)[j],
    decreases n,
{
    if n > 0 {
        lemma_kept_glyphs_increase(unicode, n - 1);
        let before = kept_glyphs(unicode, n - 1);
        let now = kept_glyphs(unicode, n);
        if unicode[n - 1] is Some {
            assert(now == before + seq![(n - 1) as usize]);
        } else {
            assert(now =~= before);
        }
        assert forall|i: int| 0 <= i < now.len() implies #[trigger] now[i] < n by {
            if i < before.len() {
                assert(now[i] == before[i]);
            }
        }
        assert forall|i: int, j: int| 0 <= i < j < now.len() implies #[trigger] now[i] < #[trigger] now[j] by {
            assert(now[i] == before[i]);
            if j < before.len() {
                assert(now[j] == before[j]);
            }
        }
    }
}

/// Where run `k` starts among the joined runs.
spec fn run_start(runs: Seq<Seq<usize>>, k: int) -> int {
    joined(runs.take(k)).len() as int
}

proof fn lemma_joined_positions(runs: Seq<Seq<usize>>)
    ensures
        forall|k: int| 0 <= k <= runs.len() ==> #[trigger] run_start(runs, k) <= joined(runs).len(),
        forall|k: int| 0 <= k < runs.len() ==> #[trigger] run_start(runs, k + 1) == run_start(runs, k) + runs[k].len(),
        forall|k: int, j: int|
            0 <= k < runs.len() && 0 <= j < runs[k].len() ==> joined(runs)[run_start(runs, k) + j]
                == #[trigger] runs[k][j],
    decreases runs.len(),
{
    if runs.len() > 0 {
        let front = runs.drop_last();
        lemma_joined_positions(front);
        assert(joined(runs) == joined(front) + runs.last());
        assert(runs.take(runs.len() as int) =~= runs);
        assert(front.take(front.len() as int) =~= front);
        assert forall|k: int| 0 <= k <= front.len() implies #[trigger] run_start(runs, k) == run_start(front, k) by {
            assert(runs.take(k) =~= front.take(k));
        }
        assert forall|k: int| 0 <= k <= runs.len() implies #[trigger] run_start(runs, k) <= joined(runs).len() by {
            if k <= front.len() {
                assert(run_start(runs, k) == run_start(front, k));
            }
        }
        assert forall|k: int| 0 <= k < runs.len() implies #[trigger] run_start(runs, k + 1) == run_start(runs, k)
            + runs[k].len() by {
            if k + 1 <= front.len() {
                assert(run_start(runs, k + 1) == run_start(front, k + 1));
                assert(run_start(runs, k) == run_start(front, k));
                assert(front[k] == runs[k]);
            } else {
                assert(run_start(runs, k) == run_start(front, k));
                assert(run_start(front, k) == joined(front).len());
            }
        }
        assert forall|k: int, j: int| 0 <= k < runs.len() && 0 <= j < runs[k].len() implies joined(runs)[run_start(
            runs,
            k,
        ) + j] == #[trigger] runs[k][j] by {
            assert(run_start(runs, k) == run_start(front, k));
            if k < front.len() {
                assert(front[k] == runs[k]);
                assert(run_start(front, k + 1) == run_start(front, k) + front[k].len());
                assert(run_start(front, k + 1) <= joined(front).len());
                assert(joined(front)[run_start(front, k) + j] == front[k][j]);
            } else {
                assert(run_start(front, k) == joined(front).len());
            }
        }
    }
}

/// Runs keep the order of the glyphs: within a run the glyphs come in
/// source order, and each run starts after the previous one ends.
pub proof fn law_runs_keep_source_order(unicode: Seq<Option<char>>, runs: Seq<Seq<usize>>)
    requires
        unicode.len() <= usize::MAX,
        joined(runs) == kept_glyphs(unicode, unicode.len() as int),
        forall|k: int| 0 <= k < runs.len() ==> (#[trigger] runs[k]).len() > 0,
    ensures
        forall|k: int, i: int, j: int|
            0 <= k < runs.len() && 0 <= i < j < runs[k].len() ==> #[trigger] runs[k][i] < #[trigger] runs[k][j],
        forall|k: int| 0 <= k < runs.len() - 1 ==> (#[trigger] runs[k]).last() < runs[k + 1][0],
{
    lemma_kept_glyphs_increase(unicode, unicode.len() as int);
    lemma_joined_positions(runs);
    let all = joined(runs);
    assert forall|k: int, i: int, j: int| 0 <= k < runs.len() && 0 <= i < j < runs[k].len() implies #[trigger] runs[k][i]
        < #[trigger] runs[k][j] by {
        let base = run_start(runs, k);
        assert(run_start(runs, k + 1) == base + runs[k].len());
        assert(run_start(runs, k + 1) <= all.len());
        assert(all[base + i] == runs[k][i]);
        assert(all[base + j] == runs[k][j]);
    }
    assert forall|k: int| 0 <= k < runs.len() - 1 implies (#[trigger] runs[k]).last() < runs[k + 1][0] by {
        let k1 = k + 1;
        let base = run_start(runs, k);
        let next = run_start(runs, k1);
        assert(next == base + runs[k].len());
        assert(run_start(runs, k1 + 1) == next + runs[k1].len());
        assert(run_start(runs, k1 + 1) <= all.len());
        assert(all[base + (runs[k].len() - 1)] == runs[k][runs[k].len() - 1]);
        assert(all[next + 0] == runs[k1][0]);
    }
}

/// The runs of a text object, as lists of indices into its glyphs. Only
/// native text has runs, and only its glyphs with a Unicode value take part.
/// `continues(first, previous, next)` says whether glyph `next` continues
/// the run that starts at glyph `first` and so far ends at glyph `previous`.
pub fn glyph_runs<F: Fn(usize, usize, usize) -> bool>(
    decision: ReconstructionDecision,
    unicode: &[Option<char>],
    continues: F,
) -> (runs: Vec<Vec<usize>>)
    requires
        forall|first: usize, previous: usize, next: usize| #[trigger]
            continues.requires((first, previous, next)),
    ensures
        decision != ReconstructionDecision::NativeText ==> runs@.len() == 0,
        decision == ReconstructionDecision::NativeText ==> is_run_split(
            continues,
            unicode@,
            run_views(runs@),
        ),
{
    let mut runs: Vec<Vec<usize>> = Vec::new();
    if decision != ReconstructionDecision::NativeText {
        return runs;
    }
    let mut current: Vec<usize> = Vec::new();
    for i in 0..unicode.len()
        invariant
            forall|first: usize, previous: usize, next: usize| #[trigger]
                continues.requires((first, previous, next)),
            joined(run_views(runs@)) + current@ == kept_glyphs(unicode@, i as int),
            forall|k: int| 0 <= k < runs@.len() ==> run_holds_together(continues, #[trigger] run_views(runs@)[k]),
            forall|k: int| 0 <= k < runs@.len() - 1 ==> breaks_between(
                continues,
                #[trigger] run_views(runs@)[k],
                run_views(runs@)[k + 1],
            ),
            current@.len() == 0 ==> runs@.len() == 0,
            current@.len() > 0 ==> run_holds_together(continues, current@),
            current@.len() > 0 && runs@.len() > 0 ==> breaks_between(
                continues,
                run_views(runs@).last(),
                current@,
            ),
    {
        let ghost old_runs = run_views(runs@);
        let ghost old_current = current@;
        if unicode[i].is_some() {
            if current.len() == 0 {
                current.push(i);
                assert(current@ =~= old_current + seq![i]);
            } else {
                let first = current[0];
                let previous = current[current.len() - 1];
                if continues(first, previous, i) {
                    current.push(i);
                    assert(current@ =~= old_current + seq![i]);
                    assert forall|j: int| 1 <= j < current@.len() implies #[trigger] continues.ensures(
                        (current@[0], current@[j - 1], current@[j]),
                        true,
                    ) by {
                        if j < old_current.len() {
                            assert(continues.ensures((old_current[0], old_current[j - 1], old_current[j]), true));
                        }
                    }
                } else {
                    let finished = current;
                    current = Vec::new();
                    current.push(i);
                    runs.push(finished);
                    proof {
                        let views = run_views(runs@);
                        assert(views =~= old_runs.push(old_current));
                        assert(views.drop_last() =~= old_runs);
                        assert(joined(views) == joined(old_runs) + old_current);
                        assert(forall|k: int| 0 <= k < old_runs.len() ==> views[k] == old_runs[k]);
                        assert forall|k: int| 0 <= k < views.len() - 1 implies breaks_between(
                            continues,
                            #[trigger] views[k],
                            views[k + 1],
                        ) by {
                            if k < old_runs.len() - 1 {
                                assert(views[k] == old_runs[k] && views[k + 1] == old_runs[k + 1]);
                            } else {
                                assert(views[k] == old_runs.last());
                                assert(views[k + 1] == old_current);
                            }
                        }
                        assert(current@ =~= seq![i]);
                        assert(joined(views) + current@ =~= joined(old_runs) + (old_current + seq![i]));
                    }
                }
            }
            assert(kept_glyphs(unicode@, i + 1) == kept_glyphs(unicode@, i as int) + seq![i]);
        } else {
            assert(kept_glyphs(unicode@, i + 1) =~= kept_glyphs(unicode@, i as int));
        }
    }
    let ghost before_last = run_views(runs@);
    if current.len() > 0 {
        let ghost last = current@;
        runs.push(current);
        proof {
            let views = run_views(runs@);
            assert(views =~= before_last.push(last));
            assert(views.drop_last() =~= before_last);
            assert(forall|k: int| 0 <= k < before_last.len() ==> views[k] == before_last[k]);
            assert forall|k: int| 0 <= k < views.len() - 1 implies breaks_between(
                continues,
                #[trigger] views[k],
                views[k + 1],
            ) by {
                if k < before_last.len() - 1 {
                    assert(views[k] == before_last[k] && views[k + 1] == before_last[k + 1]);
                } else {
                    assert(views[k] == before_last.last());
                    assert(views[k + 1] == last);
                }
            }
        }
    } else {
        assert(joined(before_last) =~= joined(before_last) + Seq::<usize>::empty());
    }
    runs
}

/// The text of a run: the Unicode values of its glyphs, in order.
pub open spec fn spec_run_text_of(unicode: Seq<Option<char>>, run: Seq<usize>) -> Seq<char> {
    run.map_values(|i: usize| unicode[i as int].unwrap())
}

/// The text of the run made of glyphs `run`, each of which has a Unicode
/// value.
pub fn run_text(unicode: &[Option<char>], run: &[usize]) -> (text: String)
    requires
        forall|j: int| 0 <= j < run@.len() ==> #[trigger] run@[j] < unicode@.len() && unicode@[run@[j] as int] is Some,
    ensures
        text@ == spec_run_text_of(unicode@, run@),
{
    let mut text = String::new();
    for j in 0..run.len()
        invariant
            forall|j: int| 0 <= j < run@.len() ==> #[trigger] run@[j] < unicode@.len() && unicode@[run@[j] as int] is Some,
            text@ == spec_run_text_of(unicode@, run@.take(j as int)),
    {
        let glyph = run[j];
        let c = unicode[glyph].unwrap();
        push_char(&mut text, c);
        assert(text@ =~= spec_run_text_of(unicode@, run@.take(j + 1)));
    }
    assert(run@.take(run@.len() as int) =~= run@);
    text
}

} // verus!
