use vstd::prelude::*;

verus! {

/// Runs the repeated-trial schedule of a fitness evaluation: for each of
/// `runs` repetitions, one trial on each of the `n_functions` training
/// functions, in catalog order. Entry `[r][f]` of the log is the outcome of
/// the trial of repetition `r` on function `f`.
pub fn run_trials<R, F: Fn(usize, usize) -> R>(runs: usize, n_functions: usize, trial: F) -> (log:
    Vec<Vec<R>>)
    requires
        forall|r: usize, f: usize| r < runs && f < n_functions ==> #[trigger] trial.requires((r, f)),
    ensures
        log@.len() == runs,
        forall|r: int| 0 <= r < runs ==> (#[trigger] log@[r])@.len() == n_functions,
        forall|r: int, f: int|
            0 <= r < runs && 0 <= f < n_functions ==> trial.ensures(
                (r as usize, f as usize),
                #[trigger] log@[r]@[f],
            ),
{
    let mut log: Vec<Vec<R>> = Vec::new();
    let mut r: usize = 0;
    while r < runs
        invariant
            r <= runs,
            log@.len() == r,
            forall|q: usize, f: usize| q < runs && f < n_functions ==> #[trigger] trial.requires((q, f)),
            forall|q: int| 0 <= q < r ==> (#[trigger] log@[q])@.len() == n_functions,
            forall|q: int, f: int|
                0 <= q < r && 0 <= f < n_functions ==> trial.ensures(
                    (q as usize, f as usize),
                    #[trigger] log@[q]@[f],
                ),
        decreases runs - r,
    {
        let mut outcomes: Vec<R> = Vec::new();
        let mut f: usize = 0;
        while f < n_functions
            invariant
                r < runs,
                f <= n_functions,
                outcomes@.len() == f,
                forall|q: usize, g: usize| q < runs && g < n_functions ==> #[trigger] trial.requires((q, g)),
                forall|g: int| 0 <= g < f ==> trial.ensures((r, g as usize), #[trigger] outcomes@[g]),
            decreases n_functions - f,
        {
            let outcome = trial(r, f);
            outcomes.push(outcome);
            f += 1;
        }
        log.push(outcomes);
        r += 1;
    }
    log
}

} // verus!
