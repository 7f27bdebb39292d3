use vstd::prelude::*;
use vstd::arithmetic::div_mod::{
    lemma_fundamental_div_mod,
    lemma_fundamental_div_mod_converse,
    lemma_mod_bound,
};

verus! {

/// Index after one forward step among `n` candidates.
pub open spec fn step_forward(i: int, n: int) -> int {
    (i + 1) % n
}

/// Index after one backward step among `n` candidates.
pub open spec fn step_backward(i: int, n: int) -> int {
    if i == 0 {
        n - 1
    } else {
        i - 1
    }
}

/// Index after `k` forward steps.
pub open spec fn forward_times(i: int, n: int, k: nat) -> int
    decreases k,
{
    if k == 0 {
        i
    } else {
        step_forward(forward_times(i, n, (k - 1) as nat), n)
    }
}

/// Index after `k` backward steps.
pub open spec fn backward_times(i: int, n: int, k: nat) -> int
    decreases k,
{
    if k == 0 {
        i
    } else {
        step_backward(backward_times(i, n, (k - 1) as nat), n)
    }
}

proof fn lemma_forward_times(i: int, n: int, k: nat)
    requires
        0 <= i < n,
    ensures
        forward_times(i, n, k) == (i + k) % n,
    decreases k,
{
    if k == 0 {
        lemma_fundamental_div_mod_converse(i, n, 0, i);
    } else {
        lemma_forward_times(i, n, (k - 1) as nat);
        let x = i + k - 1;
        lemma_fundamental_div_mod(x, n);
        lemma_mod_bound(x, n);
        let q = x / n;
        let r = x % n;
        assert(x == q * n + r) by (nonlinear_arith)
            requires
                x == n * q + r,
        ;
        if r + 1 < n {
            lemma_fundamental_div_mod_converse(r + 1, n, 0, r + 1);
            lemma_fundamental_div_mod_converse(x + 1, n, q, r + 1);
        } else {
            lemma_fundamental_div_mod_converse(r + 1, n, 1, 0);
            assert(x + 1 == (q + 1) * n + 0) by (nonlinear_arith)
                requires
                    x == q * n + r,
                    r + 1 == n,
            ;
            lemma_fundamental_div_mod_converse(x + 1, n, q + 1, 0);
        }
    }
}

proof fn lemma_backward_times(i: int, n: int, k: nat)
    requires
        0 <= i < n,
    ensures
        backward_times(i, n, k) == (i - k) % n,
    decreases k,
{
    if k == 0 {
        lemma_fundamental_div_mod_converse(i, n, 0, i);
    } else {
        lemma_backward_times(i, n, (k - 1) as nat);
        let x = i - k + 1;
        lemma_fundamental_div_mod(x, n);
        lemma_mod_bound(x, n);
        let q = x / n;
        let r = x % n;
        assert(x == q * n + r) by (nonlinear_arith)
            requires
                x == n * q + r,
        ;
        if r > 0 {
            lemma_fundamental_div_mod_converse(x - 1, n, q, r - 1);
        } else {
            assert(x - 1 == (q - 1) * n + (n - 1)) by (nonlinear_arith)
                requires
                    x == q * n + r,
                    r == 0,
            ;
            lemma_fundamental_div_mod_converse(x - 1, n, q - 1, n - 1);
        }
    }
}

/// Cycling through `n` candidates `n` times, forward or backward, comes back
/// to the index it started from.
pub proof fn lemma_cycle_returns(i: int, n: int)
    requires
        0 <= i < n,
    ensures
        forward_times(i, n, n as nat) == i,
        backward_times(i, n, n as nat) == i,
{
    lemma_forward_times(i, n, n as nat);
    lemma_backward_times(i, n, n as nat);
    lemma_fundamental_div_mod_converse(i + n, n, 1, i);
    lemma_fundamental_div_mod_converse(i - n, n, -1, i);
}

/// A list of completion candidates for a query, with one of them selected.
pub struct AutocompleteState {
    pub original_prompt: Vec<char>,
    pub options: Vec<Vec<char>>,
    pub current_idx: usize,
}

impl AutocompleteState {
    pub open spec fn wf(&self) -> bool {
        self.options@.len() > 0 && self.current_idx < self.options@.len()
    }

    /// A state selecting the first candidate, or none where there is no
    /// candidate.
    pub fn from_options(original_prompt: Vec<char>, options: Vec<Vec<char>>) -> (r: Option<
        AutocompleteState,
    >)
        ensures
            options@.len() == 0 <==> r is None,
            r matches Some(st) ==> st.wf() && st.current_idx == 0 && st.original_prompt@
                == original_prompt@ && st.options@ == options@,
    {
        if options.len() == 0 {
            None
        } else {
            Some(AutocompleteState { current_idx: 0, original_prompt, options })
        }
    }

    /// Selects the next candidate, wrapping around after the last.
    pub fn cycle_selected(&mut self)
        requires
            old(self).wf(),
        ensures
            final(self).wf(),
            final(self).current_idx == step_forward(
                old(self).current_idx as int,
                old(self).options@.len() as int,
            ),
            *final(self) == (AutocompleteState { current_idx: final(self).current_idx, ..*old(self) }),
    {
        proof {
            lemma_mod_bound(self.current_idx + 1, self.options@.len() as int);
        }
        let n = self.options.len();
        self.current_idx = (self.current_idx + 1) % n;
    }

    /// Selects the previous candidate, wrapping around before the first.
    pub fn cycle_selected_backwards(&mut self)
        requires
            old(self).wf(),
        ensures
            final(self).wf(),
            final(self).current_idx == step_backward(
                old(self).current_idx as int,
                old(self).options@.len() as int,
            ),
            *final(self) == (AutocompleteState { current_idx: final(self).current_idx, ..*old(self) }),
    {
        if self.current_idx == 0 {
            self.current_idx = self.options.len() - 1;
        } else {
            self.current_idx -= 1;
        }
    }

    /// The selected candidate.
    pub fn selected(&self) -> (r: &Vec<char>)
        requires
            self.wf(),
        ensures
            r@ == self.options@[self.current_idx as int]@,
    {
        &self.options[self.current_idx]
    }
}

} // verus!
