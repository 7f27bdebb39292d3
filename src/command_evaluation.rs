use vstd::prelude::*;
use crate::lineeditor::copy_chars;

verus! {

/// How a pipeline is run: directly through the host's shell, or inside the
/// sandbox launcher.
#[derive(PartialEq, Eq, Structural, Clone, Copy)]
pub enum ExecutionMode {
    UNSAFE,
    ISOLATED,
}

pub open spec fn shell_word() -> Seq<char> {
    seq!['b', 'a', 's', 'h']
}

pub open spec fn dash_c_word() -> Seq<char> {
    seq!['-', 'c']
}

pub open spec fn launcher_word() -> Seq<char> {
    seq!['b', 'w', 'r', 'a', 'p']
}

pub open spec fn ro_bind_word() -> Seq<char> {
    seq!['-', '-', 'r', 'o', '-', 'b', 'i', 'n', 'd']
}

/// The launcher arguments that bind each `(host, sandboxed)` pair read-only.
pub open spec fn mount_args(mounts: Seq<(Seq<char>, Seq<char>)>) -> Seq<Seq<char>>
    decreases mounts.len(),
{
    if mounts.len() == 0 {
        Seq::empty()
    } else {
        mount_args(mounts.drop_last()) + seq![ro_bind_word(), mounts.last().0, mounts.last().1]
    }
}

/// The program and arguments that run `text` in the given mode.
pub open spec fn command_args(
    mode: ExecutionMode,
    mounts: Seq<(Seq<char>, Seq<char>)>,
    text: Seq<char>,
) -> Seq<Seq<char>> {
    let shell = seq![shell_word(), dash_c_word(), text];
    match mode {
        ExecutionMode::UNSAFE => shell,
        ExecutionMode::ISOLATED => seq![launcher_word()] + mount_args(mounts) + shell,
    }
}

pub open spec fn mounts_view(m: Seq<(Vec<char>, Vec<char>)>) -> Seq<(Seq<char>, Seq<char>)> {
    m.map_values(|p: (Vec<char>, Vec<char>)| (p.0@, p.1@))
}

pub open spec fn args_view(a: Seq<Vec<char>>) -> Seq<Seq<char>> {
    a.map_values(|w: Vec<char>| w@)
}

/// The command line that runs `text`: through the shell in UNSAFE mode; in
/// ISOLATED mode through the sandbox launcher, with each mount bound read-only
/// and nothing else of the host.
pub fn build_command(mode: ExecutionMode, mounts: &Vec<(Vec<char>, Vec<char>)>, text: &Vec<char>) -> (r:
    Vec<Vec<char>>)
    ensures
        args_view(r@) == command_args(mode, mounts_view(mounts@), text@),
{
    let mut r: Vec<Vec<char>> = Vec::new();
    let ghost ms = mounts_view(mounts@);
    if mode == ExecutionMode::ISOLATED {
        let w = vec!['b', 'w', 'r', 'a', 'p'];
        assert(w@ =~= launcher_word());
        r.push(w);
        assert(args_view(r@) =~= seq![launcher_word()] + mount_args(ms.take(0)));
        let mut i: usize = 0;
        while i < mounts.len()
            invariant
                i <= mounts@.len(),
                ms == mounts_view(mounts@),
                args_view(r@) == seq![launcher_word()] + mount_args(ms.take(i as int)),
            decreases mounts@.len() - i,
        {
            let ghost before = args_view(r@);
            let w = vec!['-', '-', 'r', 'o', '-', 'b', 'i', 'n', 'd'];
            assert(w@ =~= ro_bind_word());
            let host = copy_chars(&mounts[i].0);
            let inside = copy_chars(&mounts[i].1);
            r.push(w);
            r.push(host);
            r.push(inside);
            assert(ms[i as int] == (mounts@[i as int].0@, mounts@[i as int].1@));
            assert(args_view(r@) =~= before + seq![ro_bind_word(), ms[i as int].0, ms[i as int].1]);
            i += 1;
            assert(ms.take(i as int).drop_last() =~= ms.take(i - 1));
            assert(args_view(r@) =~= seq![launcher_word()] + mount_args(ms.take(i as int)));
        }
        assert(ms.take(i as int) =~= ms);
    }
    let ghost pre = args_view(r@);
    let w1 = vec!['b', 'a', 's', 'h'];
    let w2 = vec!['-', 'c'];
    assert(w1@ =~= shell_word());
    assert(w2@ =~= dash_c_word());
    r.push(w1);
    r.push(w2);
    r.push(copy_chars(text));
    assert(args_view(r@) =~= pre + seq![shell_word(), dash_c_word(), text@]);
    proof {
        if mode == ExecutionMode::UNSAFE {
            assert(pre =~= Seq::<Seq<char>>::empty());
        }
    }
    assert(args_view(r@) =~= command_args(mode, mounts_view(mounts@), text@));
    r
}

/// A run to start: its sequence number and the pipeline text.
pub struct Spawn {
    pub seq: u64,
    pub text: Vec<char>,
}

/// What to do when a run has finished.
pub struct FinishDecision {
    /// The finished run's output is to be displayed.
    pub show: bool,
    /// A run to start now.
    pub spawn: Option<Spawn>,
}

/// The state of the evaluation pipeline, as mathematical values.
pub struct TrackerModel {
    pub next: u64,
    pub running: Option<(u64, Seq<char>)>,
    pub pending: Option<Seq<char>>,
}

pub open spec fn next_seq(n: u64) -> u64 {
    if n == u64::MAX {
        0
    } else {
        (n + 1) as u64
    }
}

/// A model is well formed when nothing waits while no run is in flight.
pub open spec fn model_wf(m: TrackerModel) -> bool {
    m.pending is Some ==> m.running is Some
}

/// The text of the most recent request whose output is still owed.
pub open spec fn wanted(m: TrackerModel) -> Option<Seq<char>> {
    match m.pending {
        Some(t) => Some(t),
        None => match m.running {
            Some(r) => Some(r.1),
            None => None,
        },
    }
}

/// State and run to start after a request for `text`: started at once when
/// nothing runs, else kept as the one request that waits, replacing any
/// earlier one.
pub open spec fn submit_model(m: TrackerModel, text: Seq<char>) -> (TrackerModel, Option<(u64, Seq<char>)>) {
    match m.running {
        None => (
            TrackerModel { next: next_seq(m.next), running: Some((m.next, text)), pending: None },
            Some((m.next, text)),
        ),
        Some(r) => (TrackerModel { pending: Some(text), ..m }, None),
    }
}

/// State, whether to display, and run to start after run `seq` finished.
pub open spec fn finish_model(m: TrackerModel, seq: u64) -> (TrackerModel, bool, Option<(u64, Seq<char>)>) {
    match m.running {
        Some(r) => if r.0 == seq {
            match m.pending {
                Some(t) => (
                    TrackerModel { next: next_seq(m.next), running: Some((m.next, t)), pending: None },
                    false,
                    Some((m.next, t)),
                ),
                None => (TrackerModel { running: None, ..m }, true, None),
            }
        } else {
            (m, false, None)
        },
        None => (m, false, None),
    }
}

/// The state after requests for each of `ts` in turn.
pub open spec fn submit_all(m: TrackerModel, ts: Seq<Seq<char>>) -> TrackerModel
    decreases ts.len(),
{
    if ts.len() == 0 {
        m
    } else {
        submit_model(submit_all(m, ts.drop_last()), ts.last()).0
    }
}

/// Whatever has happened before, a finished run is displayed only when its
/// text is that of the most recent request; and once that request is made,
/// its output is displayed after at most two runs have finished.
pub proof fn lemma_latest_request_wins(m: TrackerModel, ts: Seq<Seq<char>>)
    requires
        model_wf(m),
        ts.len() > 0,
    ensures
        ({
            let m1 = submit_all(m, ts);
            &&& model_wf(m1)
            &&& wanted(m1) == Some(ts.last())
            &&& m1.running is Some
            &&& forall|s: u64| #[trigger] finish_model(m1, s).1 ==> m1.running.unwrap().1 == ts.last()
            &&& {
                let f = finish_model(m1, m1.running.unwrap().0);
                ||| f.1
                ||| (f.2 matches Some(sp) && sp.1 == ts.last() && finish_model(f.0, sp.0).1)
            }
        }),
    decreases ts.len(),
{
    if ts.len() > 1 {
        lemma_latest_request_wins(m, ts.drop_last());
    }
}

/// Each step keeps the model well formed, and a finished run that is to be
/// displayed ran the text of the most recent request.
pub proof fn lemma_only_latest_shown(m: TrackerModel, text: Seq<char>, seq: u64)
    requires
        model_wf(m),
    ensures
        model_wf(submit_model(m, text).0),
        wanted(submit_model(m, text).0) == Some(text),
        model_wf(finish_model(m, seq).0),
        finish_model(m, seq).1 ==> (m.running matches Some(r) && wanted(m) == Some(r.1)),
{
}

/// Tracks which run of the evaluation pipeline is authoritative. Runs are
/// never preempted: one that a newer request supersedes is left to finish and
/// its output dropped.
pub struct ExecutionTracker {
    pub next: u64,
    pub running: Option<u64>,
    pub running_text: Vec<char>,
    pub pending: Option<Vec<char>>,
}

impl ExecutionTracker {
    pub open spec fn view(&self) -> TrackerModel {
        TrackerModel {
            next: self.next,
            running: match self.running {
                Some(s) => Some((s, self.running_text@)),
                None => None,
            },
            pending: match self.pending {
                Some(t) => Some(t@),
                None => None,
            },
        }
    }

    pub fn new() -> (r: ExecutionTracker)
        ensures
            r.view() == (TrackerModel { next: 0, running: None, pending: None }),
    {
        ExecutionTracker { next: 0, running: None, running_text: Vec::new(), pending: None }
    }

    fn advance(&mut self) -> (r: u64)
        ensures
            r == old(self).next,
            final(self).next == next_seq(old(self).next),
            final(self).running == old(self).running,
            final(self).running_text == old(self).running_text,
            final(self).pending == old(self).pending,
    {
        let s = self.next;
        if self.next == u64::MAX {
            self.next = 0;
        } else {
            self.next = self.next + 1;
        }
        s
    }

    /// Records a request for `text`; gives the run to start now, if any.
    pub fn submit(&mut self, text: Vec<char>) -> (r: Option<Spawn>)
        ensures
            final(self).view() == submit_model(old(self).view(), text@).0,
            match submit_model(old(self).view(), text@).1 {
                Some(sp) => r matches Some(x) && x.seq == sp.0 && x.text@ == sp.1,
                None => r is None,
            },
    {
        if self.running.is_none() {
            let s = self.advance();
            self.running = Some(s);
            self.running_text = copy_chars(&text);
            self.pending = None;
            Some(Spawn { seq: s, text })
        } else {
            self.pending = Some(text);
            None
        }
    }

    /// Decides what to do now that run `seq` has finished.
    pub fn on_finished(&mut self, seq: u64) -> (r: FinishDecision)
        ensures
            final(self).view() == finish_model(old(self).view(), seq).0,
            r.show == finish_model(old(self).view(), seq).1,
            match finish_model(old(self).view(), seq).2 {
                Some(sp) => r.spawn matches Some(x) && x.seq == sp.0 && x.text@ == sp.1,
                None => r.spawn is None,
            },
    {
        match self.running {
            Some(cur) => {
                if cur == seq {
                    match self.pending.take() {
                        Some(t) => {
                            let s = self.advance();
                            self.running = Some(s);
                            self.running_text = copy_chars(&t);
                            FinishDecision { show: false, spawn: Some(Spawn { seq: s, text: t }) }
                        },
                        None => {
                            self.running = None;
                            FinishDecision { show: true, spawn: None }
                        },
                    }
                } else {
                    FinishDecision { show: false, spawn: None }
                }
            },
            None => FinishDecision { show: false, spawn: None },
        }
    }

    /// Whether a run is in flight.
    pub fn is_running(&self) -> (r: bool)
        ensures
            r == self.running is Some,
    {
        self.running.is_some()
    }
}

} // verus!
