//! Accumulates deltas and compacts them every few interactions.
use crate::summarizer;
use crate::text;
use crate::types::PaneState;
use vstd::prelude::*;

verus! {

/// The summary of one interaction, and whether it covers the whole window.
pub struct RollingContextResult {
    pub summary: String,
    pub compacted: bool,
}

/// Compacts the rolling context every N decide-loop interactions instead of
/// resending the whole accumulated transcript every time. Compaction re-runs
/// the same extraction over the concatenated window.
pub struct RollingContextAccumulator {
    every_n: u32,
    window_texts: Vec<String>,
    count: u32,
    last_summary: Option<String>,
}

/// The texts since the last compaction and the summary that was made last.
#[verifier::ext_equal]
pub struct RollingState {
    pub every_n: nat,
    pub window: Seq<Seq<char>>,
    pub last_summary: Option<Seq<char>>,
}

/// One interaction: a delta, and the state of the pane then.
#[verifier::ext_equal]
pub struct Interaction {
    pub delta: Seq<char>,
    pub state: PaneState,
}

/// The deltas of a row of interactions.
pub open spec fn deltas(row: Seq<Interaction>) -> Seq<Seq<char>> {
    row.map_values(|one: Interaction| one.delta)
}

/// How many interactions lie between two compactions: N, where that is not zero.
pub open spec fn period(every_n: nat) -> nat {
    if every_n == 0 {
        1
    } else {
        every_n
    }
}

impl RollingState {
    /// Nothing recorded yet.
    pub open spec fn initial(every_n: nat) -> RollingState {
        RollingState { every_n, window: Seq::empty(), last_summary: None }
    }

    /// The next interaction completes the window.
    pub open spec fn compacts_next(self) -> bool {
        self.window.len() + 1 >= self.every_n
    }

    /// The summary that recording a delta gives: of the whole window when that
    /// completes it, else of the delta alone.
    pub open spec fn summary_of(self, delta: Seq<char>, state: PaneState) -> Seq<char> {
        if self.compacts_next() {
            summarizer::summarized(text::joined(self.window.push(delta), "\n"@), state)
        } else {
            summarizer::summarized(delta, state)
        }
    }

    /// The state after recording a delta.
    pub open spec fn after(self, delta: Seq<char>, state: PaneState) -> RollingState {
        RollingState {
            every_n: self.every_n,
            window: if self.compacts_next() {
                Seq::empty()
            } else {
                self.window.push(delta)
            },
            last_summary: Some(self.summary_of(delta, state)),
        }
    }

    /// The state after a row of interactions.
    pub open spec fn after_all(self, row: Seq<Interaction>) -> RollingState
        decreases row.len(),
    {
        if row.len() == 0 {
            self
        } else {
            self.after_all(row.drop_last()).after(row.last().delta, row.last().state)
        }
    }
}

impl View for RollingContextAccumulator {
    type V = RollingState;

    closed spec fn view(&self) -> RollingState {
        RollingState {
            every_n: self.every_n as nat,
            window: text::views(self.window_texts@),
            last_summary: text::option_view(self.last_summary),
        }
    }
}

impl RollingContextAccumulator {
    /// The counter counts the window, which is never full between two calls.
    pub closed spec fn wf(&self) -> bool {
        &&& self.count == self.window_texts@.len()
        &&& self.count == 0 || self.count < self.every_n
    }

    /// The window of an accumulator in order is never full.
    pub proof fn wf_is_not_full(&self)
        requires
            self.wf(),
        ensures
            self@.window.len() == 0 || self@.window.len() < self@.every_n,
    {
    }

    pub fn new(every_n: u32) -> (r: Self)
        ensures
            r.wf(),
            r@ == RollingState::initial(every_n as nat),
    {
        let r = RollingContextAccumulator {
            every_n,
            window_texts: Vec::new(),
            count: 0,
            last_summary: None,
        };
        proof {
            assert(text::views(r.window_texts@) =~= Seq::empty());
        }
        r
    }

    /// The summary that was made last, if any was.
    pub fn peek_summary(&self) -> (r: Option<String>)
        ensures
            text::option_view(r) == self@.last_summary,
    {
        match &self.last_summary {
            Some(summary) => Some(summary.clone()),
            None => None,
        }
    }

    /// Records one interaction and summarizes it; every N-th one summarizes the
    /// whole window and starts a fresh one.
    pub fn record(&mut self, delta_text: &str, state: PaneState) -> (r: RollingContextResult)
        requires
            old(self).wf(),
        ensures
            final(self).wf(),
            final(self)@ == old(self)@.after(delta_text@, state),
            r.summary@ == old(self)@.summary_of(delta_text@, state),
            final(self)@.last_summary == Some(r.summary@),
            r.compacted == old(self)@.compacts_next(),
    {
        let ghost before = text::views(self.window_texts@);
        self.window_texts.push(delta_text.to_owned());
        proof {
            assert(text::views(self.window_texts@) =~= before.push(delta_text@));
            assert(before.len() == old(self).window_texts@.len());
        }
        self.count = self.count + 1;
        if self.count >= self.every_n {
            let window = text::join(self.window_texts.as_slice(), "\n");
            let summary = summarizer::summarize(window.as_str(), state);
            self.window_texts.clear();
            self.count = 0;
            self.last_summary = Some(summary.clone());
            proof {
                assert(text::views(self.window_texts@) =~= Seq::empty());
            }
            return RollingContextResult { summary, compacted: true };
        }
        let summary = summarizer::summarize(delta_text, state);
        self.last_summary = Some(summary.clone());
        RollingContextResult { summary, compacted: false }
    }
}

/// The remainder grows by one until it starts anew.
pub(crate) proof fn one_more(n: int, m: int)
    requires
        m > 0,
        n >= 0,
    ensures
        (n + 1) % m == (if n % m + 1 == m {
            0
        } else {
            n % m + 1
        }),
{
    vstd::arithmetic::div_mod::lemma_fundamental_div_mod(n, m);
    let q = n / m;
    let r = n % m;
    if r + 1 == m {
        assert(n + 1 == m * (q + 1) + 0) by (nonlinear_arith)
            requires
                n == m * q + r,
                r + 1 == m,
        ;
        vstd::arithmetic::div_mod::lemma_fundamental_div_mod_converse(n + 1, m, q + 1, 0);
    } else {
        vstd::arithmetic::div_mod::lemma_mod_bound(n, m);
        assert(n + 1 == q * m + (r + 1)) by (nonlinear_arith)
            requires
                n == m * q + r,
        ;
        vstd::arithmetic::div_mod::lemma_fundamental_div_mod_converse(n + 1, m, q, r + 1);
    }
}

/// From the start, whatever the deltas and the states, the window holds the deltas
/// since the last compaction, which are as many as the interactions leave over when
/// divided by N; so the next interaction compacts exactly when it is an N-th one.
pub proof fn every_nth_compacts(every_n: nat, row: Seq<Interaction>)
    ensures
        RollingState::initial(every_n).after_all(row).every_n == every_n,
        RollingState::initial(every_n).after_all(row).window == deltas(row).skip(
            row.len() - row.len() % period(every_n),
        ),
        RollingState::initial(every_n).after_all(row).compacts_next() <==> (row.len() + 1) % period(
            every_n,
        ) == 0,
    decreases row.len(),
{
    let m = period(every_n);
    let s = RollingState::initial(every_n).after_all(row);
    one_more(row.len() as int, m as int);
    vstd::arithmetic::div_mod::lemma_mod_bound(row.len() as int, m as int);
    vstd::arithmetic::div_mod::lemma_mod_decreases(row.len(), m);
    if row.len() == 0 {
        assert(s.window =~= deltas(row).skip(row.len() - row.len() % m));
    } else {
        let earlier = row.drop_last();
        let n = earlier.len();
        every_nth_compacts(every_n, earlier);
        one_more(n as int, m as int);
        vstd::arithmetic::div_mod::lemma_mod_bound(n as int, m as int);
        vstd::arithmetic::div_mod::lemma_mod_decreases(n, m);
        assert(deltas(row) =~= deltas(earlier).push(row.last().delta));
        assert(s.window =~= deltas(row).skip(row.len() - row.len() % m));
    }
}

/// From the start, whatever the deltas and the states, every N-th interaction is
/// summarized together with the ones since the last compaction, N in all, and every
/// other one alone.
pub proof fn compaction_covers_the_window(every_n: nat, row: Seq<Interaction>)
    requires
        row.len() > 0,
    ensures
        RollingState::initial(every_n).after_all(row).last_summary == Some(
            summarizer::summarized(
                if row.len() % period(every_n) == 0 {
                    text::joined(deltas(row).skip(row.len() - period(every_n)), "\n"@)
                } else {
                    row.last().delta
                },
                row.last().state,
            ),
        ),
{
    let m = period(every_n);
    let earlier = row.drop_last();
    let n = earlier.len();
    every_nth_compacts(every_n, earlier);
    one_more(n as int, m as int);
    vstd::arithmetic::div_mod::lemma_mod_bound(n as int, m as int);
    let s = RollingState::initial(every_n).after_all(earlier);
    if row.len() % m == 0 {
        vstd::arithmetic::div_mod::lemma_mod_decreases(n, m);
        assert(deltas(row) =~= deltas(earlier).push(row.last().delta));
        assert(s.window.push(row.last().delta) =~= deltas(row).skip(row.len() - m));
    }
}

/// A window of one interaction, or of none, compacts every time.
pub proof fn small_window_compacts_always(s: RollingState, delta: Seq<char>, state: PaneState)
    requires
        s.every_n <= 1,
        s.window.len() == 0,
    ensures
        s.compacts_next(),
        s.after(delta, state).window.len() == 0,
        s.summary_of(delta, state) == summarizer::summarized(delta, state),
{
    assert(s.window.push(delta) =~= seq![delta]);
}

/// What a call says is what is remembered: of the whole window together with the
/// delta where that completes it, and else of the delta alone.
pub proof fn the_summary_is_remembered(s: RollingState, delta: Seq<char>, state: PaneState)
    ensures
        s.after(delta, state).last_summary == Some(s.summary_of(delta, state)),
        s.after(delta, state).every_n == s.every_n,
        s.window.len() + 1 >= s.every_n ==> {
            &&& s.after(delta, state).window.len() == 0
            &&& s.summary_of(delta, state) == summarizer::summarized(
                text::joined(s.window.push(delta), "\n"@),
                state,
            )
        },
        s.window.len() + 1 < s.every_n ==> {
            &&& s.after(delta, state).window == s.window.push(delta)
            &&& s.summary_of(delta, state) == summarizer::summarized(delta, state)
        },
        s.compacts_next() <==> s.window.len() + 1 >= s.every_n,
        RollingState::initial(s.every_n).window.len() == 0,
        RollingState::initial(s.every_n).last_summary is None,
{
}

} // verus!
