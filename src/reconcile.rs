use vstd::prelude::*;
use crate::change::{Modification, ModificationView};
use crate::model::{Rule, RuleView};
use crate::remote::{
    apply_plan, check_next, check_start, CheckError, CheckErrorView, Command, CommandView, Output,
    Probe, ProbeView, Step, StepView, steps_view,
};
use crate::state::State;
use crate::digest::{is_hex_digest, sha256_hex_of};
use crate::model::{ContentView, FileSpecView};
use crate::remote::{attribute_steps, cmd, first_word, lemma_file_convergence, parent_dir, sha256sum_report};
use crate::text::radix_digits;
use vstd::utf8::encode_utf8;
use crate::text::owned;

verus! {

/// What the driver of a host run reports back after performing an action.
pub enum Reply {
    /// An emitted record was written, or a run was started.
    Ack,
    /// A command ran and produced this output.
    Ran(Output),
    /// A file was written.
    Stored,
    /// The transport failed, with its message.
    Broken(String),
}

pub enum ReplyView {
    Ack,
    Ran(bool, Seq<u8>),
    Stored,
    Broken(Seq<char>),
}

impl View for Reply {
    type V = ReplyView;

    open spec fn view(&self) -> ReplyView {
        match self {
            Reply::Ack => ReplyView::Ack,
            Reply::Ran(o) => ReplyView::Ran(o.success, o.stdout@),
            Reply::Stored => ReplyView::Stored,
            Reply::Broken(m) => ReplyView::Broken(m@),
        }
    }
}

/// Why a host run stopped.
pub enum HostError {
    Check(CheckError),
    /// A command of an apply step exited unsuccessfully (its program).
    StepFailed(String),
    Transport(String),
    UnexpectedReply,
}

pub enum HostErrorView {
    Check(CheckErrorView),
    StepFailed(Seq<char>),
    Transport(Seq<char>),
    UnexpectedReply,
}

impl View for HostError {
    type V = HostErrorView;

    open spec fn view(&self) -> HostErrorView {
        match self {
            HostError::Check(CheckError::DigestFailed(p)) => HostErrorView::Check(CheckErrorView::DigestFailed(p@)),
            HostError::Check(CheckError::NoScript(b)) => HostErrorView::Check(CheckErrorView::NoScript(b@)),
            HostError::StepFailed(p) => HostErrorView::StepFailed(p@),
            HostError::Transport(m) => HostErrorView::Transport(m@),
            HostError::UnexpectedReply => HostErrorView::UnexpectedReply,
        }
    }
}

/// The summary of a host whose rules were all checked and applied.
pub struct HostComplete {
    pub host: String,
    pub completed: bool,
    pub modifications: usize,
}

/// An event of the stream; each names its host.
pub enum Record {
    Change(String, Modification),
    Complete(HostComplete),
    Failed(String, HostError),
}

pub enum RecordView {
    Change(Seq<char>, ModificationView),
    Complete(Seq<char>, nat),
    Failed(Seq<char>, HostErrorView),
}

impl View for Record {
    type V = RecordView;

    open spec fn view(&self) -> RecordView {
        match self {
            Record::Change(h, m) => RecordView::Change(h@, m@),
            Record::Complete(c) => RecordView::Complete(c.host@, c.modifications as nat),
            Record::Failed(h, e) => RecordView::Failed(h@, e@),
        }
    }
}

pub open spec fn record_host(r: RecordView) -> Seq<char> {
    match r {
        RecordView::Change(h, _) => h,
        RecordView::Complete(h, _) => h,
        RecordView::Failed(h, _) => h,
    }
}

/// What the driver must do next for a host.
pub enum Action {
    Run(Command),
    Put(String, Vec<u8>),
    Emit(Record),
    Done,
}

pub enum ActionView {
    Run(CommandView),
    Put(Seq<char>, Seq<u8>),
    Emit(RecordView),
    Done,
}

impl View for Action {
    type V = ActionView;

    open spec fn view(&self) -> ActionView {
        match self {
            Action::Run(c) => ActionView::Run(c@),
            Action::Put(p, b) => ActionView::Put(p@, b@),
            Action::Emit(r) => ActionView::Emit(r@),
            Action::Done => ActionView::Done,
        }
    }
}

/// Where a host run stands.
#[derive(Clone, Copy, PartialEq, Eq, Structural)]
pub enum Phase {
    Start,
    /// Waiting for the output of the check command at this stage.
    Checking(usize),
    /// The modification at this index was emitted; waiting for the ack.
    Emitting(usize),
    /// Applying the modification at the first index; waiting for the reply
    /// to the step at the second.
    Applying(usize, usize),
    /// The summary or the failure was emitted.
    Closing,
    Done,
}

pub struct RunView {
    pub host: Seq<char>,
    pub phase: Phase,
    pub rule: nat,
    pub count: nat,
    pub failed: bool,
    pub mods: Seq<ModificationView>,
    pub steps: Seq<StepView>,
    /// The modifications emitted so far, in order.
    pub emitted: Seq<ModificationView>,
    /// The modifications whose every apply step succeeded, in order.
    pub applied: Seq<ModificationView>,
}

pub open spec fn initial_run(host: Seq<char>) -> RunView {
    RunView {
        host,
        phase: Phase::Start,
        rule: 0,
        count: 0,
        failed: false,
        mods: Seq::empty(),
        steps: Seq::empty(),
        emitted: Seq::empty(),
        applied: Seq::empty(),
    }
}

pub open spec fn begin_rule(s: RunView, rules: Seq<RuleView>, i: nat) -> (RunView, ActionView) {
    if i >= rules.len() {
        (RunView { phase: Phase::Closing, rule: i, ..s }, ActionView::Emit(RecordView::Complete(s.host, s.count)))
    } else {
        (RunView { phase: Phase::Checking(0), rule: i, ..s }, ActionView::Run(check_start(rules[i as int])))
    }
}

pub open spec fn fail_run(s: RunView, e: HostErrorView) -> (RunView, ActionView) {
    (RunView { phase: Phase::Closing, failed: true, ..s }, ActionView::Emit(RecordView::Failed(s.host, e)))
}

pub open spec fn after_probe(s: RunView, rules: Seq<RuleView>, stage: nat, p: ProbeView) -> (RunView, ActionView) {
    match p {
        ProbeView::Run(c) => (RunView { phase: Phase::Checking((stage + 1) as usize), ..s }, ActionView::Run(c)),
        ProbeView::Done(ms) => if ms.len() == 0 {
            begin_rule(s, rules, s.rule + 1)
        } else {
            (
                RunView { phase: Phase::Emitting(0), mods: ms, emitted: s.emitted.push(ms[0]), ..s },
                ActionView::Emit(RecordView::Change(s.host, ms[0])),
            )
        },
        ProbeView::Failed(e) => fail_run(s, HostErrorView::Check(e)),
    }
}

pub open spec fn step_action(st: StepView) -> ActionView {
    match st {
        StepView::Run(c) => ActionView::Run(c),
        StepView::Put(p, b) => ActionView::Put(p, b),
    }
}

pub open spec fn start_apply(s: RunView, m: nat) -> (RunView, ActionView) {
    let plan = apply_plan(s.mods[m as int]);
    (RunView { phase: Phase::Applying(m as usize, 0), steps: plan, ..s }, step_action(plan[0]))
}

pub open spec fn step_done(s: RunView, rules: Seq<RuleView>, m: nat, k: nat) -> (RunView, ActionView) {
    if k + 1 < s.steps.len() {
        (RunView { phase: Phase::Applying(m as usize, (k + 1) as usize), ..s }, step_action(s.steps[k + 1 as int]))
    } else {
        let s2 = RunView { applied: s.applied.push(s.mods[m as int]), count: s.count + 1, ..s };
        if m + 1 < s.mods.len() {
            (
                RunView { phase: Phase::Emitting((m + 1) as usize), emitted: s2.emitted.push(s.mods[m + 1 as int]), ..s2 },
                ActionView::Emit(RecordView::Change(s.host, s.mods[m + 1 as int])),
            )
        } else {
            begin_rule(s2, rules, s.rule + 1)
        }
    }
}

/// One transition of a host run: the reply to the last action gives the
/// next state and the next action.
pub open spec fn next_run(s: RunView, rules: Seq<RuleView>, r: ReplyView) -> (RunView, ActionView) {
    match s.phase {
        Phase::Start => begin_rule(s, rules, 0),
        Phase::Checking(stage) => match r {
            ReplyView::Ran(ok, out) => after_probe(s, rules, stage as nat, check_next(rules[s.rule as int], stage as nat, ok, out)),
            ReplyView::Broken(msg) => fail_run(s, HostErrorView::Transport(msg)),
            _ => fail_run(s, HostErrorView::UnexpectedReply),
        },
        Phase::Emitting(m) => match r {
            ReplyView::Ack => start_apply(s, m as nat),
            ReplyView::Broken(msg) => fail_run(s, HostErrorView::Transport(msg)),
            _ => fail_run(s, HostErrorView::UnexpectedReply),
        },
        Phase::Applying(m, k) => match r {
            ReplyView::Ran(ok, _) => match s.steps[k as int] {
                StepView::Run(c) => if ok {
                    step_done(s, rules, m as nat, k as nat)
                } else {
                    fail_run(s, HostErrorView::StepFailed(c.program))
                },
                StepView::Put(_, _) => fail_run(s, HostErrorView::UnexpectedReply),
            },
            ReplyView::Stored => match s.steps[k as int] {
                StepView::Put(_, _) => step_done(s, rules, m as nat, k as nat),
                StepView::Run(_) => fail_run(s, HostErrorView::UnexpectedReply),
            },
            ReplyView::Broken(msg) => fail_run(s, HostErrorView::Transport(msg)),
            ReplyView::Ack => fail_run(s, HostErrorView::UnexpectedReply),
        },
        Phase::Closing => (RunView { phase: Phase::Done, ..s }, ActionView::Done),
        Phase::Done => (s, ActionView::Done),
    }
}

/// The invariant of a host run over a rule list.
pub open spec fn run_inv(s: RunView, rules: Seq<RuleView>) -> bool {
    &&& s.rule <= rules.len()
    &&& s.count == s.applied.len()
    &&& s.count <= s.rule
    &&& match s.phase {
        Phase::Start => s.rule == 0 && !s.failed && s.emitted == s.applied,
        Phase::Checking(stage) => s.rule < rules.len() && stage <= 1 && !s.failed && s.emitted == s.applied,
        Phase::Emitting(m) => s.rule < rules.len() && m < s.mods.len() && s.mods.len() <= 1 && !s.failed
            && s.emitted == s.applied.push(s.mods[m as int]),
        Phase::Applying(m, k) => s.rule < rules.len() && m < s.mods.len() && s.mods.len() <= 1 && !s.failed
            && s.emitted == s.applied.push(s.mods[m as int]) && s.steps == apply_plan(s.mods[m as int])
            && k < s.steps.len(),
        Phase::Closing | Phase::Done => (s.failed || s.emitted == s.applied)
            && (s.emitted == s.applied || s.emitted == s.applied.push(s.emitted.last())),
    }
}

pub proof fn lemma_plan_nonempty(m: ModificationView)
    ensures
        apply_plan(m).len() > 0,
{
}

pub proof fn lemma_probe_shape(r: RuleView, stage: nat, ok: bool, out: Seq<u8>)
    ensures
        check_next(r, stage, ok, out) matches ProbeView::Run(_) ==> stage == 0,
        check_next(r, stage, ok, out) matches ProbeView::Done(ms) ==> ms.len() <= 1,
{
}

/// Every transition keeps the invariant.
pub proof fn lemma_next_keeps_inv(s: RunView, rules: Seq<RuleView>, r: ReplyView)
    requires
        run_inv(s, rules),
    ensures
        run_inv(next_run(s, rules, r).0, rules),
        next_run(s, rules, r).0.host == s.host,
{
    match s.phase {
        Phase::Checking(stage) => {
            match r {
                ReplyView::Ran(ok, out) => lemma_probe_shape(rules[s.rule as int], stage as nat, ok, out),
                _ => {},
            }
        },
        Phase::Emitting(m) => lemma_plan_nonempty(s.mods[m as int]),
        _ => {},
    }
}

/// The reconciliation of one host: it checks each rule in order and
/// applies the modifications found, asking its driver to run commands,
/// write files and emit records, one action at a time.
pub struct HostRun {
    host: String,
    rules: Vec<Rule>,
    phase: Phase,
    rule: usize,
    count: usize,
    failed: bool,
    mods: Vec<Modification>,
    steps: Vec<Step>,
    emitted: Ghost<Seq<ModificationView>>,
    applied: Ghost<Seq<ModificationView>>,
}

impl View for HostRun {
    type V = RunView;

    closed spec fn view(&self) -> RunView {
        RunView {
            host: self.host@,
            phase: self.phase,
            rule: self.rule as nat,
            count: self.count as nat,
            failed: self.failed,
            mods: self.mods@.map_values(|m: Modification| m@),
            steps: steps_view(self.steps@),
            emitted: self.emitted@,
            applied: self.applied@,
        }
    }
}

fn step_to_action(st: &Step) -> (a: Action)
    ensures
        a@ == step_action(st@),
{
    match st {
        Step::Run(c) => Action::Run(Command { program: c.program.clone(), args: crate::model::copy_strings(&c.args) }),
        Step::Put(p, b) => Action::Put(p.clone(), crate::model::copy_bytes(b)),
    }
}

fn host_error(e: &CheckError) -> (r: HostError)
    ensures
        r@ == HostErrorView::Check(match e {
            CheckError::DigestFailed(p) => CheckErrorView::DigestFailed(p@),
            CheckError::NoScript(b) => CheckErrorView::NoScript(b@),
        }),
{
    match e {
        CheckError::DigestFailed(p) => HostError::Check(CheckError::DigestFailed(p.clone())),
        CheckError::NoScript(b) => HostError::Check(CheckError::NoScript(b.clone())),
    }
}

impl HostRun {
    /// The rules this run reconciles, in order.
    pub closed spec fn spec_rules(&self) -> Seq<RuleView> {
        self.rules@.map_values(|r: Rule| r@)
    }

    /// The run's state is consistent with its rules.
    pub closed spec fn wf(&self) -> bool {
        run_inv(self@, self.spec_rules())
    }

    /// A run of the state's rules on a host.
    pub fn new(host: &str, state: &State) -> (r: HostRun)
        ensures
            r@ == initial_run(host@),
            r.spec_rules() == state@.rules,
            r.wf(),
    {
        let source = state.rules();
        let mut rules: Vec<Rule> = Vec::new();
        let mut i: usize = 0;
        while i < source.len()
            invariant
                i <= source@.len(),
                source@.map_values(|x: Rule| x@) == state@.rules,
                rules@.map_values(|x: Rule| x@) == state@.rules.subrange(0, i as int),
            decreases source@.len() - i,
        {
            let ghost before = rules@.map_values(|x: Rule| x@);
            let r = source[i].duplicate();
            rules.push(r);
            assert(rules@.map_values(|x: Rule| x@) =~= before.push(r@));
            i = i + 1;
            assert(rules@.map_values(|x: Rule| x@) =~= state@.rules.subrange(0, i as int));
        }
        assert(state@.rules.subrange(0, i as int) =~= state@.rules);
        let r = HostRun {
            host: owned(host),
            rules,
            phase: Phase::Start,
            rule: 0,
            count: 0,
            failed: false,
            mods: Vec::new(),
            steps: Vec::new(),
            emitted: Ghost(Seq::empty()),
            applied: Ghost(Seq::empty()),
        };
        assert(r@.mods =~= Seq::<ModificationView>::empty());
        assert(r@.steps =~= Seq::<StepView>::empty());
        r
    }

    pub fn host(&self) -> (r: &str)
        ensures
            r@ == self@.host,
    {
        self.host.as_str()
    }

    pub fn is_done(&self) -> (r: bool)
        ensures
            r == (self@.phase == Phase::Done),
    {
        self.phase == Phase::Done
    }

    pub fn has_failed(&self) -> (r: bool)
        ensures
            r == self@.failed,
    {
        self.failed
    }

    /// The number of modifications applied so far.
    pub fn applied_count(&self) -> (r: usize)
        ensures
            r == self@.count,
    {
        self.count
    }

    fn begin_rule(&mut self, i: usize) -> (a: Action)
        requires
            i <= old(self).rules@.len(),
        ensures
            (final(self)@, a@) == begin_rule(old(self)@, old(self).spec_rules(), i as nat),
            final(self).rules == old(self).rules,
    {
        self.rule = i;
        if i >= self.rules.len() {
            self.phase = Phase::Closing;
            Action::Emit(Record::Complete(HostComplete { host: self.host.clone(), completed: true, modifications: self.count }))
        } else {
            self.phase = Phase::Checking(0);
            Action::Run(self.rules[i].check_start())
        }
    }

    fn fail(&mut self, e: HostError) -> (a: Action)
        ensures
            (final(self)@, a@) == fail_run(old(self)@, e@),
            final(self).rules == old(self).rules,
    {
        self.phase = Phase::Closing;
        self.failed = true;
        Action::Emit(Record::Failed(self.host.clone(), e))
    }

    fn emit_change(&mut self, m: usize) -> (a: Action)
        requires
            m < old(self).mods@.len(),
        ensures
            final(self)@ == (RunView {
                phase: Phase::Emitting(m),
                emitted: old(self)@.emitted.push(old(self)@.mods[m as int]),
                ..old(self)@
            }),
            a@ == ActionView::Emit(RecordView::Change(old(self)@.host, old(self)@.mods[m as int])),
            final(self).rules == old(self).rules,
    {
        self.phase = Phase::Emitting(m);
        self.emitted = Ghost(self.emitted@.push(self.mods@[m as int]@));
        Action::Emit(Record::Change(self.host.clone(), self.mods[m].duplicate()))
    }

    /// Performs one transition: takes the reply to the last action and
    /// returns the next action.
    pub fn step(&mut self, reply: Reply) -> (a: Action)
        requires
            old(self).wf(),
        ensures
            (final(self)@, a@) == next_run(old(self)@, old(self).spec_rules(), reply@),
            final(self).spec_rules() == old(self).spec_rules(),
            final(self).wf(),
    {
        let ghost rv = self.spec_rules();
        assert(rv.len() == self.rules@.len());
        proof { lemma_next_keeps_inv(self@, rv, reply@); }
        match self.phase {
            Phase::Start => self.begin_rule(0),
            Phase::Checking(stage) => match reply {
                Reply::Ran(out) => {
                    let probe = self.rules[self.rule].check_next(stage, &out);
                    proof { lemma_probe_shape(rv[self.rule as int], stage as nat, out.success, out.stdout@); }
                    match probe {
                        Probe::Run(c) => {
                            self.phase = Phase::Checking(stage + 1);
                            Action::Run(c)
                        },
                        Probe::Done(ms) => {
                            if ms.len() == 0 {
                                assert(self.rule < self.rules.len());
                                self.begin_rule(self.rule + 1)
                            } else {
                                self.mods = ms;
                                self.emit_change(0)
                            }
                        },
                        Probe::Failed(e) => self.fail(host_error(&e)),
                    }
                },
                Reply::Broken(msg) => self.fail(HostError::Transport(msg)),
                _ => self.fail(HostError::UnexpectedReply),
            },
            Phase::Emitting(m) => match reply {
                Reply::Ack => {
                    let steps = self.mods[m].apply_steps();
                    proof { lemma_plan_nonempty(self@.mods[m as int]); }
                    self.steps = steps;
                    self.phase = Phase::Applying(m, 0);
                    step_to_action(&self.steps[0])
                },
                Reply::Broken(msg) => self.fail(HostError::Transport(msg)),
                _ => self.fail(HostError::UnexpectedReply),
            },
            Phase::Applying(m, k) => {
                let ok = match (&self.steps[k], &reply) {
                    (Step::Run(_), Reply::Ran(out)) => out.success,
                    (Step::Put(_, _), Reply::Stored) => true,
                    _ => false,
                };
                if ok {
                    self.step_done(m, k)
                } else {
                    match reply {
                        Reply::Broken(msg) => self.fail(HostError::Transport(msg)),
                        Reply::Ran(_) => match &self.steps[k] {
                            Step::Run(c) => {
                                let program = c.program.clone();
                                self.fail(HostError::StepFailed(program))
                            },
                            Step::Put(_, _) => self.fail(HostError::UnexpectedReply),
                        },
                        _ => self.fail(HostError::UnexpectedReply),
                    }
                }
            },
            Phase::Closing => {
                self.phase = Phase::Done;
                Action::Done
            },
            Phase::Done => Action::Done,
        }
    }

    fn step_done(&mut self, m: usize, k: usize) -> (a: Action)
        requires
            run_inv(old(self)@, old(self).spec_rules()),
            old(self)@.phase == Phase::Applying(m, k),
        ensures
            (final(self)@, a@) == step_done(old(self)@, old(self).spec_rules(), m as nat, k as nat),
            final(self).rules == old(self).rules,
    {
        assert(self.spec_rules().len() == self.rules@.len());
        assert(self.rule < self.rules.len());
        if k + 1 < self.steps.len() {
            self.phase = Phase::Applying(m, k + 1);
            step_to_action(&self.steps[k + 1])
        } else {
            self.applied = Ghost(self.applied@.push(self.mods@[m as int]@));
            self.count = self.count + 1;
            if m + 1 < self.mods.len() {
                self.emit_change(m + 1)
            } else {
                let next = self.rule + 1;
                self.begin_rule(next)
            }
        }
    }
}

/// The state reached and the actions asked for when a run in state `s`
/// receives the replies in order.
pub open spec fn run_trace(s: RunView, rules: Seq<RuleView>, replies: Seq<ReplyView>) -> (RunView, Seq<ActionView>)
    decreases replies.len(),
{
    if replies.len() == 0 {
        (s, Seq::empty())
    } else {
        let (s1, a) = next_run(s, rules, replies[0]);
        let (t, acts) = run_trace(s1, rules, replies.drop_first());
        (t, seq![a] + acts)
    }
}

/// An action that emits a record emits one naming this host.
pub open spec fn names_host(a: ActionView, host: Seq<char>) -> bool {
    match a {
        ActionView::Emit(rec) => record_host(rec) == host,
        _ => true,
    }
}

/// The modification an action emits, if it emits one.
pub open spec fn emitted_by(a: ActionView) -> Seq<ModificationView> {
    match a {
        ActionView::Emit(RecordView::Change(_, m)) => seq![m],
        _ => Seq::empty(),
    }
}

/// The modifications that the change records of an action sequence carry, in order.
pub open spec fn change_events(acts: Seq<ActionView>) -> Seq<ModificationView>
    decreases acts.len(),
{
    if acts.len() == 0 {
        Seq::empty()
    } else {
        emitted_by(acts[0]) + change_events(acts.drop_first())
    }
}

/// The action traces of several hosts run over the same rules, each fed
/// its own replies.
pub open spec fn fleet_traces(rules: Seq<RuleView>, hosts: Seq<Seq<char>>, replies: Seq<Seq<ReplyView>>) -> Seq<Seq<ActionView>> {
    Seq::new(hosts.len(), |i: int| run_trace(initial_run(hosts[i]), rules, replies[i]).1)
}

proof fn lemma_next_emits(s: RunView, rules: Seq<RuleView>, r: ReplyView)
    requires
        run_inv(s, rules),
    ensures
        next_run(s, rules, r).0.emitted == s.emitted + emitted_by(next_run(s, rules, r).1),
        names_host(next_run(s, rules, r).1, s.host),
        next_run(s, rules, r).0.host == s.host,
{
    lemma_next_keeps_inv(s, rules, r);
    let (t, a) = next_run(s, rules, r);
    if !(a matches ActionView::Emit(RecordView::Change(_, _))) {
        assert(s.emitted + emitted_by(a) =~= s.emitted);
    }
}

proof fn lemma_trace(s: RunView, rules: Seq<RuleView>, replies: Seq<ReplyView>)
    requires
        run_inv(s, rules),
    ensures
        run_inv(run_trace(s, rules, replies).0, rules),
        run_trace(s, rules, replies).0.emitted == s.emitted + change_events(run_trace(s, rules, replies).1),
        run_trace(s, rules, replies).0.host == s.host,
        forall|k: int| 0 <= k < run_trace(s, rules, replies).1.len()
            ==> names_host(#[trigger] run_trace(s, rules, replies).1[k], s.host),
    decreases replies.len(),
{
    if replies.len() > 0 {
        let (s1, a) = next_run(s, rules, replies[0]);
        lemma_next_emits(s, rules, replies[0]);
        lemma_next_keeps_inv(s, rules, replies[0]);
        lemma_trace(s1, rules, replies.drop_first());
        let acts = run_trace(s1, rules, replies.drop_first()).1;
        let all = seq![a] + acts;
        assert(all.drop_first() =~= acts);
        assert(all[0] == a);
        assert(s.emitted + change_events(all) =~= s.emitted + emitted_by(a) + change_events(acts));
        assert forall|k: int| 0 <= k < all.len() implies names_host(#[trigger] all[k], s.host) by {
            if k > 0 {
                assert(all[k] == acts[k - 1]);
            }
        }
    }
}

/// Event/apply correspondence: whatever the replies, the change records a
/// host run emits are the modifications it applied, in order, plus at most
/// the one being applied; once the run has closed without failure they are
/// exactly the applied ones. Every record names the run's host.
pub proof fn lemma_event_apply_correspondence(rules: Seq<RuleView>, host: Seq<char>, replies: Seq<ReplyView>)
    ensures
        ({
            let (t, acts) = run_trace(initial_run(host), rules, replies);
            &&& change_events(acts) == t.emitted
            &&& (change_events(acts) == t.applied || change_events(acts) == t.applied.push(change_events(acts).last()))
            &&& ((t.phase == Phase::Closing || t.phase == Phase::Done) && !t.failed ==> change_events(acts) == t.applied)
            &&& t.count == t.applied.len()
        }),
{
    let s = initial_run(host);
    lemma_trace(s, rules, replies);
    let (t, acts) = run_trace(s, rules, replies);
    assert(s.emitted + change_events(acts) =~= change_events(acts));
}

/// Empty-state idempotence: with no rules, a host run asks for no command
/// and no transfer; its first action emits a summary of zero modifications
/// for the host, and every later action is `Done`.
pub proof fn lemma_empty_rules(host: Seq<char>, replies: Seq<ReplyView>)
    requires
        replies.len() > 0,
    ensures
        run_trace(initial_run(host), Seq::empty(), replies).1[0] == ActionView::Emit(RecordView::Complete(host, 0)),
        forall|k: int| 1 <= k < run_trace(initial_run(host), Seq::empty(), replies).1.len()
            ==> #[trigger] run_trace(initial_run(host), Seq::empty(), replies).1[k] == ActionView::Done,
        run_trace(initial_run(host), Seq::empty(), replies).1.len() == replies.len(),
{
    let rules = Seq::<RuleView>::empty();
    let s = initial_run(host);
    let (s1, a) = next_run(s, rules, replies[0]);
    assert(s1.phase == Phase::Closing);
    lemma_closing_trace(s1, rules, replies.drop_first());
    let acts = run_trace(s1, rules, replies.drop_first()).1;
    let all = seq![a] + acts;
    assert forall|k: int| 1 <= k < all.len() implies #[trigger] all[k] == ActionView::Done by {
        assert(all[k] == acts[k - 1]);
    }
}

proof fn lemma_closing_trace(s: RunView, rules: Seq<RuleView>, replies: Seq<ReplyView>)
    requires
        s.phase == Phase::Closing || s.phase == Phase::Done,
    ensures
        run_trace(s, rules, replies).1.len() == replies.len(),
        forall|k: int| 0 <= k < replies.len() ==> #[trigger] run_trace(s, rules, replies).1[k] == ActionView::Done,
    decreases replies.len(),
{
    if replies.len() > 0 {
        let (s1, a) = next_run(s, rules, replies[0]);
        lemma_closing_trace(s1, rules, replies.drop_first());
        let acts = run_trace(s1, rules, replies.drop_first()).1;
        let all = seq![a] + acts;
        assert forall|k: int| 0 <= k < replies.len() implies #[trigger] all[k] == ActionView::Done by {
            if k > 0 {
                assert(all[k] == acts[k - 1]);
            }
        }
    }
}

/// Host isolation: the actions of host `b` depend only on its own replies,
/// so a failure injected into another host's replies leaves them unchanged;
/// and every record host `b` emits names host `b`.
pub proof fn lemma_host_isolation(
    rules: Seq<RuleView>,
    hosts: Seq<Seq<char>>,
    replies1: Seq<Seq<ReplyView>>,
    replies2: Seq<Seq<ReplyView>>,
    b: int,
)
    requires
        0 <= b < hosts.len(),
        replies1[b] == replies2[b],
    ensures
        fleet_traces(rules, hosts, replies1)[b] == fleet_traces(rules, hosts, replies2)[b],
        forall|k: int| 0 <= k < fleet_traces(rules, hosts, replies1)[b].len()
            ==> names_host(#[trigger] fleet_traces(rules, hosts, replies1)[b][k], hosts[b]),
{
    lemma_trace(initial_run(hosts[b]), rules, replies1[b]);
}

/// A host without a file rule's content: the run checks the file, emits the
/// missing file, creates its directory, transfers the bytes, sets the mode,
/// and closes with a summary of one modification.
pub proof fn lemma_file_rule_first_run(host: Seq<char>, f: FileSpecView, data: Seq<u8>, dir: Seq<char>, report: Seq<u8>, ok: bool)
    requires
        f.content == ContentView::Content(data, sha256_hex_of(data)),
        f.owner is None,
        f.group is None,
        parent_dir(f.path) == Some(dir),
        first_word(report) != encode_utf8(sha256_hex_of(data)),
    ensures
        run_trace(
            initial_run(host),
            seq![RuleView::File(f)],
            seq![
                ReplyView::Ack,
                ReplyView::Ran(ok, report),
                ReplyView::Ack,
                ReplyView::Ran(true, Seq::empty()),
                ReplyView::Stored,
                ReplyView::Ran(true, Seq::empty()),
                ReplyView::Ack,
            ],
        ).1 == seq![
            ActionView::Run(cmd("sha256sum"@, seq![f.path])),
            ActionView::Emit(RecordView::Change(host, ModificationView::MissingFile(f))),
            ActionView::Run(cmd("mkdir"@, seq!["-p"@, dir])),
            ActionView::Put(f.path, data),
            ActionView::Run(cmd("chmod"@, seq![radix_digits(f.mode as nat, 8), f.path])),
            ActionView::Emit(RecordView::Complete(host, 1)),
            ActionView::Done,
        ],
{
    let rules = seq![RuleView::File(f)];
    let replies = seq![
        ReplyView::Ack,
        ReplyView::Ran(ok, report),
        ReplyView::Ack,
        ReplyView::Ran(true, Seq::<u8>::empty()),
        ReplyView::Stored,
        ReplyView::Ran(true, Seq::<u8>::empty()),
        ReplyView::Ack,
    ];
    let plan = apply_plan(ModificationView::MissingFile(f));
    assert(attribute_steps(f) =~= seq![StepView::Run(cmd("chmod"@, seq![radix_digits(f.mode as nat, 8), f.path]))]);
    assert(plan =~= seq![
        StepView::Run(cmd("mkdir"@, seq!["-p"@, dir])),
        StepView::Put(f.path, data),
        StepView::Run(cmd("chmod"@, seq![radix_digits(f.mode as nat, 8), f.path])),
    ]);
    let s0 = initial_run(host);
    let (s1, a1) = next_run(s0, rules, replies[0]);
    let (s2, a2) = next_run(s1, rules, replies[1]);
    let (s3, a3) = next_run(s2, rules, replies[2]);
    let (s4, a4) = next_run(s3, rules, replies[3]);
    let (s5, a5) = next_run(s4, rules, replies[4]);
    let (s6, a6) = next_run(s5, rules, replies[5]);
    let (s7, a7) = next_run(s6, rules, replies[6]);
    assert(s3.steps == plan);
    let r1 = replies.drop_first();
    let r2 = r1.drop_first();
    let r3 = r2.drop_first();
    let r4 = r3.drop_first();
    let r5 = r4.drop_first();
    let r6 = r5.drop_first();
    let r7 = r6.drop_first();
    assert(r7.len() == 0);
    lemma_trace_step(s0, rules, replies);
    lemma_trace_step(s1, rules, r1);
    lemma_trace_step(s2, rules, r2);
    lemma_trace_step(s3, rules, r3);
    lemma_trace_step(s4, rules, r4);
    lemma_trace_step(s5, rules, r5);
    lemma_trace_step(s6, rules, r6);
    assert(run_trace(s0, rules, replies).1 =~= seq![a1, a2, a3, a4, a5, a6, a7]);
}

/// A host that holds a file rule's content: the run checks the file and
/// closes with a summary of no modification.
pub proof fn lemma_file_rule_rerun(host: Seq<char>, f: FileSpecView, data: Seq<u8>)
    requires
        f.content == ContentView::Content(data, sha256_hex_of(data)),
        is_hex_digest(sha256_hex_of(data)),
    ensures
        run_trace(
            initial_run(host),
            seq![RuleView::File(f)],
            seq![ReplyView::Ack, ReplyView::Ran(true, sha256sum_report(data, f.path)), ReplyView::Ack],
        ).1 == seq![
            ActionView::Run(cmd("sha256sum"@, seq![f.path])),
            ActionView::Emit(RecordView::Complete(host, 0)),
            ActionView::Done,
        ],
{
    lemma_file_convergence(f, data);
    let rules = seq![RuleView::File(f)];
    let replies = seq![ReplyView::Ack, ReplyView::Ran(true, sha256sum_report(data, f.path)), ReplyView::Ack];
    let s0 = initial_run(host);
    let (s1, a1) = next_run(s0, rules, replies[0]);
    let (s2, a2) = next_run(s1, rules, replies[1]);
    let (s3, a3) = next_run(s2, rules, replies[2]);
    let r1 = replies.drop_first();
    let r2 = r1.drop_first();
    let r3 = r2.drop_first();
    assert(r3.len() == 0);
    lemma_trace_step(s0, rules, replies);
    lemma_trace_step(s1, rules, r1);
    lemma_trace_step(s2, rules, r2);
    assert(run_trace(s0, rules, replies).1 =~= seq![a1, a2, a3]);
}

/// The trace after the first reply: its action, then the trace from the
/// state it leads to.
proof fn lemma_trace_step(s: RunView, rules: Seq<RuleView>, replies: Seq<ReplyView>)
    requires
        replies.len() > 0,
    ensures
        run_trace(s, rules, replies).1 == seq![next_run(s, rules, replies[0]).1]
            + run_trace(next_run(s, rules, replies[0]).0, rules, replies.drop_first()).1,
{
}

} // verus!
