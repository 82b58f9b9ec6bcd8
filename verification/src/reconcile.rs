//! State reconciliation: the declared desired package set is diffed against
//! the live installed snapshot, and only the missing delta is applied.  The
//! engine walks every desired unit, reports already-installed units as
//! satisfied without an install invocation, and records one outcome per unit;
//! a failed install never aborts the rest of the batch, and nothing is ever
//! removed.

use vstd::prelude::*;
use crate::text::views_of;

verus! {

/// The declared desired state: command-line packages and application casks,
/// in declaration order.
#[derive(Clone, Debug)]
pub struct DesiredPackageSet {
    pub packages: Vec<String>,
    pub casks: Vec<String>,
}

/// The installed-state snapshot queried from the external manager.
#[derive(Clone, Debug)]
pub struct InstalledState {
    pub packages: Vec<String>,
    pub casks: Vec<String>,
}

/// The derived install delta: desired minus installed, order preserved.
#[derive(Clone, Debug)]
pub struct ReconciliationPlan {
    pub to_install_packages: Vec<String>,
    pub to_install_casks: Vec<String>,
}

/// Whether a unit is a command-line package or an application cask.
#[derive(PartialEq, Eq, Structural, Clone, Copy, Debug)]
pub enum UnitKind {
    Package,
    Cask,
}

/// Per-unit result of one reconciliation step.
#[derive(Clone, Debug)]
pub enum InstallResult {
    /// The unit was missing and its install command exited zero.
    Installed,
    /// The unit was already present; no install command was invoked.
    AlreadySatisfied,
    /// The unit was missing and its install command failed.
    Failed { reason: String },
}

/// One outcome per desired unit, never mutated after creation.
#[derive(Clone, Debug)]
pub struct InstallOutcome {
    pub name: String,
    pub kind: UnitKind,
    pub result: InstallResult,
}

/// Mathematical image of an install result.
#[verifier::ext_equal]
pub enum ResultView {
    Installed,
    AlreadySatisfied,
    Failed { reason: Seq<char> },
}

/// Mathematical image of an outcome.
#[verifier::ext_equal]
pub struct OutcomeView {
    pub name: Seq<char>,
    pub kind: UnitKind,
    pub result: ResultView,
}

impl View for InstallOutcome {
    type V = OutcomeView;

    open spec fn view(&self) -> OutcomeView {
        OutcomeView {
            name: self.name@,
            kind: self.kind,
            result: match self.result {
                InstallResult::Installed => ResultView::Installed,
                InstallResult::AlreadySatisfied => ResultView::AlreadySatisfied,
                InstallResult::Failed { reason } => ResultView::Failed { reason: reason@ },
            },
        }
    }
}

/// The views of a sequence of outcomes.
pub open spec fn outcome_views(v: Seq<InstallOutcome>) -> Seq<OutcomeView> {
    v.map_values(|o: InstallOutcome| o@)
}

/// The predicate "not present in the installed listing".
pub open spec fn missing_from(installed: Seq<Seq<char>>) -> spec_fn(Seq<char>) -> bool {
    |x: Seq<char>| !installed.contains(x)
}

/// The install delta for one unit kind: the desired names that the installed
/// listing lacks, in desired order.
pub open spec fn diff_names(desired: Seq<Seq<char>>, installed: Seq<Seq<char>>) -> Seq<Seq<char>> {
    desired.filter(missing_from(installed))
}

/// Does the listing contain this name?
pub fn contains_name(list: &Vec<String>, name: &String) -> (r: bool)
    ensures
        r == views_of(list@).contains(name@),
{
    let mut i: usize = 0;
    while i < list.len()
        invariant
            0 <= i <= list@.len(),
            forall|j: int| 0 <= j < i ==> views_of(list@)[j] != name@,
        decreases list@.len() - i,
    {
        if list[i].eq(name) {
            proof {
                assert(views_of(list@)[i as int] == name@);
            }
            return true;
        }
        i += 1;
    }
    proof {
        assert forall|j: int| 0 <= j < views_of(list@).len() implies views_of(list@)[j] != name@
        by {}
    }
    false
}

/// The desired names missing from the installed listing, in desired order.
fn missing_names(desired: &Vec<String>, installed: &Vec<String>) -> (r: Vec<String>)
    ensures
        views_of(r@) == diff_names(views_of(desired@), views_of(installed@)),
{
    let ghost ds = views_of(desired@);
    let ghost inst = views_of(installed@);
    let ghost pred = missing_from(inst);
    let mut r: Vec<String> = Vec::new();
    let mut i: usize = 0;
    proof {
        assert(ds.take(0) =~= Seq::<Seq<char>>::empty());
        ds.take(0).lemma_filter_len(pred);
        assert(views_of(r@) =~= ds.take(0).filter(pred));
    }
    while i < desired.len()
        invariant
            0 <= i <= desired@.len(),
            ds == views_of(desired@),
            inst == views_of(installed@),
            pred == missing_from(inst),
            views_of(r@) == ds.take(i as int).filter(pred),
        decreases desired@.len() - i,
    {
        let name = desired[i].clone();
        let keep = !contains_name(installed, &name);
        proof {
            assert(ds.take(i + 1) =~= ds.take(i as int).push(ds[i as int]));
            ds.take(i as int).lemma_filter_push(ds[i as int], pred);
            assert(ds[i as int] == name@);
        }
        if keep {
            proof {
                assert(views_of(r@.push(name)) =~= views_of(r@).push(name@));
            }
            r.push(name);
        }
        i += 1;
    }
    proof {
        assert(ds.take(desired@.len() as int) =~= ds);
    }
    r
}

/// Compute the reconciliation plan: the set difference desired minus
/// installed, per unit kind, in declaration order.  This is the full install
/// delta: nothing desired and missing is omitted, nothing installed is ever
/// scheduled for removal.
pub fn compute_plan(desired: &DesiredPackageSet, installed: &InstalledState) -> (plan:
    ReconciliationPlan)
    ensures
        views_of(plan.to_install_packages@) == diff_names(
            views_of(desired.packages@),
            views_of(installed.packages@),
        ),
        views_of(plan.to_install_casks@) == diff_names(
            views_of(desired.casks@),
            views_of(installed.casks@),
        ),
{
    ReconciliationPlan {
        to_install_packages: missing_names(&desired.packages, &installed.packages),
        to_install_casks: missing_names(&desired.casks, &installed.casks),
    }
}

/// Monotonic difference: the plan is exactly the set difference between the
/// desired and the installed names; no extras, no omissions.
pub proof fn lemma_plan_is_set_difference(desired: Seq<Seq<char>>, installed: Seq<Seq<char>>)
    ensures
        diff_names(desired, installed).to_set() == desired.to_set().difference(
            installed.to_set(),
        ),
{
    let pred = missing_from(installed);
    let plan = diff_names(desired, installed);
    assert forall|x: Seq<char>| plan.to_set().contains(x) implies desired.to_set().contains(x)
        && !installed.to_set().contains(x) by {
        desired.lemma_filter_contains_rev(pred, x);
        let i = choose|i: int| 0 <= i < plan.len() && plan[i] == x;
        desired.lemma_filter_pred(pred, i);
    }
    assert forall|x: Seq<char>|
        desired.to_set().contains(x) && !installed.to_set().contains(x) implies plan.to_set()
        .contains(x) by {
        let i = choose|i: int| 0 <= i < desired.len() && desired[i] == x;
        desired.lemma_filter_contains(pred, i);
    }
    assert(plan.to_set() =~= desired.to_set().difference(installed.to_set()));
}

/// Idempotence: a reconciliation run whose installs all succeed leaves the
/// installed state covering the desired set, so a second run over the
/// unchanged desired set computes an empty plan and invokes nothing.
pub proof fn lemma_second_run_plan_empty(desired: Seq<Seq<char>>, installed: Seq<Seq<char>>)
    ensures
        diff_names(desired, installed + diff_names(desired, installed)).len() == 0,
{
    let plan = diff_names(desired, installed);
    let after = installed + plan;
    let pred = missing_from(after);
    assert forall|i: int| 0 <= i < desired.len() implies !#[trigger] pred(desired[i]) by {
        let x = desired[i];
        if installed.contains(x) {
            let j = choose|j: int| 0 <= j < installed.len() && installed[j] == x;
            assert(after[j] == x);
        } else {
            desired.lemma_filter_contains(missing_from(installed), i);
            let j = choose|j: int| 0 <= j < plan.len() && plan[j] == x;
            assert(after[installed.len() + j] == x);
        }
    }
    desired.lemma_all_neg_filter_empty(pred);
}

/// A unit the engine asks the application to install.
#[derive(Clone, Debug)]
pub struct InstallAction {
    pub name: String,
    pub kind: UnitKind,
}

/// What the engine reports for the next desired unit.
#[derive(Clone, Debug)]
pub enum EngineStep {
    /// Every desired unit has been processed.
    Done,
    /// The unit is already installed; a no-op outcome was recorded.
    Satisfied { name: String, kind: UnitKind },
    /// The unit is missing; the caller must run the install command and
    /// feed the result back through `record_result`.
    NeedInstall { name: String, kind: UnitKind },
}

/// Mathematical state of a reconciliation run.
#[verifier::ext_equal]
pub struct RunState {
    /// Desired units not yet examined, in declaration order.
    pub remaining: Seq<(Seq<char>, UnitKind)>,
    pub installed_packages: Seq<Seq<char>>,
    pub installed_casks: Seq<Seq<char>>,
    /// Outcomes recorded so far, one per examined unit.
    pub outcomes: Seq<OutcomeView>,
    /// The unit handed out for installation and not yet resolved.
    pub pending: Option<(Seq<char>, UnitKind)>,
}

/// The installed listing that decides a unit of this kind.
pub open spec fn installed_for(s: RunState, kind: UnitKind) -> Seq<Seq<char>> {
    match kind {
        UnitKind::Package => s.installed_packages,
        UnitKind::Cask => s.installed_casks,
    }
}

/// Names tagged with their unit kind.
pub open spec fn tagged(names: Seq<Seq<char>>, kind: UnitKind) -> Seq<(Seq<char>, UnitKind)> {
    names.map_values(|n: Seq<char>| (n, kind))
}

/// The desired units in processing order: packages first, then casks.
pub open spec fn entries_of(d: DesiredPackageSet) -> Seq<(Seq<char>, UnitKind)> {
    tagged(views_of(d.packages@), UnitKind::Package) + tagged(views_of(d.casks@), UnitKind::Cask)
}

/// Examining the next desired unit: an already-installed unit gets a no-op
/// outcome at once; a missing unit becomes pending until its install result
/// is recorded.
pub open spec fn advance(s: RunState) -> RunState
    recommends
        s.remaining.len() > 0,
        s.pending is None,
{
    let e = s.remaining[0];
    if installed_for(s, e.1).contains(e.0) {
        RunState {
            remaining: s.remaining.drop_first(),
            outcomes: s.outcomes.push(
                OutcomeView { name: e.0, kind: e.1, result: ResultView::AlreadySatisfied },
            ),
            pending: None,
            ..s
        }
    } else {
        RunState { remaining: s.remaining.drop_first(), pending: Some(e), ..s }
    }
}

/// Recording the install result of the pending unit.  Success or failure,
/// exactly one outcome is appended and the run goes on: a failure never
/// swallows the remaining units.
pub open spec fn record(s: RunState, ok: bool, reason: Seq<char>) -> RunState
    recommends
        s.pending is Some,
{
    let e = s.pending->Some_0;
    RunState {
        outcomes: s.outcomes.push(
            OutcomeView {
                name: e.0,
                kind: e.1,
                result: if ok {
                    ResultView::Installed
                } else {
                    ResultView::Failed { reason }
                },
            },
        ),
        pending: None,
        ..s
    }
}

/// Drives one reconciliation run: walks the desired units in order, asks the
/// application to install exactly the missing ones, and collects one outcome
/// per unit.
pub struct ReconcilerEngine {
    desired: DesiredPackageSet,
    installed: InstalledState,
    packages_done: usize,
    casks_done: usize,
    pending: Option<InstallAction>,
    outcomes: Vec<InstallOutcome>,
}

impl View for ReconcilerEngine {
    type V = RunState;

    closed spec fn view(&self) -> RunState {
        RunState {
            remaining: entries_of(self.desired).skip(
                self.packages_done + self.casks_done as int,
            ),
            installed_packages: views_of(self.installed.packages@),
            installed_casks: views_of(self.installed.casks@),
            outcomes: outcome_views(self.outcomes@),
            pending: match self.pending {
                Some(a) => Some((a.name@, a.kind)),
                None => None,
            },
        }
    }
}

impl ReconcilerEngine {
    /// The engine's position is inside the desired list: packages first,
    /// casks only after every package has been examined.
    pub closed spec fn wf(&self) -> bool {
        &&& self.packages_done <= self.desired.packages@.len()
        &&& self.casks_done <= self.desired.casks@.len()
        &&& self.casks_done > 0 ==> self.packages_done == self.desired.packages@.len()
    }

    /// A fresh run over the given desired set and installed snapshot.
    pub fn new(desired: DesiredPackageSet, installed: InstalledState) -> (r: ReconcilerEngine)
        ensures
            r.wf(),
            r@.remaining == entries_of(desired),
            r@.installed_packages == views_of(installed.packages@),
            r@.installed_casks == views_of(installed.casks@),
            r@.outcomes == Seq::<OutcomeView>::empty(),
            r@.pending is None,
    {
        let r = ReconcilerEngine {
            desired,
            installed,
            packages_done: 0,
            casks_done: 0,
            pending: None,
            outcomes: Vec::new(),
        };
        proof {
            assert(entries_of(r.desired).skip(0) =~= entries_of(r.desired));
            assert(outcome_views(r.outcomes@) =~= Seq::<OutcomeView>::empty());
        }
        r
    }

    /// Examine the next desired unit, if any.
    pub fn next(&mut self) -> (r: EngineStep)
        requires
            old(self).wf(),
            old(self)@.pending is None,
        ensures
            final(self).wf(),
            old(self)@.remaining.len() == 0 ==> r is Done && final(self)@ == old(self)@,
            old(self)@.remaining.len() > 0 ==> {
                let e = old(self)@.remaining[0];
                &&& final(self)@ == advance(old(self)@)
                &&& installed_for(old(self)@, e.1).contains(e.0) ==> (r matches
                    EngineStep::Satisfied { name, kind } && name@ == e.0 && kind == e.1)
                &&& !installed_for(old(self)@, e.1).contains(e.0) ==> (r matches
                    EngineStep::NeedInstall { name, kind } && name@ == e.0 && kind == e.1)
            },
    {
        let np = self.desired.packages.len();
        let nc = self.desired.casks.len();
        proof {
            assert(entries_of(self.desired).len() == np + nc);
        }
        if self.packages_done >= np && self.casks_done >= nc {
            return EngineStep::Done;
        }
        let (name, kind, listed) = if self.packages_done < np {
            let name = self.desired.packages[self.packages_done].clone();
            let listed = contains_name(&self.installed.packages, &name);
            (name, UnitKind::Package, listed)
        } else {
            let name = self.desired.casks[self.casks_done].clone();
            let listed = contains_name(&self.installed.casks, &name);
            (name, UnitKind::Cask, listed)
        };
        proof {
            let es = entries_of(self.desired);
            let p = self.packages_done + self.casks_done as int;
            assert(es.skip(p)[0] == es[p]);
            assert(es[p] == (name@, kind));
            assert(es.skip(p).drop_first() =~= es.skip(p + 1));
        }
        if self.packages_done < np {
            self.packages_done += 1;
        } else {
            self.casks_done += 1;
        }
        if listed {
            let outcome = InstallOutcome {
                name: name.clone(),
                kind,
                result: InstallResult::AlreadySatisfied,
            };
            proof {
                assert(outcome_views(self.outcomes@.push(outcome)) =~= outcome_views(
                    self.outcomes@,
                ).push(outcome@));
            }
            self.outcomes.push(outcome);
            proof {
                assert(self@ =~= advance(old(self)@));
            }
            EngineStep::Satisfied { name, kind }
        } else {
            self.pending = Some(InstallAction { name: name.clone(), kind });
            proof {
                assert(self@ =~= advance(old(self)@));
            }
            EngineStep::NeedInstall { name, kind }
        }
    }

    /// Record the result of the install command for the pending unit.
    pub fn record_result(&mut self, ok: bool, reason: &str)
        requires
            old(self).wf(),
            old(self)@.pending is Some,
        ensures
            final(self).wf(),
            final(self)@ == record(old(self)@, ok, reason@),
    {
        let action = self.pending.take().unwrap();
        let outcome = InstallOutcome {
            name: action.name,
            kind: action.kind,
            result: if ok {
                InstallResult::Installed
            } else {
                InstallResult::Failed { reason: reason.to_owned() }
            },
        };
        proof {
            assert(outcome_views(self.outcomes@.push(outcome)) =~= outcome_views(
                self.outcomes@,
            ).push(outcome@));
        }
        self.outcomes.push(outcome);
        proof {
            assert(self@ =~= record(old(self)@, ok, reason@));
        }
    }

    /// The outcomes recorded so far, one per examined unit.
    pub fn outcomes(&self) -> (r: &Vec<InstallOutcome>)
        ensures
            outcome_views(r@) == self@.outcomes,
    {
        &self.outcomes
    }

    /// Whether every desired unit has been examined and resolved.
    pub fn is_done(&self) -> (r: bool)
        requires
            self.wf(),
        ensures
            r == (self@.remaining.len() == 0 && self@.pending is None),
    {
        let np = self.desired.packages.len();
        let nc = self.desired.casks.len();
        proof {
            assert(entries_of(self.desired).len() == np + nc);
        }
        self.packages_done >= np && self.casks_done >= nc && self.pending.is_none()
    }
}

/// The predicate "this unit's listing lacks it", over tagged units.
pub open spec fn not_listed(ip: Seq<Seq<char>>, ic: Seq<Seq<char>>) -> spec_fn(
    (Seq<char>, UnitKind),
) -> bool {
    |e: (Seq<char>, UnitKind)|
        match e.1 {
            UnitKind::Package => !ip.contains(e.0),
            UnitKind::Cask => !ic.contains(e.0),
        }
}

/// The units a run will hand out for installation: exactly those of the
/// walk that their listing lacks, in walk order.  `advance` turns the head
/// of `remaining` into a pending install precisely when its listing lacks
/// it, so this is what the engine requests over a whole run.
pub open spec fn requested_units(
    es: Seq<(Seq<char>, UnitKind)>,
    ip: Seq<Seq<char>>,
    ic: Seq<Seq<char>>,
) -> Seq<(Seq<char>, UnitKind)> {
    es.filter(not_listed(ip, ic))
}

proof fn lemma_tagged_filter(
    names: Seq<Seq<char>>,
    kind: UnitKind,
    ip: Seq<Seq<char>>,
    ic: Seq<Seq<char>>,
)
    ensures
        tagged(names, kind).filter(not_listed(ip, ic)) == tagged(
            diff_names(
                names,
                match kind {
                    UnitKind::Package => ip,
                    UnitKind::Cask => ic,
                },
            ),
            kind,
        ),
    decreases names.len(),
{
    let pred = not_listed(ip, ic);
    let listing = match kind {
        UnitKind::Package => ip,
        UnitKind::Cask => ic,
    };
    let missing = missing_from(listing);
    if names.len() == 0 {
        names.lemma_filter_len(missing);
        tagged(names, kind).lemma_filter_len(pred);
        assert(tagged(names, kind).filter(pred) =~= tagged(names.filter(missing), kind));
    } else {
        let prefix = names.drop_last();
        let last = names.last();
        lemma_tagged_filter(prefix, kind, ip, ic);
        assert(names =~= prefix.push(last));
        assert(tagged(names, kind) =~= tagged(prefix, kind).push((last, kind)));
        tagged(prefix, kind).lemma_filter_push((last, kind), pred);
        prefix.lemma_filter_push(last, missing);
        assert(pred((last, kind)) == missing(last));
        if missing(last) {
            assert(tagged(prefix.filter(missing).push(last), kind) =~= tagged(
                prefix.filter(missing),
                kind,
            ).push((last, kind)));
        }
    }
}

/// The engine invokes installs only for plan entries: over a whole run,
/// the requested units are exactly the reconciliation plan, packages in
/// desired order first, then casks.
pub proof fn lemma_engine_requests_exactly_the_plan(
    desired: DesiredPackageSet,
    ip: Seq<Seq<char>>,
    ic: Seq<Seq<char>>,
)
    ensures
        requested_units(entries_of(desired), ip, ic) == tagged(
            diff_names(views_of(desired.packages@), ip),
            UnitKind::Package,
        ) + tagged(diff_names(views_of(desired.casks@), ic), UnitKind::Cask),
{
    let pred = not_listed(ip, ic);
    let pk = tagged(views_of(desired.packages@), UnitKind::Package);
    let ck = tagged(views_of(desired.casks@), UnitKind::Cask);
    Seq::filter_distributes_over_add(pk, ck, pred);
    lemma_tagged_filter(views_of(desired.packages@), UnitKind::Package, ip, ic);
    lemma_tagged_filter(views_of(desired.casks@), UnitKind::Cask, ip, ic);
}

/// Whether a finished batch must escalate to a failing exit: install
/// failures are reported, not escalated, unless not a single install
/// succeeded.  Already-satisfied units are no-ops and count for nobody.
pub open spec fn spec_batch_failed(ovs: Seq<OutcomeView>) -> bool {
    &&& exists|i: int| 0 <= i < ovs.len() && ovs[i].result is Failed
    &&& forall|i: int| 0 <= i < ovs.len() ==> !(ovs[i].result is Installed)
}

/// Decide the exit escalation for a finished batch.
pub fn batch_failed(outcomes: &Vec<InstallOutcome>) -> (r: bool)
    ensures
        r == spec_batch_failed(outcome_views(outcomes@)),
{
    let ghost ovs = outcome_views(outcomes@);
    let mut any_failed = false;
    let mut any_installed = false;
    let mut i: usize = 0;
    while i < outcomes.len()
        invariant
            0 <= i <= outcomes@.len(),
            ovs == outcome_views(outcomes@),
            any_failed == exists|j: int| 0 <= j < i && ovs[j].result is Failed,
            any_installed == exists|j: int| 0 <= j < i && ovs[j].result is Installed,
        decreases outcomes@.len() - i,
    {
        proof {
            assert(ovs[i as int] == outcomes@[i as int]@);
        }
        match &outcomes[i].result {
            InstallResult::Failed { .. } => {
                any_failed = true;
            },
            InstallResult::Installed => {
                any_installed = true;
            },
            InstallResult::AlreadySatisfied => {},
        }
        i += 1;
    }
    any_failed && !any_installed
}

/// Partial-failure isolation: when the install of one unit fails and a later
/// unit in the same batch succeeds, the outcome list carries the failure for
/// the one and the success for the other; the failure halts nothing.
pub proof fn lemma_partial_failure_isolation(
    s0: RunState,
    b: (Seq<char>, UnitKind),
    c: (Seq<char>, UnitKind),
    why: Seq<char>,
)
    requires
        s0.pending == Some(b),
        s0.remaining.len() > 0,
        s0.remaining[0] == c,
        !installed_for(s0, c.1).contains(c.0),
    ensures
        ({
            let s1 = record(s0, false, why);
            let s2 = advance(s1);
            let s3 = record(s2, true, Seq::<char>::empty());
            &&& s1.pending is None
            &&& s1.remaining == s0.remaining
            &&& s2.pending == Some(c)
            &&& s3.outcomes.contains(
                OutcomeView { name: b.0, kind: b.1, result: ResultView::Failed { reason: why } },
            )
            &&& s3.outcomes.contains(
                OutcomeView { name: c.0, kind: c.1, result: ResultView::Installed },
            )
        }),
{
    let s1 = record(s0, false, why);
    let s2 = advance(s1);
    let s3 = record(s2, true, Seq::<char>::empty());
    let ob = OutcomeView { name: b.0, kind: b.1, result: ResultView::Failed { reason: why } };
    let oc = OutcomeView { name: c.0, kind: c.1, result: ResultView::Installed };
    assert(s3.outcomes[s0.outcomes.len() as int] == ob);
    assert(s3.outcomes[s3.outcomes.len() - 1] == oc);
}

/// A desired set already covered by the installed state yields an empty plan.
pub proof fn lemma_plan_empty_when_satisfied(desired: Seq<Seq<char>>, installed: Seq<Seq<char>>)
    requires
        forall|x: Seq<char>| desired.contains(x) ==> installed.contains(x),
    ensures
        diff_names(desired, installed).len() == 0,
{
    let pred = missing_from(installed);
    assert forall|i: int| 0 <= i < desired.len() implies !#[trigger] pred(desired[i]) by {
        assert(desired.contains(desired[i]));
    }
    desired.lemma_all_neg_filter_empty(pred);
}

} // verus!
