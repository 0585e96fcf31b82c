//! The catalogue of scenarios, in the order in which they are run and
//! reported, and the policy that keeps some of them from running.

use crate::error::HarnessError;
use crate::error::HarnessErrorView;
use crate::text::slice_text_of;
use crate::text::text_of;
use crate::text::texts;
use vstd::prelude::*;

verus! {

/// One scenario of the catalogue: its name and the time it is given.
#[derive(Debug)]
pub struct ScenarioSpec {
    pub name: String,
    pub timeout_ms: u64,
}

/// The mathematical content of a [`ScenarioSpec`].
pub struct ScenarioSpecView {
    pub name: Seq<char>,
    pub timeout_ms: nat,
}

impl View for ScenarioSpec {
    type V = ScenarioSpecView;

    open spec fn view(&self) -> ScenarioSpecView {
        ScenarioSpecView { name: self.name@, timeout_ms: self.timeout_ms as nat }
    }
}

impl Clone for ScenarioSpec {
    fn clone(&self) -> (copy: ScenarioSpec)
        ensures
            copy@ == self@,
    {
        ScenarioSpec { name: self.name.clone(), timeout_ms: self.timeout_ms }
    }
}

/// A scenario that is reported without being run, and why.
#[derive(Debug)]
pub struct SkipEntry {
    pub name: String,
    pub reason: String,
}

/// The mathematical content of a [`SkipEntry`].
pub struct SkipEntryView {
    pub name: Seq<char>,
    pub reason: Seq<char>,
}

impl View for SkipEntry {
    type V = SkipEntryView;

    open spec fn view(&self) -> SkipEntryView {
        SkipEntryView { name: self.name@, reason: self.reason@ }
    }
}

/// The views of a list of scenarios, in order.
pub open spec fn scenario_views(list: Seq<ScenarioSpec>) -> Seq<ScenarioSpecView> {
    list.map_values(|s: ScenarioSpec| s@)
}

/// The views of a list of skip entries, in order.
pub open spec fn skip_views(list: Seq<SkipEntry>) -> Seq<SkipEntryView> {
    list.map_values(|e: SkipEntry| e@)
}

/// The names of a list of scenarios, in order.
pub open spec fn scenario_names(list: Seq<ScenarioSpecView>) -> Seq<Seq<char>> {
    list.map_values(|s: ScenarioSpecView| s.name)
}

/// The names of a list of skip entries, in order.
pub open spec fn skip_names(list: Seq<SkipEntryView>) -> Seq<Seq<char>> {
    list.map_values(|e: SkipEntryView| e.name)
}

/// The first place at which `name` stands in `names`, if it stands there.
pub open spec fn position(names: Seq<Seq<char>>, name: Seq<char>) -> Option<int>
    decreases names.len(),
{
    if names.len() == 0 {
        None
    } else if names.first() == name {
        Some(0)
    } else {
        match position(names.drop_first(), name) {
            Some(i) => Some(i + 1),
            None => None,
        }
    }
}

/// No name stands twice in `names`.
pub open spec fn distinct(names: Seq<Seq<char>>) -> bool {
    forall|i: int, j: int|
        0 <= i < names.len() && 0 <= j < names.len() && #[trigger] names[i] == #[trigger] names[j]
            ==> i == j
}

/// `position` finds a name exactly when it is there, and then its first
/// occurrence.
pub proof fn lemma_position(names: Seq<Seq<char>>, name: Seq<char>)
    ensures
        match position(names, name) {
            Some(i) => 0 <= i < names.len() && names[i] == name && forall|j: int|
                0 <= j < i ==> names[j] != name,
            None => forall|j: int| 0 <= j < names.len() ==> names[j] != name,
        },
    decreases names.len(),
{
    if names.len() > 0 && names.first() != name {
        let rest = names.drop_first();
        lemma_position(rest, name);
        match position(rest, name) {
            Some(i) => {
                assert forall|j: int| 0 <= j < i + 1 implies names[j] != name by {
                    if j > 0 {
                        assert(names[j] == rest[j - 1]);
                    }
                }
            },
            None => {
                assert forall|j: int| 0 <= j < names.len() implies names[j] != name by {
                    if j > 0 {
                        assert(names[j] == rest[j - 1]);
                    }
                }
            },
        }
    }
}

/// The catalogue and the skip policy as mathematical values.
pub struct RegistryView {
    pub scenarios: Seq<ScenarioSpecView>,
    pub skips: Seq<SkipEntryView>,
}

impl RegistryView {
    /// Names identify scenarios, and the skip policy speaks of scenarios of
    /// the catalogue only, of each at most once.
    pub open spec fn wf(self) -> bool {
        &&& distinct(scenario_names(self.scenarios))
        &&& distinct(skip_names(self.skips))
        &&& forall|k: int|
            0 <= k < self.skips.len() ==> position(
                scenario_names(self.scenarios),
                #[trigger] self.skips[k].name,
            ) is Some
    }

    /// Whether the catalogue holds a scenario called `name`.
    pub open spec fn knows(self, name: Seq<char>) -> bool {
        position(scenario_names(self.scenarios), name) is Some
    }

    /// The reason for which `name` is not run, if the policy names it.
    pub open spec fn skip_reason(self, name: Seq<char>) -> Option<Seq<char>> {
        match position(skip_names(self.skips), name) {
            Some(k) => Some(self.skips[k].reason),
            None => None,
        }
    }

    /// The scenarios that a run covers: all of them where nothing is asked
    /// for, the one asked for where the catalogue knows it, none otherwise.
    pub open spec fn selection(self, filter: Option<Seq<char>>) -> Option<Seq<ScenarioSpecView>> {
        match filter {
            None => Some(self.scenarios),
            Some(name) => match position(scenario_names(self.scenarios), name) {
                Some(i) => Some(seq![self.scenarios[i]]),
                None => None,
            },
        }
    }
}

/// The reason for which the scenarios that subscribe ahead of any
/// announcement are not run.
pub open spec fn speculative_subscribe_reason() -> Seq<char> {
    "moq-lite API requires announcement before subscribe"@
}

impl RegistryView {
    /// The catalogue of this harness, in the order of its report.
    pub open spec fn standard() -> RegistryView {
        RegistryView {
            scenarios: seq![
                ScenarioSpecView { name: "setup-only"@, timeout_ms: 2000 },
                ScenarioSpecView { name: "announce-only"@, timeout_ms: 2000 },
                ScenarioSpecView { name: "publish-namespace-done"@, timeout_ms: 2000 },
                ScenarioSpecView { name: "subscribe-error"@, timeout_ms: 5000 },
                ScenarioSpecView { name: "announce-subscribe"@, timeout_ms: 3000 },
                ScenarioSpecView { name: "subscribe-before-announce"@, timeout_ms: 5000 },
            ],
            skips: seq![
                SkipEntryView { name: "subscribe-error"@, reason: speculative_subscribe_reason() },
                SkipEntryView {
                    name: "subscribe-before-announce"@,
                    reason: speculative_subscribe_reason(),
                },
            ],
        }
    }
}

/// The catalogue of this harness is well formed.
pub proof fn lemma_standard_wf()
    ensures
        RegistryView::standard().wf(),
{
    reveal_strlit("setup-only");
    reveal_strlit("announce-only");
    reveal_strlit("publish-namespace-done");
    reveal_strlit("subscribe-error");
    reveal_strlit("announce-subscribe");
    reveal_strlit("subscribe-before-announce");
    let r = RegistryView::standard();
    let names = scenario_names(r.scenarios);
    let skipped = skip_names(r.skips);
    assert(names[0].len() == 10);
    assert(names[1].len() == 13);
    assert(names[2].len() == 22);
    assert(names[3].len() == 15);
    assert(names[4].len() == 18);
    assert(names[5].len() == 25);
    assert(skipped[0].len() == 15);
    assert(skipped[1].len() == 25);
    assert(distinct(names));
    assert(distinct(skipped));
    assert forall|k: int| 0 <= k < r.skips.len() implies position(
        names,
        #[trigger] r.skips[k].name,
    ) is Some by {
        lemma_position(names, r.skips[k].name);
        if k == 0 {
            assert(names[3] == r.skips[k].name);
        } else {
            assert(names[5] == r.skips[k].name);
        }
    }
}

/// The ordered catalogue of scenarios together with the skip policy.
#[derive(Debug)]
pub struct Registry {
    scenarios: Vec<ScenarioSpec>,
    skips: Vec<SkipEntry>,
}

impl View for Registry {
    type V = RegistryView;

    closed spec fn view(&self) -> RegistryView {
        RegistryView { scenarios: scenario_views(self.scenarios@), skips: skip_views(self.skips@) }
    }
}

/// The place of `name` among `scenarios`.
fn find_scenario(scenarios: &Vec<ScenarioSpec>, name: &str) -> (found: Option<usize>)
    ensures
        match found {
            Some(i) => i < scenarios.len() && position(
                scenario_names(scenario_views(scenarios@)),
                name@,
            ) == Some(i as int),
            None => position(scenario_names(scenario_views(scenarios@)), name@) is None,
        },
{
    let ghost names = scenario_names(scenario_views(scenarios@));
    let wanted = name.to_owned();
    let mut i: usize = 0;
    while i < scenarios.len()
        invariant
            i <= scenarios.len(),
            wanted@ == name@,
            names == scenario_names(scenario_views(scenarios@)),
            forall|j: int| 0 <= j < i ==> names[j] != name@,
        decreases scenarios.len() - i,
    {
        assert(names[i as int] == scenarios@[i as int].name@);
        if scenarios[i].name == wanted {
            proof {
                lemma_position(names, name@);
            }
            return Some(i);
        }
        i += 1;
    }
    proof {
        lemma_position(names, name@);
    }
    None
}

/// The place of `name` among the names of `skips`.
fn find_skip(skips: &Vec<SkipEntry>, name: &str) -> (found: Option<usize>)
    ensures
        match found {
            Some(k) => k < skips.len() && position(skip_names(skip_views(skips@)), name@)
                == Some(k as int),
            None => position(skip_names(skip_views(skips@)), name@) is None,
        },
{
    let ghost names = skip_names(skip_views(skips@));
    let wanted = name.to_owned();
    let mut k: usize = 0;
    while k < skips.len()
        invariant
            k <= skips.len(),
            wanted@ == name@,
            names == skip_names(skip_views(skips@)),
            forall|j: int| 0 <= j < k ==> names[j] != name@,
        decreases skips.len() - k,
    {
        assert(names[k as int] == skips@[k as int].name@);
        if skips[k].name == wanted {
            proof {
                lemma_position(names, name@);
            }
            return Some(k);
        }
        k += 1;
    }
    proof {
        lemma_position(names, name@);
    }
    None
}

impl Registry {
    /// The catalogue of this harness.
    pub fn standard() -> (registry: Registry)
        ensures
            registry@ == RegistryView::standard(),
            registry@.wf(),
    {
        let mut scenarios: Vec<ScenarioSpec> = Vec::new();
        scenarios.push(ScenarioSpec { name: "setup-only".to_owned(), timeout_ms: 2000 });
        scenarios.push(ScenarioSpec { name: "announce-only".to_owned(), timeout_ms: 2000 });
        scenarios.push(
            ScenarioSpec { name: "publish-namespace-done".to_owned(), timeout_ms: 2000 },
        );
        scenarios.push(ScenarioSpec { name: "subscribe-error".to_owned(), timeout_ms: 5000 });
        scenarios.push(ScenarioSpec { name: "announce-subscribe".to_owned(), timeout_ms: 3000 });
        scenarios.push(
            ScenarioSpec { name: "subscribe-before-announce".to_owned(), timeout_ms: 5000 },
        );
        let mut skips: Vec<SkipEntry> = Vec::new();
        skips.push(
            SkipEntry {
                name: "subscribe-error".to_owned(),
                reason: "moq-lite API requires announcement before subscribe".to_owned(),
            },
        );
        skips.push(
            SkipEntry {
                name: "subscribe-before-announce".to_owned(),
                reason: "moq-lite API requires announcement before subscribe".to_owned(),
            },
        );
        proof {
            assert(scenario_views(scenarios@) =~= RegistryView::standard().scenarios);
            assert(skip_views(skips@) =~= RegistryView::standard().skips);
            lemma_standard_wf();
        }
        Registry { scenarios, skips }
    }

    /// The names of the catalogue's scenarios, in its order.
    pub fn names(&self) -> (names: Vec<String>)
        ensures
            texts(names@) == scenario_names(self@.scenarios),
    {
        let mut names: Vec<String> = Vec::new();
        let mut i: usize = 0;
        while i < self.scenarios.len()
            invariant
                i <= self.scenarios.len(),
                names@.len() == i,
                forall|j: int| 0 <= j < i ==> (#[trigger] names@[j])@ == self.scenarios@[j].name@,
            decreases self.scenarios.len() - i,
        {
            names.push(self.scenarios[i].name.clone());
            i += 1;
        }
        proof {
            assert(texts(names@) =~= scenario_names(self@.scenarios));
        }
        names
    }

    /// The scenarios of a run. Without a filter these are all of the
    /// catalogue, in its order; with one, the scenario of that name alone. A
    /// name that the catalogue lacks is refused as
    /// [`HarnessError::UnknownScenario`].
    pub fn select(&self, filter: Option<&str>) -> (selected: Result<
        Vec<ScenarioSpec>,
        HarnessError,
    >)
        ensures
            match self@.selection(slice_text_of(filter)) {
                Some(list) => selected is Ok && scenario_views(selected->Ok_0@) == list,
                None => selected is Err && filter is Some && selected->Err_0@
                    == HarnessErrorView::UnknownScenario(filter->Some_0@),
            },
    {
        let mut selected: Vec<ScenarioSpec> = Vec::new();
        match filter {
            Some(name) => {
                match find_scenario(&self.scenarios, name) {
                    Some(i) => {
                        selected.push(self.scenarios[i].clone());
                        proof {
                            assert(scenario_views(selected@) =~= seq![self@.scenarios[i as int]]);
                        }
                    },
                    None => {
                        return Err(HarnessError::UnknownScenario(name.to_owned()));
                    },
                }
            },
            None => {
                let mut i: usize = 0;
                while i < self.scenarios.len()
                    invariant
                        i <= self.scenarios.len(),
                        selected@.len() == i,
                        forall|j: int|
                            0 <= j < i ==> (#[trigger] selected@[j])@ == self.scenarios@[j]@,
                    decreases self.scenarios.len() - i,
                {
                    selected.push(self.scenarios[i].clone());
                    i += 1;
                }
                proof {
                    assert(scenario_views(selected@) =~= self@.scenarios);
                }
            },
        }
        Ok(selected)
    }
}

impl Registry {
    /// The number of scenarios in the catalogue.
    pub fn len(&self) -> (n: usize)
        ensures
            n == self@.scenarios.len(),
    {
        self.scenarios.len()
    }

    /// Whether the catalogue holds a scenario called `name`.
    pub fn knows(&self, name: &str) -> (known: bool)
        ensures
            known == self@.knows(name@),
    {
        find_scenario(&self.scenarios, name).is_some()
    }

    /// The reason for which the scenario called `name` is reported without
    /// being run, or `None` where it is to be run.
    pub fn skip_reason(&self, name: &str) -> (reason: Option<String>)
        ensures
            text_of(reason) == self@.skip_reason(name@),
    {
        match find_skip(&self.skips, name) {
            Some(k) => {
                assert(skip_views(self.skips@)[k as int] == self.skips@[k as int]@);
                Some(self.skips[k].reason.clone())
            },
            None => None,
        }
    }
}

} // verus!
