use vstd::prelude::*;
use crate::config::{config_dirs, copilot_config_dirs, Platform};

verus! {

/// The environment variable whose value, when set and not empty, is the token.
pub const TOKEN_ENV_VAR: &'static str = "GH_COPILOT_TOKEN";

/// The environment variable that overrides the base config directory.
pub const CONFIG_HOME_ENV_VAR: &'static str = "XDG_CONFIG_HOME";

/// The config file written by the VS Code and JetBrains Copilot extensions.
pub const HOSTS_FILE: &'static str = "hosts.json";

/// The config file of newer Copilot installations.
pub const APPS_FILE: &'static str = "apps.json";

/// One token source to probe.
#[derive(Clone, Debug, PartialEq, Eq)]
pub enum Probe {
    /// The `GH_COPILOT_TOKEN` environment variable.
    EnvVar,
    /// A config file, as the path segments to join.
    ConfigFile(Vec<String>),
    /// The output of `gh auth token`.
    GhCli,
}

/// A probe with its path as a sequence of segments.
pub enum ProbeView {
    EnvVar,
    ConfigFile(Seq<Seq<char>>),
    GhCli,
}

impl View for Probe {
    type V = ProbeView;

    open spec fn view(&self) -> ProbeView {
        match self {
            Probe::EnvVar => ProbeView::EnvVar,
            Probe::ConfigFile(p) => ProbeView::ConfigFile(p.deep_view()),
            Probe::GhCli => ProbeView::GhCli,
        }
    }
}

/// The probes of `file` in each of `dirs`, in order.
pub open spec fn file_probes(dirs: Seq<Seq<Seq<char>>>, file: Seq<char>) -> Seq<ProbeView> {
    dirs.map_values(|d: Seq<Seq<char>>| ProbeView::ConfigFile(d.push(file)))
}

/// The order of the lookup: the environment variable, `hosts.json` in each
/// config directory, `apps.json` in each config directory, then the CLI.
pub open spec fn plan(dirs: Seq<Seq<Seq<char>>>) -> Seq<ProbeView> {
    seq![ProbeView::EnvVar] + file_probes(dirs, HOSTS_FILE@) + file_probes(dirs, APPS_FILE@)
        + seq![ProbeView::GhCli]
}

/// Appends to `probes` a probe of `file` in each of `dirs`.
fn push_file_probes(probes: &mut Vec<Probe>, dirs: &Vec<Vec<String>>, file: &str)
    ensures
        final(probes)@.map_values(|p: Probe| p@) == old(probes)@.map_values(|p: Probe| p@)
            + file_probes(dirs.deep_view(), file@),
{
    let ghost start = old(probes)@.map_values(|p: Probe| p@);
    let ghost want = file_probes(dirs.deep_view(), file@);
    let mut k: usize = 0;
    while k < dirs.len()
        invariant
            0 <= k <= dirs@.len(),
            want == file_probes(dirs.deep_view(), file@),
            want.len() == dirs@.len(),
            start == old(probes)@.map_values(|p: Probe| p@),
            probes@.map_values(|p: Probe| p@) =~= start + want.take(k as int),
        decreases dirs@.len() - k,
    {
        let dir = &dirs[k];
        let mut path: Vec<String> = Vec::new();
        let mut j: usize = 0;
        while j < dir.len()
            invariant
                0 <= j <= dir@.len(),
                path@.len() == j,
                forall|i: int| 0 <= i < j ==> path@[i]@ == dir@[i]@,
            decreases dir@.len() - j,
        {
            path.push(dir[j].clone());
            j += 1;
        }
        path.push(String::from_str(file));
        assert(path.deep_view() =~~= dirs.deep_view()[k as int].push(file@));
        let ghost before = probes@;
        probes.push(Probe::ConfigFile(path));
        assert(probes@[probes@.len() - 1]@ == want[k as int]);
        assert(probes@ == before.push(probes@[probes@.len() - 1]));
        assert(probes@.map_values(|p: Probe| p@) =~= before.map_values(|p: Probe| p@).push(
            want[k as int],
        ));
        assert(want.take(k + 1) =~= want.take(k as int).push(want[k as int]));
        k += 1;
    }
    assert(want.take(dirs@.len() as int) =~= want);
}

/// The probes of a lookup, in order, for the given `XDG_CONFIG_HOME`, home
/// directory and platform.
pub fn lookup_plan(xdg_config_home: Option<String>, home: Option<String>, platform: Platform) -> (r:
    Vec<Probe>)
    ensures
        r@.map_values(|p: Probe| p@) == plan(
            config_dirs(xdg_config_home.deep_view(), home.deep_view(), platform),
        ),
{
    let dirs = copilot_config_dirs(xdg_config_home, home, platform);
    let mut probes: Vec<Probe> = Vec::new();
    let ghost d = dirs.deep_view();
    probes.push(Probe::EnvVar);
    assert(probes@.map_values(|p: Probe| p@) =~= seq![ProbeView::EnvVar]);
    push_file_probes(&mut probes, &dirs, HOSTS_FILE);
    push_file_probes(&mut probes, &dirs, APPS_FILE);
    let ghost before = probes@;
    probes.push(Probe::GhCli);
    assert(probes@ == before.push(Probe::GhCli));
    assert(probes@.map_values(|p: Probe| p@) =~= before.map_values(|p: Probe| p@).push(
        ProbeView::GhCli,
    ));
    assert(probes@.map_values(|p: Probe| p@) =~= plan(d));
    probes
}

/// What probing one token source gave.
#[derive(Clone, Debug, PartialEq, Eq)]
pub enum Outcome {
    /// The source produced this text.
    Found(String),
    /// The source was read and holds no token.
    NotFound,
    /// The source could not be read or understood; it counts as holding no token.
    Failed,
}

/// The token that an outcome contributes: found text that is not empty.
pub open spec fn token_of(o: Outcome) -> Option<Seq<char>> {
    match o {
        Outcome::Found(t) => if t@.len() > 0 {
            Some(t@)
        } else {
            None
        },
        _ => None,
    }
}

/// The first token among `outcomes`, looking from position `at` on.
pub open spec fn lookup_from(outcomes: Seq<Outcome>, at: nat) -> Option<Seq<char>>
    decreases outcomes.len() - at,
{
    if at >= outcomes.len() {
        None
    } else {
        match token_of(outcomes[at as int]) {
            Some(t) => Some(t),
            None => lookup_from(outcomes, at + 1),
        }
    }
}

/// The token that a lookup settles on when the sources, in order, answer `outcomes`.
pub open spec fn lookup(outcomes: Seq<Outcome>) -> Option<Seq<char>> {
    lookup_from(outcomes, 0)
}

proof fn lemma_lookup_shift(first: Outcome, rest: Seq<Outcome>, at: nat)
    ensures
        lookup_from(seq![first] + rest, at + 1) == lookup_from(rest, at),
    decreases rest.len() - at,
{
    let all = seq![first] + rest;
    if at < rest.len() {
        assert(all[at + 1int] == rest[at as int]);
        lemma_lookup_shift(first, rest, at + 1);
    }
}

/// A source that answers with a token ends the lookup with that token,
/// whatever the sources after it would have answered.
pub proof fn lemma_first_token_wins(first: Outcome, rest: Seq<Outcome>)
    requires
        token_of(first) is Some,
    ensures
        lookup(seq![first] + rest) == token_of(first),
{
    assert((seq![first] + rest)[0] == first);
}

/// A source that answers with no token (not found, unreadable, or empty)
/// passes the lookup on to the sources after it.
pub proof fn lemma_no_token_falls_through(first: Outcome, rest: Seq<Outcome>)
    requires
        token_of(first) is None,
    ensures
        lookup(seq![first] + rest) == lookup(rest),
{
    assert((seq![first] + rest)[0] == first);
    lemma_lookup_shift(first, rest, 0);
}

/// The lookup ends with the token of the first source that has one, when
/// none before it has one.
pub proof fn lemma_earliest_token_wins(outcomes: Seq<Outcome>, i: int)
    requires
        0 <= i < outcomes.len(),
        token_of(outcomes[i]) is Some,
        forall|j: int| 0 <= j < i ==> token_of(#[trigger] outcomes[j]) is None,
    ensures
        lookup(outcomes) == token_of(outcomes[i]),
{
    lemma_earliest_from(outcomes, i, 0);
}

proof fn lemma_earliest_from(outcomes: Seq<Outcome>, i: int, at: nat)
    requires
        at <= i < outcomes.len(),
        token_of(outcomes[i]) is Some,
        forall|j: int| 0 <= j < i ==> token_of(#[trigger] outcomes[j]) is None,
    ensures
        lookup_from(outcomes, at) == token_of(outcomes[i]),
    decreases i - at,
{
    if at < i {
        assert(token_of(outcomes[at as int]) is None);
        lemma_earliest_from(outcomes, i, at + 1);
    }
}

/// A non-empty value of the override variable is the result of the lookup,
/// whatever the config files and the CLI hold; an empty or missing one
/// leaves the result to the other sources.
pub proof fn lemma_env_override(value: Option<String>, rest: Seq<Outcome>, env: Outcome)
    requires
        token_of(env) == override_token(value),
    ensures
        override_token(value) is Some ==> lookup(seq![env] + rest) == override_token(value),
        override_token(value) is None ==> lookup(seq![env] + rest) == lookup(rest),
{
    if token_of(env) is Some {
        lemma_first_token_wins(env, rest);
    } else {
        lemma_no_token_falls_through(env, rest);
    }
}

/// The token that a value of the override variable gives: the value itself
/// when it is set and not empty.
pub open spec fn override_token(value: Option<String>) -> Option<Seq<char>> {
    match value {
        Some(v) => if v@.len() > 0 {
            Some(v@)
        } else {
            None
        },
        None => None,
    }
}

/// What to do after a source has answered.
#[derive(Clone, Debug, PartialEq, Eq)]
pub enum Step {
    /// Probe the source at this position of the plan next.
    Probe(usize),
    /// The lookup is over, with this result.
    Done(Option<String>),
}

/// Decides what follows the answer `outcome` of the source at position `at`
/// of a plan of `plan_len` sources: a usable token ends the lookup, anything
/// else moves on to the next source, and after the last one the lookup ends
/// with no token.
pub fn next_step(plan_len: usize, at: usize, outcome: Outcome) -> (s: Step)
    requires
        at < plan_len,
    ensures
        match token_of(outcome) {
            Some(t) => s matches Step::Done(Some(r)) && r@ == t,
            None => if at + 1 < plan_len {
                s == Step::Probe((at + 1) as usize)
            } else {
                s == Step::Done(None)
            },
        },
{
    match outcome {
        Outcome::Found(t) => {
            if !t.as_str().is_empty() {
                return Step::Done(Some(t));
            }
        },
        _ => {},
    }
    if at + 1 < plan_len {
        Step::Probe(at + 1)
    } else {
        Step::Done(None)
    }
}

/// Reads the override variable: its value is a token when it is set and not empty.
pub fn token_from_env(value: Option<String>) -> (o: Outcome)
    ensures
        token_of(o) == override_token(value),
        o matches Outcome::Found(_) <==> (value matches Some(v) && v@.len() > 0),
{
    match value {
        Some(v) => {
            if !v.as_str().is_empty() {
                Outcome::Found(v)
            } else {
                Outcome::NotFound
            }
        },
        None => Outcome::NotFound,
    }
}

/// Runs the lookup over answers that are all at hand: the result is the
/// first usable token, in order.
pub fn first_token(outcomes: Vec<Outcome>) -> (r: Option<String>)
    ensures
        r.deep_view() == lookup(outcomes@),
{
    let n: usize = outcomes.len();
    if n == 0 {
        return None;
    }
    let ghost all = outcomes@;
    let mut rest = outcomes;
    let mut at: usize = 0;
    loop
        invariant
            all == outcomes@,
            n == all.len(),
            at < n,
            rest@ == all.subrange(at as int, n as int),
            lookup(all) == lookup_from(all, at as nat),
        decreases n - at,
    {
        let o = rest.remove(0);
        assert(o == all[at as int]);
        assert(lookup_from(all, at as nat) == match token_of(o) {
            Some(t) => Some(t),
            None => lookup_from(all, (at + 1) as nat),
        });
        match next_step(n, at, o) {
            Step::Probe(next) => {
                at = next;
            },
            Step::Done(r) => {
                proof {
                    if at + 1 >= n {
                        assert(lookup_from(all, (at + 1) as nat) == None::<Seq<char>>);
                    }
                }
                return r;
            },
        }
    }
}

} // verus!
