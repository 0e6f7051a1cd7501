use vstd::prelude::*;
use crate::lookup::{token_of, Outcome};

verus! {

/// Name of the directory, under a config root, that holds the Copilot files.
pub const CONFIG_DIR_NAME: &'static str = "github-copilot";

/// The host whose entry in a config file carries the token.
pub const GITHUB_HOST: &'static str = "github.com";

/// The operating system, as far as the choice of config directories cares.
#[derive(Clone, Copy, Debug, PartialEq, Eq, Structural)]
pub enum Platform {
    /// macOS, where editors may also keep their files under `Library/Application Support`.
    MacOs,
    /// Any other system.
    Other,
}

/// One host's record in `hosts.json` or `apps.json`.
#[derive(Clone, Debug, PartialEq, Eq)]
pub struct HostEntry {
    pub oauth_token: String,
    pub user: Option<String>,
}

/// The directories to search, in order, each as the path segments to join.
/// The first is `$XDG_CONFIG_HOME/github-copilot` when that variable is set,
/// else `<home>/.config/github-copilot` (with `~` for an unknown home); on
/// macOS with a known home, `<home>/Library/Application Support/github-copilot`
/// follows.
pub open spec fn config_dirs(
    xdg_config_home: Option<Seq<char>>,
    home: Option<Seq<char>>,
    platform: Platform,
) -> Seq<Seq<Seq<char>>> {
    let primary = match xdg_config_home {
        Some(x) => seq![x, CONFIG_DIR_NAME@],
        None => match home {
            Some(h) => seq![h, ".config"@, CONFIG_DIR_NAME@],
            None => seq!["~"@, ".config"@, CONFIG_DIR_NAME@],
        },
    };
    match (platform, home) {
        (Platform::MacOs, Some(h)) => seq![
            primary,
            seq![h, "Library"@, "Application Support"@, CONFIG_DIR_NAME@],
        ],
        _ => seq![primary],
    }
}

/// The token that a config file's hosts give: the `oauth_token` of the first
/// entry for `github.com`, unless it is empty.
pub open spec fn hosts_token(hosts: Seq<(String, HostEntry)>) -> Option<Seq<char>>
    decreases hosts.len(),
{
    if hosts.len() == 0 {
        None
    } else if hosts[0].0@ == GITHUB_HOST@ {
        if hosts[0].1.oauth_token@.len() > 0 {
            Some(hosts[0].1.oauth_token@)
        } else {
            None
        }
    } else {
        hosts_token(hosts.drop_first())
    }
}

proof fn lemma_no_github_entry(hosts: Seq<(String, HostEntry)>)
    requires
        forall|j: int| 0 <= j < hosts.len() ==> (#[trigger] hosts[j]).0@ != GITHUB_HOST@,
    ensures
        hosts_token(hosts) is None,
    decreases hosts.len(),
{
    if hosts.len() > 0 {
        assert(hosts[0].0@ != GITHUB_HOST@);
        let rest = hosts.drop_first();
        assert forall|j: int| 0 <= j < rest.len() implies (#[trigger] rest[j]).0@ != GITHUB_HOST@ by {
            assert(rest[j] == hosts[j + 1]);
        }
        lemma_no_github_entry(rest);
    }
}

/// In a config file, whose host names are distinct, a `github.com` entry
/// with an empty token gives what the file gives without that entry: no
/// token.
pub proof fn lemma_empty_token_is_absent(hosts: Seq<(String, HostEntry)>, i: int)
    requires
        0 <= i < hosts.len(),
        hosts[i].0@ == GITHUB_HOST@,
        hosts[i].1.oauth_token@.len() == 0,
        forall|j: int, k: int|
            0 <= j < hosts.len() && 0 <= k < hosts.len() && j != k ==> (#[trigger] hosts[j]).0@
                != (#[trigger] hosts[k]).0@,
    ensures
        hosts_token(hosts) is None,
        hosts_token(hosts) == hosts_token(hosts.remove(i)),
{
    lemma_github_entry_at(hosts, i);
    let rest = hosts.remove(i);
    assert forall|j: int| 0 <= j < rest.len() implies (#[trigger] rest[j]).0@ != GITHUB_HOST@ by {
        if j < i {
            assert(rest[j] == hosts[j]);
        } else {
            assert(rest[j] == hosts[j + 1]);
        }
    }
    lemma_no_github_entry(rest);
}

proof fn lemma_github_entry_at(hosts: Seq<(String, HostEntry)>, i: int)
    requires
        0 <= i < hosts.len(),
        hosts[i].0@ == GITHUB_HOST@,
        forall|j: int| 0 <= j < i ==> (#[trigger] hosts[j]).0@ != GITHUB_HOST@,
    ensures
        hosts_token(hosts) == (if hosts[i].1.oauth_token@.len() > 0 {
            Some(hosts[i].1.oauth_token@)
        } else {
            None
        }),
    decreases i,
{
    if i > 0 {
        let rest = hosts.drop_first();
        assert(hosts[0].0@ != GITHUB_HOST@);
        assert forall|j: int| 0 <= j < i - 1 implies (#[trigger] rest[j]).0@ != GITHUB_HOST@ by {
            assert(rest[j] == hosts[j + 1]);
        }
        assert(rest[i - 1] == hosts[i]);
        lemma_github_entry_at(rest, i - 1);
    }
}

/// The candidate config directories: the value of `XDG_CONFIG_HOME`, the
/// user's home directory and the platform decide them.
pub fn copilot_config_dirs(
    xdg_config_home: Option<String>,
    home: Option<String>,
    platform: Platform,
) -> (r: Vec<Vec<String>>)
    ensures
        r.deep_view() == config_dirs(xdg_config_home.deep_view(), home.deep_view(), platform),
{
    let mut dirs: Vec<Vec<String>> = Vec::new();
    let primary: Vec<String> = match xdg_config_home {
        Some(x) => vec![x, String::from_str(CONFIG_DIR_NAME)],
        None => {
            let root = match &home {
                Some(h) => h.clone(),
                None => String::from_str("~"),
            };
            vec![root, String::from_str(".config"), String::from_str(CONFIG_DIR_NAME)]
        },
    };
    dirs.push(primary);
    match (platform, home) {
        (Platform::MacOs, Some(h)) => {
            dirs.push(
                vec![
                    h,
                    String::from_str("Library"),
                    String::from_str("Application Support"),
                    String::from_str(CONFIG_DIR_NAME),
                ],
            );
        },
        _ => {},
    }
    proof {
        let want = config_dirs(xdg_config_home.deep_view(), home.deep_view(), platform);
        assert(dirs.deep_view() =~~= want);
    }
    dirs
}

/// What a parsed config file says: the `github.com` token when there is one
/// and it is not empty; an entry with an empty token counts as no entry.
pub fn hosts_outcome(hosts: &Vec<(String, HostEntry)>) -> (o: Outcome)
    ensures
        token_of(o) == hosts_token(hosts@),
        o matches Outcome::Found(_) <==> hosts_token(hosts@) is Some,
{
    let host = String::from_str(GITHUB_HOST);
    let mut i: usize = 0;
    assert(hosts@.subrange(0, hosts@.len() as int) =~= hosts@);
    while i < hosts.len()
        invariant
            host@ == GITHUB_HOST@,
            0 <= i <= hosts@.len(),
            hosts_token(hosts@) == hosts_token(hosts@.subrange(i as int, hosts@.len() as int)),
        decreases hosts@.len() - i,
    {
        let ghost rest = hosts@.subrange(i as int, hosts@.len() as int);
        assert(rest.drop_first() =~= hosts@.subrange(i + 1, hosts@.len() as int));
        let (name, entry) = &hosts[i];
        if *name == host {
            if entry.oauth_token.as_str().is_empty() {
                return Outcome::NotFound;
            }
            return Outcome::Found(entry.oauth_token.clone());
        }
        i += 1;
    }
    Outcome::NotFound
}

} // verus!
