use vstd::prelude::*;

use crate::config::Rule;
use crate::config::WorkspaceRule;
use crate::pattern::regex_is_match;

verus! {

/// One window's attribute record, as the directory service reports it.
/// Matching reads the address, workspace, floating and xwayland flags, class
/// and title; the remaining fields are carried through untouched.
#[derive(Debug)]
pub struct HyprClient {
    pub address: String,
    pub mapped: bool,
    pub hidden: bool,
    pub at: [i32; 2],
    pub size: [i32; 2],
    pub workspace: HyprWorkspace,
    pub floating: bool,
    pub pseudo: bool,
    pub monitor: i32,
    pub class: String,
    pub title: String,
    pub initial_class: String,
    pub initial_title: String,
    pub pid: i32,
    pub xwayland: bool,
    pub pinned: bool,
    pub fullscreen: i32,
    pub fullscreen_client: i32,
    pub grouped: Vec<String>,
    pub swallowing: String,
    pub focus_history_id: i32,
    pub inhibiting_idle: bool,
    pub xdg_tag: String,
    pub xdg_description: String,
    pub content_type: String,
}

/// The workspace a window lives in.
#[derive(Debug)]
pub struct HyprWorkspace {
    pub id: i32,
    pub name: String,
}

/// Whether a window's address resolves the raw target identifier: the
/// address must carry the literal `0x` prefix, and what follows it must be
/// byte-for-byte the target. Addresses without the prefix are malformed and
/// never match.
pub open spec fn address_matches(address: Seq<char>, target: Seq<char>) -> bool {
    &&& address.len() >= 2
    &&& address[0] == '0'
    &&& address[1] == 'x'
    &&& address.skip(2) == target
}

/// The index of the first window in the list whose address resolves the
/// target, if any.
pub open spec fn resolved_client(clients: Seq<HyprClient>, target: Seq<char>) -> Option<int>
    decreases clients.len(),
{
    if clients.len() == 0 {
        None
    } else if address_matches(clients[0].address@, target) {
        Some(0int)
    } else {
        match resolved_client(clients.drop_first(), target) {
            Some(i) => Some(i + 1),
            None => None,
        }
    }
}

/// Whether the workspace predicate of a rule is satisfied by a window's
/// workspace: equality of ids for a numeric matcher, of names for a textual
/// one, and trivially true when the rule has no workspace key.
pub open spec fn workspace_ok(client: HyprClient, rule: Rule) -> bool {
    match rule.workspace {
        None => true,
        Some(WorkspaceRule::Id(id)) => client.workspace.id == id,
        Some(WorkspaceRule::Name(name)) => client.workspace.name@ == name@,
    }
}

/// Whether every present predicate of the rule is satisfied by the window;
/// absent predicates are wildcards and hold of any window.
pub open spec fn spec_rule_matches(client: HyprClient, rule: Rule) -> bool {
    &&& workspace_ok(client, rule)
    &&& match rule.floating {
        None => true,
        Some(f) => client.floating == f,
    }
    &&& match rule.xwayland {
        None => true,
        Some(x) => client.xwayland == x,
    }
    &&& match rule.class_regex {
        None => true,
        Some(p) => regex_is_match(p@, client.class@),
    }
    &&& match rule.title_regex {
        None => true,
        Some(p) => regex_is_match(p@, client.title@),
    }
}

/// Whether the rule matches the target within the window list: the target
/// must resolve to a window (the first with a matching address), and every
/// present predicate of the rule must hold of that window.
pub open spec fn spec_match_rule(clients: Seq<HyprClient>, target: Seq<char>, rule: Rule) -> bool {
    match resolved_client(clients, target) {
        Some(i) => spec_rule_matches(clients[i], rule),
        None => false,
    }
}

/// The index of the first rule in the list that matches the target within
/// the window list, if any; evaluation order is the list order.
pub open spec fn first_matching_rule(
    clients: Seq<HyprClient>,
    target: Seq<char>,
    rules: Seq<Rule>,
) -> Option<int>
    decreases rules.len(),
{
    if rules.len() == 0 {
        None
    } else if spec_match_rule(clients, target, rules[0]) {
        Some(0int)
    } else {
        match first_matching_rule(clients, target, rules.drop_first()) {
            Some(i) => Some(i + 1),
            None => None,
        }
    }
}

proof fn lemma_resolved_client_some(clients: Seq<HyprClient>, target: Seq<char>, i: int)
    requires
        0 <= i < clients.len(),
        address_matches(clients[i].address@, target),
        forall|j: int| 0 <= j < i ==> !address_matches(#[trigger] clients[j].address@, target),
    ensures
        resolved_client(clients, target) == Some(i),
    decreases clients.len(),
{
    if i == 0 {
    } else {
        assert(!address_matches(clients[0].address@, target));
        let rest = clients.drop_first();
        assert(rest[i - 1] == clients[i]);
        assert(forall|j: int|
            0 <= j < i - 1 ==> !address_matches(#[trigger] rest[j].address@, target)) by {
            assert(forall|j: int| 0 <= j < i - 1 ==> rest[j] == clients[j + 1]);
        }
        lemma_resolved_client_some(rest, target, i - 1);
    }
}

proof fn lemma_resolved_client_none(clients: Seq<HyprClient>, target: Seq<char>)
    requires
        forall|j: int|
            0 <= j < clients.len() ==> !address_matches(#[trigger] clients[j].address@, target),
    ensures
        resolved_client(clients, target) is None,
    decreases clients.len(),
{
    if clients.len() == 0 {
    } else {
        let rest = clients.drop_first();
        assert(forall|j: int|
            0 <= j < rest.len() ==> !address_matches(#[trigger] rest[j].address@, target)) by {
            assert(forall|j: int| 0 <= j < rest.len() ==> rest[j] == clients[j + 1]);
        }
        lemma_resolved_client_none(rest, target);
    }
}

pub(crate) proof fn lemma_first_matching_rule_some(
    clients: Seq<HyprClient>,
    target: Seq<char>,
    rules: Seq<Rule>,
    i: int,
)
    requires
        0 <= i < rules.len(),
        spec_match_rule(clients, target, rules[i]),
        forall|j: int| 0 <= j < i ==> !spec_match_rule(clients, target, #[trigger] rules[j]),
    ensures
        first_matching_rule(clients, target, rules) == Some(i),
    decreases rules.len(),
{
    if i == 0 {
    } else {
        assert(!spec_match_rule(clients, target, rules[0]));
        let rest = rules.drop_first();
        assert(rest[i - 1] == rules[i]);
        assert(forall|j: int|
            0 <= j < i - 1 ==> !spec_match_rule(clients, target, #[trigger] rest[j])) by {
            assert(forall|j: int| 0 <= j < i - 1 ==> rest[j] == rules[j + 1]);
        }
        lemma_first_matching_rule_some(clients, target, rest, i - 1);
    }
}

pub(crate) proof fn lemma_first_matching_rule_none(
    clients: Seq<HyprClient>,
    target: Seq<char>,
    rules: Seq<Rule>,
)
    requires
        forall|j: int|
            0 <= j < rules.len() ==> !spec_match_rule(clients, target, #[trigger] rules[j]),
    ensures
        first_matching_rule(clients, target, rules) is None,
    decreases rules.len(),
{
    if rules.len() == 0 {
    } else {
        let rest = rules.drop_first();
        assert(forall|j: int|
            0 <= j < rest.len() ==> !spec_match_rule(clients, target, #[trigger] rest[j])) by {
            assert(forall|j: int| 0 <= j < rest.len() ==> rest[j] == rules[j + 1]);
        }
        lemma_first_matching_rule_none(clients, target, rest);
    }
}

/// Law: a target identifier with no corresponding window in the list matches
/// no rule at all, whatever the rules hold, so the caller falls back to the
/// global default outcome.
pub proof fn lemma_no_window_no_match(
    clients: Seq<HyprClient>,
    target: Seq<char>,
    rules: Seq<Rule>,
)
    requires
        forall|j: int|
            0 <= j < clients.len() ==> !address_matches(#[trigger] clients[j].address@, target),
    ensures
        forall|i: int| 0 <= i < rules.len() ==> !spec_match_rule(clients, target, #[trigger] rules[i]),
        first_matching_rule(clients, target, rules) is None,
{
    lemma_resolved_client_none(clients, target);
    lemma_first_matching_rule_none(clients, target, rules);
}

/// Whether this address resolves the raw target identifier.
fn address_resolves(address: &String, target: &str) -> (r: bool)
    ensures
        r == address_matches(address@, target@),
{
    let a = address.as_str();
    let alen = a.unicode_len();
    let tlen = target.unicode_len();
    if alen < 2 {
        return false;
    }
    if a.get_char(0) != '0' || a.get_char(1) != 'x' {
        return false;
    }
    if alen - 2 != tlen {
        proof {
            assert(address@.skip(2).len() != target@.len());
        }
        return false;
    }
    let mut k: usize = 0;
    while k < tlen
        invariant
            k <= tlen,
            a@ == address@,
            alen == address@.len(),
            tlen == target@.len(),
            alen - 2 == tlen,
            forall|j: int| 0 <= j < k ==> address@[j + 2] == target@[j],
        decreases tlen - k,
    {
        if a.get_char(k + 2) != target.get_char(k) {
            proof {
                assert(address@.skip(2)[k as int] != target@[k as int]);
            }
            return false;
        }
        k += 1;
    }
    proof {
        assert(address@.skip(2) =~= target@);
    }
    true
}

/// Whether every present predicate of the rule holds of this window.
fn window_satisfies(client: &HyprClient, rule: &Rule) -> (r: bool)
    ensures
        r == spec_rule_matches(*client, *rule),
{
    let mut accumulator = true;
    match &rule.workspace {
        None => {},
        Some(WorkspaceRule::Id(id)) => {
            accumulator = accumulator && client.workspace.id == *id;
        },
        Some(WorkspaceRule::Name(name)) => {
            accumulator = accumulator && client.workspace.name == *name;
        },
    }
    match &rule.floating {
        None => {},
        Some(f) => {
            accumulator = accumulator && client.floating == *f;
        },
    }
    match &rule.xwayland {
        None => {},
        Some(x) => {
            accumulator = accumulator && client.xwayland == *x;
        },
    }
    match &rule.class_regex {
        None => {},
        Some(p) => {
            accumulator = accumulator && p.matches(client.class.as_str());
        },
    }
    match &rule.title_regex {
        None => {},
        Some(p) => {
            accumulator = accumulator && p.matches(client.title.as_str());
        },
    }
    accumulator
}

/// The index of the first window whose address resolves the target.
fn resolve_client(clients: &[HyprClient], target: &str) -> (r: Option<usize>)
    ensures
        match r {
            Some(i) => {
                &&& i < clients@.len()
                &&& address_matches(clients@[i as int].address@, target@)
                &&& forall|j: int|
                    0 <= j < i ==> !address_matches(#[trigger] clients@[j].address@, target@)
            },
            None => forall|j: int|
                0 <= j < clients@.len() ==> !address_matches(
                    #[trigger] clients@[j].address@,
                    target@,
                ),
        },
{
    let n = clients.len();
    let mut i: usize = 0;
    while i < n
        invariant
            i <= n,
            n == clients@.len(),
            forall|j: int| 0 <= j < i ==> !address_matches(#[trigger] clients@[j].address@, target@),
        decreases n - i,
    {
        if address_resolves(&clients[i].address, target) {
            return Some(i);
        }
        i += 1;
    }
    None
}

impl HyprClient {
    /// Resolve the target against the window list, then evaluate the rule:
    /// true exactly when the target names a window (the first in list order
    /// with a matching address) and every present predicate of the rule
    /// holds of it.
    pub fn match_rule(clients: &[HyprClient], data: &str, rule: &Rule) -> (r: bool)
        ensures
            r == spec_match_rule(clients@, data@, *rule),
    {
        match resolve_client(clients, data) {
            None => {
                proof {
                    lemma_resolved_client_none(clients@, data@);
                }
                false
            },
            Some(i) => {
                proof {
                    lemma_resolved_client_some(clients@, data@, i as int);
                }
                window_satisfies(&clients[i], rule)
            },
        }
    }

    /// Evaluate the rules in list order and return the index of the first
    /// that matches, or nothing when none does. No later rule is reported
    /// when an earlier one also matches, and no rule is reported twice.
    pub fn match_rules(clients: &[HyprClient], data: &str, rules: &Vec<Rule>) -> (r: Option<
        usize,
    >)
        ensures
            r == match first_matching_rule(clients@, data@, rules@) {
                Some(i) => Some(i as usize),
                None => None::<usize>,
            },
            match r {
                Some(i) => {
                    &&& i < rules@.len()
                    &&& spec_match_rule(clients@, data@, rules@[i as int])
                    &&& forall|j: int|
                        0 <= j < i ==> !spec_match_rule(clients@, data@, #[trigger] rules@[j])
                },
                None => forall|j: int|
                    0 <= j < rules@.len() ==> !spec_match_rule(clients@, data@, #[trigger] rules@[j]),
            },
    {
        let n = rules.len();
        let mut i: usize = 0;
        while i < n
            invariant
                i <= n,
                n == rules@.len(),
                forall|j: int| 0 <= j < i ==> !spec_match_rule(clients@, data@, #[trigger] rules@[j]),
            decreases n - i,
        {
            if Self::match_rule(clients, data, &rules[i]) {
                proof {
                    lemma_first_matching_rule_some(clients@, data@, rules@, i as int);
                }
                return Some(i);
            }
            i += 1;
        }
        proof {
            lemma_first_matching_rule_none(clients@, data@, rules@);
        }
        None
    }
}

} // verus!
