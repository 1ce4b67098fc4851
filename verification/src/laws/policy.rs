//! The policy: which tier a request falls into.
use vstd::prelude::*;
use vstd::string::*;

use crate::proto::policy::{
    base_name, glob_match, last_named, lemma_no_match, policy_resolution, rule_matches,
    tilde_expanded, PolicySpec, RuleSpec,
};
use crate::proto::request::{OperationSpec, RequestSpec};
use crate::proto::wire::Tier;
use crate::text::{joined, lemma_split_append, lemma_split_nonempty, split_on};

verus! {

/// A program goes by its name whatever directory it is called from, and a slash behind the name
/// changes nothing.
pub proof fn law_program_name(dir: Seq<char>, name: Seq<char>)
    requires
        name.len() > 0,
        !name.contains('/'),
        name != "."@,
        name != ".."@,
    ensures
        base_name(name) == name,
        base_name(dir.push('/') + name) == name,
        base_name((dir.push('/') + name).push('/')) == name,
        base_name(name.push('/')) == name,
{
    reveal_with_fuel(last_named, 3);
    lemma_split_append(Seq::empty(), name, '/');
    assert(Seq::<char>::empty() + name =~= name);
    assert(split_on(name, '/') =~= seq![name]);
    let d = dir.push('/');
    assert(d.drop_last() =~= dir);
    let parts = split_on(dir, '/');
    lemma_split_nonempty(dir, '/');
    assert(split_on(d, '/') == parts.push(Seq::empty()));
    lemma_split_append(d, name, '/');
    assert(Seq::<char>::empty() + name =~= name);
    assert(split_on(d + name, '/') =~= parts.push(name));
    let e = (d + name).push('/');
    assert(e.drop_last() =~= d + name);
    assert(split_on(e, '/') =~= parts.push(name).push(Seq::empty()));
    let f = name.push('/');
    assert(f.drop_last() =~= name);
    assert(split_on(f, '/') =~= seq![name].push(Seq::empty()));
}

/// A home directory stands for a leading `~/` where it is known, and for nothing else.
pub proof fn law_tilde(rest: Seq<char>, path: Seq<char>, home: Seq<char>)
    ensures
        tilde_expanded("~/"@ + rest, Some(home)) == home + "/"@ + rest,
        !"~/"@.is_prefix_of(path) ==> tilde_expanded(path, Some(home)) == path,
        tilde_expanded(path, None) == path,
{
    crate::laws::texts::law_after_prefix("~/"@, rest, path);
}

/// A rule for commands matches exactly the commands whose program it names, if it names any, and
/// whose arguments one of its globs covers, if it has any.
pub proof fn law_command_rules(
    rule: RuleSpec,
    argv: Seq<Seq<char>>,
    cwd: Seq<char>,
    home: Option<Seq<char>>,
)
    requires
        argv.len() > 0,
        rule.path_prefix is None,
        rule.host_glob is None,
        rule.argv0 is Some || rule.args_glob is Some,
    ensures
        rule_matches(rule, OperationSpec::Exec { argv, cwd }, home) <==> {
            &&& rule.argv0 is None || (exists|i: int|
                0 <= i < rule.argv0->0.len() && #[trigger] rule.argv0->0[i] == base_name(argv[0]))
            &&& rule.args_glob is None || (exists|i: int|
                0 <= i < rule.args_glob->0.len() && glob_match(
                    #[trigger] rule.args_glob->0[i],
                    joined(argv.skip(1), " "@),
                ) == Some(true))
        },
{
}

/// A rule for writes matches exactly the paths that start with its prefix, a leading `~/` standing
/// for the home directory.
pub proof fn law_write_rules(
    rule: RuleSpec,
    prefix: Seq<char>,
    path: Seq<char>,
    home: Option<Seq<char>>,
)
    requires
        rule.path_prefix == Some(prefix),
        rule.argv0 is None && rule.args_glob is None && rule.host_glob is None,
    ensures
        rule_matches(rule, OperationSpec::FileWrite { path }, home) <==> tilde_expanded(
            prefix,
            home,
        ).is_prefix_of(path),
{
}

/// A rule for connections matches exactly the hosts that its glob covers, at every port.
pub proof fn law_host_rules(
    rule: RuleSpec,
    glob: Seq<char>,
    host: Seq<char>,
    port: u16,
    home: Option<Seq<char>>,
)
    requires
        rule.host_glob == Some(glob),
        rule.argv0 is None && rule.args_glob is None && rule.path_prefix is None,
    ensures
        rule_matches(rule, OperationSpec::Net { host, port }, home) <==> glob_match(glob, host)
            == Some(true),
{
}

/// A rule never matches an operation of another kind than its matchers', nor a command of no words,
/// and a rule without matchers, or with matchers of two kinds, matches nothing.
pub proof fn law_rules_of_other_kinds(rule: RuleSpec, op: OperationSpec, home: Option<Seq<char>>)
    requires
        match op {
            OperationSpec::Exec { argv, .. } => argv.len() == 0 || rule.path_prefix is Some
                || rule.host_glob is Some || (rule.argv0 is None && rule.args_glob is None),
            OperationSpec::FileWrite { .. } => rule.argv0 is Some || rule.args_glob is Some
                || rule.host_glob is Some || rule.path_prefix is None,
            OperationSpec::Net { .. } => rule.argv0 is Some || rule.args_glob is Some
                || rule.path_prefix is Some || rule.host_glob is None,
        },
    ensures
        !rule_matches(rule, op, home),
{
}

/// Where no rule matches, a connection falls into the default tier.
pub proof fn law_unmatched_connections(
    p: PolicySpec,
    r: RequestSpec,
    host: Seq<char>,
    port: u16,
    home: Option<Seq<char>>,
)
    requires
        r.op == (OperationSpec::Net { host, port }),
        forall|k: int| 0 <= k < p.rules.len() ==> !rule_matches(#[trigger] p.rules[k], r.op, home),
    ensures
        policy_resolution(p, r, home) == (p.default_tier, "default"@),
{
    lemma_no_match(p.rules, r.op, home);
}

/// Where no rule matches, a write is allowed if its path starts with a prefix of the workspace, and
/// else falls into the default tier.
pub proof fn law_unmatched_writes(
    p: PolicySpec,
    r: RequestSpec,
    path: Seq<char>,
    home: Option<Seq<char>>,
)
    requires
        r.op == (OperationSpec::FileWrite { path }),
        forall|k: int| 0 <= k < p.rules.len() ==> !rule_matches(#[trigger] p.rules[k], r.op, home),
    ensures
        (exists|i: int|
            0 <= i < p.workspace.len() && tilde_expanded(
                #[trigger] p.workspace[i],
                home,
            ).is_prefix_of(path)) ==> policy_resolution(p, r, home) == (
            Tier::Allow,
            "builtin: workspace write"@,
        ),
        (forall|i: int|
            0 <= i < p.workspace.len() ==> !tilde_expanded(
                #[trigger] p.workspace[i],
                home,
            ).is_prefix_of(path)) ==> policy_resolution(p, r, home) == (p.default_tier, "default"@),
{
    lemma_no_match(p.rules, r.op, home);
}

/// Where no rule matches, a command is asked about strongly if its program is one of five shells and
/// one of its words is `-c`, and else falls into the default tier.
pub proof fn law_unmatched_commands(
    p: PolicySpec,
    r: RequestSpec,
    argv: Seq<Seq<char>>,
    cwd: Seq<char>,
    home: Option<Seq<char>>,
    shell: Seq<char>,
)
    requires
        r.op == (OperationSpec::Exec { argv, cwd }),
        forall|k: int| 0 <= k < p.rules.len() ==> !rule_matches(#[trigger] p.rules[k], r.op, home),
        argv.len() > 0,
        shell == base_name(argv[0]),
    ensures
        (shell == "bash"@ || shell == "sh"@ || shell == "zsh"@ || shell == "dash"@ || shell
            == "fish"@) && argv.contains("-c"@) ==> policy_resolution(p, r, home) == (
            Tier::AskStrong,
            "builtin: opaque shell command"@,
        ),
        !(shell == "bash"@ || shell == "sh"@ || shell == "zsh"@ || shell == "dash"@ || shell
            == "fish"@) || !argv.contains("-c"@) ==> policy_resolution(p, r, home) == (
            p.default_tier,
            "default"@,
        ),
{
    lemma_no_match(p.rules, r.op, home);
}

/// A rule behind those of a policy changes only what no rule of the policy decides, and a rule before
/// them decides whatever it matches.
pub proof fn law_rules_in_order(
    p: PolicySpec,
    rule: RuleSpec,
    r: RequestSpec,
    home: Option<Seq<char>>,
    i: int,
)
    ensures
        0 <= i < p.rules.len() && rule_matches(p.rules[i], r.op, home) ==> policy_resolution(
            PolicySpec { rules: p.rules.push(rule), ..p },
            r,
            home,
        ) == policy_resolution(p, r, home),
        rule_matches(rule, r.op, home) ==> policy_resolution(
            PolicySpec { rules: seq![rule] + p.rules, ..p },
            r,
            home,
        ) == (rule.tier, rule.name),
        !rule_matches(rule, r.op, home) ==> policy_resolution(
            PolicySpec { rules: seq![rule] + p.rules, ..p },
            r,
            home,
        ) == policy_resolution(p, r, home),
{
    let front = seq![rule] + p.rules;
    assert(front[0] == rule);
    assert(front.drop_first() =~= p.rules);
    if 0 <= i < p.rules.len() && rule_matches(p.rules[i], r.op, home) {
        let j = lemma_earliest(p.rules, r.op, home, i);
        crate::proto::policy::law_first_rule_wins(p, r, home, j);
        let more = PolicySpec { rules: p.rules.push(rule), ..p };
        assert forall|k: int| 0 <= k < j implies !rule_matches(
            #[trigger] more.rules[k],
            r.op,
            home,
        ) by {
            assert(more.rules[k] == p.rules[k]);
        }
        crate::proto::policy::law_first_rule_wins(more, r, home, j);
    }
}

proof fn lemma_earliest(
    rules: Seq<RuleSpec>,
    op: OperationSpec,
    home: Option<Seq<char>>,
    i: int,
) -> (j: int)
    requires
        0 <= i < rules.len(),
        rule_matches(rules[i], op, home),
    ensures
        0 <= j <= i,
        rule_matches(rules[j], op, home),
        forall|k: int| 0 <= k < j ==> !rule_matches(#[trigger] rules[k], op, home),
    decreases i,
{
    if exists|k: int| 0 <= k < i && rule_matches(#[trigger] rules[k], op, home) {
        let k = choose|k: int| 0 <= k < i && rule_matches(#[trigger] rules[k], op, home);
        lemma_earliest(rules, op, home, k)
    } else {
        i
    }
}

/// A request's session, harness and environment have no say in its tier.
pub proof fn law_only_the_operation_counts(
    p: PolicySpec,
    a: RequestSpec,
    b: RequestSpec,
    home: Option<Seq<char>>,
)
    requires
        a.op == b.op,
    ensures
        policy_resolution(p, a, home) == policy_resolution(p, b, home),
{
}

}
