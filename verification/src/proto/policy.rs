//! The policy: which tier a request falls into.
use vstd::prelude::*;
use vstd::string::*;

use crate::proto::request::{GateRequest, Operation, OperationSpec, RequestSpec};
use crate::proto::wire::Tier;
use crate::text::{
    after_prefix, join, joined, opt_str, opt_text, same, split, split_on, starts_with,
    strip_prefix, texts,
};

verus! {

/// The rules by which requests are decided.
#[derive(Clone, Debug)]
pub struct Policy {
    pub default_tier: Tier,
    /// Path prefixes that are the agent's workspace. File writes below one of them are
    /// allowed where no rule says otherwise.
    pub workspace: Vec<String>,
    pub rules: Vec<Rule>,
}

/// One rule. The first rule that matches wins. A rule only matches the kind of operation
/// its matchers apply to: argv matchers exec, a path prefix file writes, a host glob net.
#[derive(Clone, Debug)]
pub struct Rule {
    pub name: String,
    pub tier: Tier,
    /// The programs the rule applies to, without their directories.
    pub argv0: Option<Vec<String>>,
    /// Globs for the arguments, joined with spaces. Any of them may match.
    pub args_glob: Option<Vec<String>>,
    pub path_prefix: Option<String>,
    pub host_glob: Option<String>,
}

/// What a rule says.
#[verifier::ext_equal]
pub struct RuleSpec {
    pub name: Seq<char>,
    pub tier: Tier,
    pub argv0: Option<Seq<Seq<char>>>,
    pub args_glob: Option<Seq<Seq<char>>>,
    pub path_prefix: Option<Seq<char>>,
    pub host_glob: Option<Seq<char>>,
}

/// What a policy says.
#[verifier::ext_equal]
pub struct PolicySpec {
    pub default_tier: Tier,
    pub workspace: Seq<Seq<char>>,
    pub rules: Seq<RuleSpec>,
}

/// The texts of an optional list.
pub open spec fn opt_texts(list: Option<Vec<String>>) -> Option<Seq<Seq<char>>> {
    match list {
        Some(list) => Some(texts(list@)),
        None => None,
    }
}

impl View for Rule {
    type V = RuleSpec;

    open spec fn view(&self) -> RuleSpec {
        RuleSpec {
            name: self.name@,
            tier: self.tier,
            argv0: opt_texts(self.argv0),
            args_glob: opt_texts(self.args_glob),
            path_prefix: opt_text(self.path_prefix),
            host_glob: opt_text(self.host_glob),
        }
    }
}

/// What a list of rules says.
pub open spec fn rules_view(rules: Seq<Rule>) -> Seq<RuleSpec> {
    rules.map_values(|r: Rule| r@)
}

impl View for Policy {
    type V = PolicySpec;

    open spec fn view(&self) -> PolicySpec {
        PolicySpec {
            default_tier: self.default_tier,
            workspace: texts(self.workspace@),
            rules: rules_view(self.rules@),
        }
    }
}

/// Whether a glob covers a text; nothing where it is no glob.
pub uninterp spec fn glob_match(pattern: Seq<char>, text: Seq<char>) -> Option<bool>;

/// `glob::Pattern::new`, then `matches` on the pattern: nothing where the pattern is
/// malformed, else whether it covers the text, which depends on the two alone.
#[verifier::external_body]
fn glob_test(pattern: &str, text: &str) -> (r: Option<bool>)
    ensures
        r == glob_match(pattern@, text@),
{
    glob::Pattern::new(pattern).ok().map(|p| p.matches(text))
}

/// Whether a text is covered by a glob. A malformed glob covers nothing.
pub open spec fn glob_covers(pattern: Seq<char>, text: Seq<char>) -> bool {
    glob_match(pattern, text) == Some(true)
}

/// Whether a text is covered by a glob.
pub fn glob_matches(pattern: &str, text: &str) -> (r: bool)
    ensures
        r == glob_covers(pattern@, text@),
{
    match glob_test(pattern, text) {
        Some(hit) => hit,
        None => false,
    }
}

/// The last component of a path that names something, from the first `n` components.
pub open spec fn last_named(parts: Seq<Seq<char>>, n: int) -> Seq<char>
    decreases n,
{
    if n <= 0 {
        Seq::empty()
    } else if parts[n - 1].len() == 0 || parts[n - 1] == "."@ {
        last_named(parts, n - 1)
    } else if parts[n - 1] == ".."@ {
        Seq::empty()
    } else {
        parts[n - 1]
    }
}

/// The name of a program without its directories, in a Unix path; empty where the path ends in
/// none.
pub open spec fn base_name(path: Seq<char>) -> Seq<char> {
    let parts = split_on(path, '/');
    last_named(parts, parts.len() as int)
}

/// The name of a program without its directories.
pub fn file_name(path: &str) -> (r: String)
    ensures
        r@ == base_name(path@),
{
    let parts = split(path, '/');
    let ghost all = texts(parts@);
    let mut n: usize = parts.len();
    while n > 0
        invariant
            all == texts(parts@),
            all == split_on(path@, '/'),
            n <= parts@.len(),
            last_named(all, parts@.len() as int) == last_named(all, n as int),
        decreases n,
    {
        let part = parts[n - 1].as_str();
        assert(part@ == all[n - 1]);
        if part.is_empty() || same(part, ".") {
            n -= 1;
        } else if same(part, "..") {
            return String::new();
        } else {
            return part.to_owned();
        }
    }
    String::new()
}

/// A path with a leading `~/` replaced by the home directory, where that is known.
pub open spec fn tilde_expanded(path: Seq<char>, home: Option<Seq<char>>) -> Seq<char> {
    match (after_prefix(path, "~/"@), home) {
        (Some(rest), Some(home)) => home + "/"@ + rest,
        _ => path,
    }
}

/// A path with a leading `~/` replaced by the home directory, where that is known.
pub fn expand_tilde(path: &str, home: Option<&str>) -> (r: String)
    ensures
        r@ == tilde_expanded(path@, opt_str(home)),
{
    if let Some(rest) = strip_prefix(path, "~/") {
        if let Some(home) = home {
            let mut out = home.to_owned();
            out.append("/");
            out.append(rest.as_str());
            return out;
        }
    }
    path.to_owned()
}

/// Whether one of some globs covers a text.
pub open spec fn any_covers(globs: Seq<Seq<char>>, text: Seq<char>) -> bool {
    exists|i: int| 0 <= i < globs.len() && glob_covers(#[trigger] globs[i], text)
}

fn any_glob(globs: &Vec<String>, text: &str) -> (r: bool)
    ensures
        r == any_covers(texts(globs@), text@),
{
    let mut i: usize = 0;
    while i < globs.len()
        invariant
            i <= globs@.len(),
            forall|k: int| 0 <= k < i ==> !glob_covers(#[trigger] texts(globs@)[k], text@),
        decreases globs@.len() - i,
    {
        assert(texts(globs@)[i as int] == globs@[i as int]@);
        if glob_matches(globs[i].as_str(), text) {
            return true;
        }
        i += 1;
    }
    false
}

/// Whether a list of strings holds a text.
pub fn holds_text(list: &Vec<String>, text: &str) -> (r: bool)
    ensures
        r == texts(list@).contains(text@),
{
    let mut i: usize = 0;
    while i < list.len()
        invariant
            i <= list@.len(),
            forall|k: int| 0 <= k < i ==> texts(list@)[k] != text@,
        decreases list@.len() - i,
    {
        assert(texts(list@)[i as int] == list@[i as int]@);
        if same(list[i].as_str(), text) {
            return true;
        }
        i += 1;
    }
    false
}

/// What the globs of a rule say about an operation: whether one of the argument globs covers
/// the arguments of a command, or the host glob covers the host of a connection.
pub open spec fn globs_hit(rule: RuleSpec, op: OperationSpec) -> bool {
    match op {
        OperationSpec::Exec { argv, .. } => argv.len() > 0 && (rule.args_glob matches Some(globs)
            && any_covers(globs, joined(argv.skip(1), " "@))),
        OperationSpec::FileWrite { .. } => false,
        OperationSpec::Net { host, .. } => rule.host_glob matches Some(glob) && glob_covers(
            glob,
            host,
        ),
    }
}

/// Whether a rule matches an operation, given what its globs say about it.
pub open spec fn rule_matches_given(
    rule: RuleSpec,
    op: OperationSpec,
    home: Option<Seq<char>>,
    hit: bool,
) -> bool {
    match op {
        OperationSpec::Exec { argv, .. } => {
            &&& rule.path_prefix is None && rule.host_glob is None
            &&& argv.len() > 0
            &&& rule.argv0 is Some || rule.args_glob is Some
            &&& rule.argv0 matches Some(names) ==> names.contains(base_name(argv[0]))
            &&& rule.args_glob is Some ==> hit
        },
        OperationSpec::FileWrite { path } => {
            &&& rule.argv0 is None && rule.args_glob is None && rule.host_glob is None
            &&& rule.path_prefix matches Some(p) && tilde_expanded(p, home).is_prefix_of(path)
        },
        OperationSpec::Net { .. } => {
            &&& rule.argv0 is None && rule.args_glob is None && rule.path_prefix is None
            &&& rule.host_glob is Some && hit
        },
    }
}

/// Whether a rule matches an operation.
pub open spec fn rule_matches(rule: RuleSpec, op: OperationSpec, home: Option<Seq<char>>) -> bool {
    rule_matches_given(rule, op, home, globs_hit(rule, op))
}

/// The first of some rules that matches an operation.
pub open spec fn first_match(
    rules: Seq<RuleSpec>,
    op: OperationSpec,
    home: Option<Seq<char>>,
) -> Option<RuleSpec>
    decreases rules.len(),
{
    if rules.len() == 0 {
        None
    } else if rule_matches(rules[0], op, home) {
        Some(rules[0])
    } else {
        first_match(rules.drop_first(), op, home)
    }
}

/// Whether a command is a shell that runs a string, which hides what it does.
pub open spec fn opaque_shell(argv: Seq<Seq<char>>) -> bool {
    &&& argv.len() > 0
    &&& {
        let base = base_name(argv[0]);
        base == "bash"@ || base == "sh"@ || base == "zsh"@ || base == "dash"@ || base == "fish"@
    }
    &&& argv.contains("-c"@)
}

/// Whether a path lies below one of the workspace prefixes.
pub open spec fn below_workspace(
    workspace: Seq<Seq<char>>,
    path: Seq<char>,
    home: Option<Seq<char>>,
) -> bool {
    exists|i: int|
        0 <= i < workspace.len() && tilde_expanded(#[trigger] workspace[i], home).is_prefix_of(path)
}

/// The tier of an operation that the given rule decides, if there is one, and what decided
/// it.
pub open spec fn resolution_given(
    p: PolicySpec,
    op: OperationSpec,
    home: Option<Seq<char>>,
    rule: Option<RuleSpec>,
) -> (Tier, Seq<char>) {
    match rule {
        Some(rule) => (rule.tier, rule.name),
        None => match op {
            OperationSpec::Exec { argv, .. } => if opaque_shell(argv) {
                (Tier::AskStrong, "builtin: opaque shell command"@)
            } else {
                (p.default_tier, "default"@)
            },
            OperationSpec::FileWrite { path } => if below_workspace(p.workspace, path, home) {
                (Tier::Allow, "builtin: workspace write"@)
            } else {
                (p.default_tier, "default"@)
            },
            OperationSpec::Net { .. } => (p.default_tier, "default"@),
        },
    }
}

/// The tier of a request, and what decided it.
pub open spec fn policy_resolution(p: PolicySpec, r: RequestSpec, home: Option<Seq<char>>) -> (
    Tier,
    Seq<char>,
) {
    resolution_given(p, r.op, home, first_match(p.rules, r.op, home))
}

/// Rules are tried in order: a rule that matches decides, unless an earlier one does.
pub proof fn law_first_rule_wins(p: PolicySpec, r: RequestSpec, home: Option<Seq<char>>, i: int)
    requires
        0 <= i < p.rules.len(),
        rule_matches(p.rules[i], r.op, home),
        forall|k: int| 0 <= k < i ==> !rule_matches(#[trigger] p.rules[k], r.op, home),
    ensures
        policy_resolution(p, r, home) == (p.rules[i].tier, p.rules[i].name),
{
    lemma_first_match(p.rules, r.op, home, i);
}

proof fn lemma_first_match(
    rules: Seq<RuleSpec>,
    op: OperationSpec,
    home: Option<Seq<char>>,
    i: int,
)
    requires
        0 <= i < rules.len(),
        rule_matches(rules[i], op, home),
        forall|k: int| 0 <= k < i ==> !rule_matches(#[trigger] rules[k], op, home),
    ensures
        first_match(rules, op, home) == Some(rules[i]),
    decreases rules.len(),
{
    if i > 0 {
        let rest = rules.drop_first();
        assert(rest[i - 1] == rules[i]);
        assert forall|k: int| 0 <= k < i - 1 implies !rule_matches(
            #[trigger] rest[k],
            op,
            home,
        ) by {
            assert(rest[k] == rules[k + 1]);
        }
        assert(!rule_matches(rules[0], op, home));
        lemma_first_match(rest, op, home, i - 1);
    }
}

/// A rule with matchers of one kind never decides an operation of another kind, and a rule
/// with no matchers decides nothing.
pub proof fn law_rules_keep_to_their_kind(
    rule: RuleSpec,
    op: OperationSpec,
    home: Option<Seq<char>>,
)
    requires
        rule_matches(rule, op, home),
    ensures
        op is Exec <==> rule.argv0 is Some || rule.args_glob is Some,
        op is FileWrite <==> rule.path_prefix is Some,
        op is Net <==> rule.host_glob is Some,
{
}

/// A shell that runs a string is asked about strongly, unless a rule says otherwise.
pub proof fn law_opaque_shell_is_strong(
    p: PolicySpec,
    r: RequestSpec,
    argv: Seq<Seq<char>>,
    home: Option<Seq<char>>,
)
    requires
        r.op matches OperationSpec::Exec { argv: a, .. } && a == argv,
        opaque_shell(argv),
        forall|k: int| 0 <= k < p.rules.len() ==> !rule_matches(#[trigger] p.rules[k], r.op, home),
    ensures
        policy_resolution(p, r, home).0 == Tier::AskStrong,
{
    lemma_no_match(p.rules, r.op, home);
}

pub proof fn lemma_no_match(rules: Seq<RuleSpec>, op: OperationSpec, home: Option<Seq<char>>)
    requires
        forall|k: int| 0 <= k < rules.len() ==> !rule_matches(#[trigger] rules[k], op, home),
    ensures
        first_match(rules, op, home) is None,
    decreases rules.len(),
{
    if rules.len() > 0 {
        let rest = rules.drop_first();
        assert forall|k: int| 0 <= k < rest.len() implies !rule_matches(
            #[trigger] rest[k],
            op,
            home,
        ) by {
            assert(rest[k] == rules[k + 1]);
        }
        lemma_no_match(rest, op, home);
    }
}

/// Whether a command is a shell that runs a string.
pub fn is_opaque_shell(argv: &Vec<String>) -> (r: bool)
    ensures
        r == opaque_shell(texts(argv@)),
{
    if argv.len() == 0 {
        return false;
    }
    assert(texts(argv@)[0] == argv@[0]@);
    let base = file_name(argv[0].as_str());
    let b = base.as_str();
    (same(b, "bash") || same(b, "sh") || same(b, "zsh") || same(b, "dash") || same(b, "fish"))
        && holds_text(argv, "-c")
}

impl Rule {
    fn globs_hit(&self, op: &Operation) -> (r: bool)
        ensures
            r == globs_hit(self@, op@),
    {
        match op {
            Operation::Exec { argv, .. } => {
                if argv.len() == 0 {
                    return false;
                }
                match &self.args_glob {
                    Some(globs) => any_glob(globs, join(argv, 1, " ").as_str()),
                    None => false,
                }
            },
            Operation::FileWrite { .. } => false,
            Operation::Net { host, .. } => match &self.host_glob {
                Some(glob) => glob_matches(glob.as_str(), host.as_str()),
                None => false,
            },
        }
    }

    /// Whether the rule matches an operation, given what its globs say about it.
    pub fn matches_given(&self, op: &Operation, home: Option<&str>, hit: bool) -> (r: bool)
        ensures
            r == rule_matches_given(self@, op@, opt_str(home), hit),
    {
        match op {
            Operation::Exec { argv, .. } => {
                if self.path_prefix.is_some() || self.host_glob.is_some() {
                    return false;
                }
                if argv.len() == 0 {
                    return false;
                }
                match &self.argv0 {
                    Some(names) => {
                        let base = file_name(argv[0].as_str());
                        if !holds_text(names, base.as_str()) {
                            return false;
                        }
                    },
                    // A rule with no exec matchers at all must not match every exec.
                    None => {
                        if self.args_glob.is_none() {
                            return false;
                        }
                    },
                }
                self.args_glob.is_none() || hit
            },
            Operation::FileWrite { path } => {
                if self.argv0.is_some() || self.args_glob.is_some() || self.host_glob.is_some() {
                    return false;
                }
                match &self.path_prefix {
                    Some(p) => starts_with(path.as_str(), expand_tilde(p.as_str(), home).as_str()),
                    None => false,
                }
            },
            Operation::Net { .. } => {
                if self.argv0.is_some() || self.args_glob.is_some() || self.path_prefix.is_some() {
                    return false;
                }
                self.host_glob.is_some() && hit
            },
        }
    }

    /// Whether the rule matches an operation.
    pub fn matches(&self, op: &Operation, home: Option<&str>) -> (r: bool)
        ensures
            r == rule_matches(self@, op@, opt_str(home)),
    {
        let hit = self.globs_hit(op);
        self.matches_given(op, home, hit)
    }
}

/// What an optional rule says.
pub open spec fn opt_rule(rule: Option<&Rule>) -> Option<RuleSpec> {
    match rule {
        Some(rule) => Some(rule@),
        None => None,
    }
}

impl Policy {
    fn first_match(&self, op: &Operation, home: Option<&str>) -> (r: Option<&Rule>)
        ensures
            opt_rule(r) == first_match(self@.rules, op@, opt_str(home)),
    {
        let ghost all = rules_view(self.rules@);
        let mut i: usize = 0;
        assert(all.skip(0) == all);
        while i < self.rules.len()
            invariant
                all == rules_view(self.rules@),
                i <= self.rules@.len(),
                first_match(all, op@, opt_str(home)) == first_match(
                    all.skip(i as int),
                    op@,
                    opt_str(home),
                ),
            decreases self.rules@.len() - i,
        {
            assert(all.skip(i as int)[0] == self.rules@[i as int]@);
            if self.rules[i].matches(op, home) {
                return Some(&self.rules[i]);
            }
            assert(all.skip(i as int).drop_first() == all.skip(i + 1));
            i += 1;
        }
        None
    }

    /// The tier of an operation that the given rule decides, if there is one, and what
    /// decided it.
    pub fn resolve_given(&self, op: &Operation, home: Option<&str>, rule: Option<&Rule>) -> (r: (
        Tier,
        String,
    ))
        ensures
            (r.0, r.1@) == resolution_given(self@, op@, opt_str(home), opt_rule(rule)),
    {
        if let Some(rule) = rule {
            return (rule.tier, rule.name.clone());
        }
        match op {
            // `bash -c` and friends hide arbitrary commands inside a string that is not
            // parsed here; they get the strong tier unless a rule above said otherwise.
            Operation::Exec { argv, .. } => {
                if is_opaque_shell(argv) {
                    return (Tier::AskStrong, "builtin: opaque shell command".to_owned());
                }
            },
            Operation::FileWrite { path } => {
                if self.in_workspace(path.as_str(), home) {
                    return (Tier::Allow, "builtin: workspace write".to_owned());
                }
            },
            Operation::Net { .. } => {},
        }
        (self.default_tier, "default".to_owned())
    }

    /// The tier of a request, and the name of what decided it.
    pub fn resolve(&self, req: &GateRequest, home: Option<&str>) -> (r: (Tier, String))
        ensures
            (r.0, r.1@) == policy_resolution(self@, req@, opt_str(home)),
    {
        let rule = self.first_match(&req.op, home);
        self.resolve_given(&req.op, home, rule)
    }

    fn in_workspace(&self, path: &str, home: Option<&str>) -> (r: bool)
        ensures
            r == below_workspace(self@.workspace, path@, opt_str(home)),
    {
        let ghost all = texts(self.workspace@);
        let mut i: usize = 0;
        while i < self.workspace.len()
            invariant
                all == texts(self.workspace@),
                i <= self.workspace@.len(),
                forall|k: int|
                    0 <= k < i ==> !tilde_expanded(#[trigger] all[k], opt_str(home)).is_prefix_of(
                        path@,
                    ),
            decreases self.workspace@.len() - i,
        {
            assert(all[i as int] == self.workspace@[i as int]@);
            if starts_with(path, expand_tilde(self.workspace[i].as_str(), home).as_str()) {
                return true;
            }
            i += 1;
        }
        false
    }
}

}
