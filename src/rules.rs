use vstd::prelude::*;

verus! {

/// Whether `globber` accepts `p` as an extended glob pattern.
pub uninterp spec fn glob_valid(p: Seq<char>) -> bool;

/// Whether the extended glob `p` matches all of `s`, as `globber` decides.
pub uninterp spec fn glob_match(p: Seq<char>, s: Seq<char>) -> bool;

/// Whether the `regex` crate accepts `p` as a regular expression.
pub uninterp spec fn regex_valid(p: Seq<char>) -> bool;

/// Whether the regular expression `p` matches somewhere in `s`, as the
/// `regex` crate decides.
pub uninterp spec fn regex_match(p: Seq<char>, s: Seq<char>) -> bool;

#[verifier::external_type_specification]
#[verifier::external_body]
pub struct ExGlobError(globber::Error);

#[verifier::external_type_specification]
#[verifier::external_body]
pub struct ExRegexError(regex::Error);

/// Relies on `globber::Pattern::new`: it parses `p`, failing exactly on the
/// patterns it does not accept.
#[verifier::external_body]
fn check_glob(p: &str) -> (r: Result<(), globber::Error>)
    ensures
        r is Ok <==> glob_valid(p@),
{
    match globber::Pattern::new(p) {
        Ok(_) => Ok(()),
        Err(e) => Err(e),
    }
}

/// Relies on `globber::Pattern::new` and `globber::Pattern::matches`: whether
/// the pattern `p` matches `s`, which depends on the two texts alone.
#[verifier::external_body]
fn glob_matches(p: &str, s: &str) -> (r: bool)
    requires
        glob_valid(p@),
    ensures
        r == glob_match(p@, s@),
{
    match globber::Pattern::new(p) {
        Ok(g) => g.matches(s),
        Err(_) => false,
    }
}

/// Relies on `regex::Regex::new`: it compiles `p`, failing exactly on the
/// expressions it does not accept.
#[verifier::external_body]
fn check_regex(p: &str) -> (r: Result<(), regex::Error>)
    ensures
        r is Ok <==> regex_valid(p@),
{
    match regex::Regex::new(p) {
        Ok(_) => Ok(()),
        Err(e) => Err(e),
    }
}

/// Relies on `regex::Regex::new` and `regex::Regex::is_match`: whether the
/// expression `p` matches somewhere in `s`, which depends on the two texts
/// alone.
#[verifier::external_body]
fn regex_matches(p: &str, s: &str) -> (r: bool)
    requires
        regex_valid(p@),
    ensures
        r == regex_match(p@, s@),
{
    match regex::Regex::new(p) {
        Ok(re) => re.is_match(s),
        Err(_) => false,
    }
}

/// A pattern that was refused.
#[derive(Debug)]
pub enum RuleError {
    Glob(globber::Error),
    Regex(regex::Error),
}

/// A rule that matches paths against an extended glob pattern (`*`, `?`,
/// `**`, ranges, and `?(..)`, `*(..)`, `+(..)`, `@(..)`, `!(..)`).
#[derive(Debug)]
pub struct GlobRule {
    pattern: String,
}

impl View for GlobRule {
    type V = Seq<char>;

    closed spec fn view(&self) -> Seq<char> {
        self.pattern@
    }
}

impl GlobRule {
    #[verifier::type_invariant]
    spec fn valid(&self) -> bool {
        glob_valid(self.pattern@)
    }

    /// A rule of pattern `pattern`, or the parser's error when it is malformed.
    pub fn new(pattern: &str) -> (r: Result<GlobRule, RuleError>)
        ensures
            r is Ok <==> glob_valid(pattern@),
            r matches Ok(g) ==> g@ == pattern@,
            r matches Err(e) ==> e is Glob,
    {
        match check_glob(pattern) {
            Ok(()) => Ok(GlobRule { pattern: String::from_str(pattern) }),
            Err(e) => Err(RuleError::Glob(e)),
        }
    }

    /// Whether the pattern matches `path`.
    pub fn matches(&self, path: &str) -> (r: bool)
        ensures
            r == glob_match(self@, path@),
    {
        proof {
            use_type_invariant(self);
        }
        glob_matches(self.pattern.as_str(), path)
    }
}

/// A rule that matches paths against a regular expression (anywhere in the
/// path unless anchored).
#[derive(Debug)]
pub struct RegexRule {
    pattern: String,
}

impl View for RegexRule {
    type V = Seq<char>;

    closed spec fn view(&self) -> Seq<char> {
        self.pattern@
    }
}

impl RegexRule {
    #[verifier::type_invariant]
    spec fn valid(&self) -> bool {
        regex_valid(self.pattern@)
    }

    /// A rule of expression `pattern`, or the compiler's error when it is malformed.
    pub fn new(pattern: &str) -> (r: Result<RegexRule, RuleError>)
        ensures
            r is Ok <==> regex_valid(pattern@),
            r matches Ok(g) ==> g@ == pattern@,
            r matches Err(e) ==> e is Regex,
    {
        match check_regex(pattern) {
            Ok(()) => Ok(RegexRule { pattern: String::from_str(pattern) }),
            Err(e) => Err(RuleError::Regex(e)),
        }
    }

    /// Whether the expression matches in `path`.
    pub fn matches(&self, path: &str) -> (r: bool)
        ensures
            r == regex_match(self@, path@),
    {
        proof {
            use_type_invariant(self);
        }
        regex_matches(self.pattern.as_str(), path)
    }
}

/// A matcher of paths.
#[derive(Debug)]
pub enum Rule {
    Glob(GlobRule),
    Regex(RegexRule),
}

/// Whether rule `r` matches `path`.
pub open spec fn rule_matches(r: Rule, path: Seq<char>) -> bool {
    match r {
        Rule::Glob(g) => glob_match(g@, path),
        Rule::Regex(x) => regex_match(x@, path),
    }
}

/// Whether some rule of `rs` matches `path`.
pub open spec fn any_matches(rs: Seq<Rule>, path: Seq<char>) -> bool {
    exists|i: int| 0 <= i < rs.len() && rule_matches(#[trigger] rs[i], path)
}

impl Rule {
    /// Whether the rule matches `path`.
    pub fn matches(&self, path: &str) -> (r: bool)
        ensures
            r == rule_matches(*self, path@),
    {
        match self {
            Rule::Glob(g) => g.matches(path),
            Rule::Regex(x) => x.matches(path),
        }
    }
}

/// The verdict of [`Rules::passes`].
#[derive(Debug, Clone, Copy, PartialEq, Eq, Structural)]
pub enum Status {
    /// Some inclusion rule matches (or there is none), and no exclusion rule.
    Pass,
    /// There are inclusion rules and none matches.
    NotIncluded,
    /// Some exclusion rule matches.
    Excluded,
}

/// The verdict on `path` of inclusion rules `inc` and exclusion rules `exc`.
pub open spec fn verdict(inc: Seq<Rule>, exc: Seq<Rule>, path: Seq<char>) -> Status {
    if inc.len() > 0 && !any_matches(inc, path) {
        Status::NotIncluded
    } else if any_matches(exc, path) {
        Status::Excluded
    } else {
        Status::Pass
    }
}

/// The verdict on a path, given whether there are inclusion rules, whether
/// one of them matches the path, and whether an exclusion rule does.
pub fn decide(has_inclusions: bool, included: bool, excluded: bool) -> (r: Status)
    ensures
        r == (if has_inclusions && !included {
            Status::NotIncluded
        } else if excluded {
            Status::Excluded
        } else {
            Status::Pass
        }),
{
    if has_inclusions && !included {
        Status::NotIncluded
    } else if excluded {
        Status::Excluded
    } else {
        Status::Pass
    }
}

/// Inclusion and exclusion rules for files.
#[derive(Debug)]
pub struct Rules {
    inclusion: Vec<Rule>,
    exclusion: Vec<Rule>,
}

fn first_match(rules: &Vec<Rule>, path: &str) -> (r: bool)
    ensures
        r == any_matches(rules@, path@),
{
    let mut i: usize = 0;
    while i < rules.len()
        invariant
            i <= rules@.len(),
            forall|k: int| 0 <= k < i ==> !rule_matches(#[trigger] rules@[k], path@),
        decreases rules@.len() - i,
    {
        if rules[i].matches(path) {
            return true;
        }
        i = i + 1;
    }
    false
}

impl Rules {
    pub closed spec fn inclusions(&self) -> Seq<Rule> {
        self.inclusion@
    }

    pub closed spec fn exclusions(&self) -> Seq<Rule> {
        self.exclusion@
    }

    /// No rules: every path passes.
    pub fn new() -> (r: Rules)
        ensures
            r.inclusions().len() == 0,
            r.exclusions().len() == 0,
    {
        Rules { inclusion: Vec::new(), exclusion: Vec::new() }
    }

    pub fn add_inclusion(&mut self, rule: Rule)
        ensures
            final(self).inclusions() == old(self).inclusions().push(rule),
            final(self).exclusions() == old(self).exclusions(),
    {
        self.inclusion.push(rule);
    }

    pub fn add_exclusion(&mut self, rule: Rule)
        ensures
            final(self).inclusions() == old(self).inclusions(),
            final(self).exclusions() == old(self).exclusions().push(rule),
    {
        self.exclusion.push(rule);
    }

    /// Adds the rules of `v`, in order, after the inclusion rules here.
    pub fn add_inclusions(&mut self, v: Vec<Rule>)
        ensures
            final(self).inclusions() == old(self).inclusions() + v@,
            final(self).exclusions() == old(self).exclusions(),
    {
        let mut v = v;
        self.inclusion.append(&mut v);
    }

    /// Adds the rules of `v`, in order, after the exclusion rules here.
    pub fn add_exclusions(&mut self, v: Vec<Rule>)
        ensures
            final(self).inclusions() == old(self).inclusions(),
            final(self).exclusions() == old(self).exclusions() + v@,
    {
        let mut v = v;
        self.exclusion.append(&mut v);
    }

    /// Moves every rule of `other` after the rules of the same kind here.
    pub fn add_all(&mut self, other: Rules)
        ensures
            final(self).inclusions() == old(self).inclusions() + other.inclusions(),
            final(self).exclusions() == old(self).exclusions() + other.exclusions(),
    {
        let mut other = other;
        self.inclusion.append(&mut other.inclusion);
        self.exclusion.append(&mut other.exclusion);
    }

    /// Whether `path` passes: some inclusion rule must match it, unless there
    /// is none, and no exclusion rule may.
    pub fn passes(&self, path: &str) -> (r: Status)
        ensures
            r == verdict(self.inclusions(), self.exclusions(), path@),
    {
        let has_inclusions = self.inclusion.len() > 0;
        let included = has_inclusions && first_match(&self.inclusion, path);
        decide(has_inclusions, included, first_match(&self.exclusion, path))
    }
}

} // verus!
