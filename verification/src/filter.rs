//! Pattern rules: how a rule becomes a matcher, when a line matches a set
//! of matchers, and which byte spans of a line are highlighted.

use crate::engine::{
    escaped, regex_as_str, regex_build, regex_compile, regex_error_message, regex_error_text,
    regex_escape, regex_first_match, regex_is_match, regex_matches, regex_source,
};
use crate::text::{ends_of, first_of, last_of};
use regex::Regex;
use vstd::prelude::*;
use vstd::string::StringExecFns;

verus! {

/// Why a pattern could not be turned into a matcher.
#[derive(Debug, Clone)]
pub struct CompileError {
    /// The engine's own description of the fault.
    pub message: String,
}

impl CompileError {
    /// The description as an owned string.
    pub fn to_string(&self) -> (s: String)
        ensures
            s@ == self.message@,
    {
        self.message.clone()
    }
}

/// A user-defined matching specification, with its cached matcher and its
/// running count of matched lines.
#[derive(Debug, Clone)]
pub struct FilterRule {
    pub pattern: String,
    pub is_regex: bool,
    pub case_insensitive: bool,
    pub whole_word: bool,
    pub whole_line: bool,
    pub enabled: bool,
    pub compiled: Option<Regex>,
    pub match_count: usize,
}

/// A pattern body anchored to the start and the end of the line.
pub open spec fn anchor_line(body: Seq<char>) -> Seq<char> {
    seq!['^'] + body + seq!['$']
}

/// A pattern body set between two word boundaries.
pub open spec fn anchor_word(body: Seq<char>) -> Seq<char> {
    seq!['\\', 'b'] + body + seq!['\\', 'b']
}

/// A pattern text that starts with `^` and ends with `$`.
pub open spec fn is_anchored(pattern: Seq<char>) -> bool {
    first_of(pattern) == Some('^') && last_of(pattern) == Some('$')
}

/// The outcome of a build, with the engine's error replaced by its text.
pub open spec fn build_outcome(
    built: Result<Regex, regex::Error>,
    got: Result<Regex, CompileError>,
) -> bool {
    match built {
        Ok(re) => got == Ok::<Regex, CompileError>(re),
        Err(cause) => got is Err && got->Err_0.message@ == regex_error_text(cause),
    }
}

impl FilterRule {
    /// The rule's text as the engine is to read it before anchoring: a
    /// regular expression as written, a literal with its meta characters
    /// escaped.
    pub open spec fn body_pattern(&self) -> Seq<char> {
        if self.is_regex {
            self.pattern@
        } else {
            escaped(self.pattern@)
        }
    }

    /// The pattern text handed to the engine.  Whole-line anchoring wins
    /// over whole-word anchoring when both are asked for.
    pub open spec fn full_pattern(&self) -> Seq<char> {
        if self.whole_line {
            anchor_line(self.body_pattern())
        } else if self.whole_word {
            anchor_word(self.body_pattern())
        } else {
            self.body_pattern()
        }
    }

    /// What the engine makes of the rule.
    pub open spec fn build_result(&self) -> Result<Regex, regex::Error> {
        regex_build(self.full_pattern(), self.case_insensitive)
    }

    /// The matcher the rule has after a compile attempt: the cached one if
    /// there is one, else a freshly built one, else none.
    pub open spec fn refreshed(&self) -> Option<Regex> {
        match self.compiled {
            Some(re) => Some(re),
            None => match self.build_result() {
                Ok(re) => Some(re),
                Err(_) => None,
            },
        }
    }

    /// The cached matcher, if there is one, is the one that the rule's
    /// pattern and flags give.  Rules made by `new` and filled by
    /// `ensure_compiled` keep it so; whoever changes the pattern or a flag
    /// of a rule has to empty the cache to keep it so.
    pub open spec fn cache_valid(&self) -> bool {
        self.compiled matches Some(re) ==> self.build_result() == Ok::<Regex, regex::Error>(re)
    }

    /// The rule after it has seen a line: a disabled rule is left alone; an
    /// enabled one gets its matcher if it lacks it and compiles, and its
    /// count rises by one, saturating, if the matcher accepts the line.
    pub open spec fn counted(&self, line: Seq<char>) -> FilterRule {
        if !self.enabled {
            *self
        } else {
            FilterRule {
                compiled: self.refreshed(),
                match_count: match self.refreshed() {
                    Some(re) => if regex_is_match(re, line) && self.match_count < usize::MAX {
                        (self.match_count + 1) as usize
                    } else {
                        self.match_count
                    },
                    None => self.match_count,
                },
                ..*self
            }
        }
    }

    /// A new enabled rule with no cached matcher and a zero count.
    pub fn new(
        pattern: String,
        is_regex: bool,
        case_insensitive: bool,
        whole_word: bool,
        whole_line: bool,
    ) -> (rule: FilterRule)
        ensures
            rule == (FilterRule {
                pattern,
                is_regex,
                case_insensitive,
                whole_word,
                whole_line,
                enabled: true,
                compiled: None,
                match_count: 0,
            }),
            rule.cache_valid(),
    {
        FilterRule {
            pattern,
            is_regex,
            case_insensitive,
            whole_word,
            whole_line,
            enabled: true,
            compiled: None,
            match_count: 0,
        }
    }

    /// Writes the pattern text that the engine is to compile.
    pub fn pattern_text(&self) -> (text: String)
        ensures
            text@ == self.full_pattern(),
    {
        let body = if self.is_regex {
            self.pattern.clone()
        } else {
            regex_escape(self.pattern.as_str())
        };
        if self.whole_line {
            proof {
                reveal_strlit("^");
                reveal_strlit("$");
            }
            let mut text = String::from_str("^");
            text.append(body.as_str());
            text.append("$");
            assert(text@ =~= anchor_line(body@));
            text
        } else if self.whole_word {
            proof {
                reveal_strlit("\\b");
            }
            let mut text = String::from_str("\\b");
            text.append(body.as_str());
            text.append("\\b");
            assert(text@ =~= anchor_word(body@));
            text
        } else {
            body
        }
    }

    /// Compiles the rule into a matcher.  It succeeds exactly when the
    /// engine accepts the rule's pattern text, and the matcher then carries
    /// that text; otherwise the error holds the engine's message.
    pub fn compile(&self) -> (r: Result<Regex, CompileError>)
        ensures
            build_outcome(self.build_result(), r),
            r matches Ok(re) ==> regex_source(re) == self.full_pattern(),
    {
        let text = self.pattern_text();
        compile_pattern(text.as_str(), self.case_insensitive)
    }

    /// Fills the cache if it is empty and the rule compiles; leaves the
    /// rule as it is otherwise.
    pub fn ensure_compiled(&mut self)
        ensures
            *final(self) == (FilterRule { compiled: old(self).refreshed(), ..*old(self) }),
            old(self).cache_valid() ==> final(self).cache_valid(),
    {
        if self.compiled.is_none() {
            match self.compile() {
                Ok(re) => {
                    self.compiled = Some(re);
                },
                Err(_) => {},
            }
        }
    }
}

impl FilterRule {
    /// Gives the rule a new pattern text and empties the cache, so that
    /// the next use compiles the new text.
    pub fn set_pattern(&mut self, pattern: String)
        ensures
            *final(self) == (FilterRule { pattern, compiled: None, ..*old(self) }),
            final(self).cache_valid(),
    {
        self.pattern = pattern;
        self.compiled = None;
    }

    /// Gives the rule new flags and empties the cache, so that the next
    /// use compiles the pattern under the new flags.
    pub fn set_flags(
        &mut self,
        is_regex: bool,
        case_insensitive: bool,
        whole_word: bool,
        whole_line: bool,
    )
        ensures
            *final(self) == (FilterRule {
                is_regex,
                case_insensitive,
                whole_word,
                whole_line,
                compiled: None,
                ..*old(self)
            }),
            final(self).cache_valid(),
    {
        self.is_regex = is_regex;
        self.case_insensitive = case_insensitive;
        self.whole_word = whole_word;
        self.whole_line = whole_line;
        self.compiled = None;
    }

    /// Shows a line to the rule and counts it if the rule matches.
    pub fn count_line(&mut self, line: &str)
        ensures
            *final(self) == old(self).counted(line@),
            final(self).match_count >= old(self).match_count,
            old(self).cache_valid() ==> final(self).cache_valid(),
    {
        if !self.enabled {
            return;
        }
        self.ensure_compiled();
        let hit = match &self.compiled {
            Some(re) => is_match(re, line),
            None => false,
        };
        if hit {
            self.match_count = self.match_count.saturating_add(1);
        }
    }
}

/// Compiles a pattern text as it stands, replacing the engine's error by
/// its message.
pub fn compile_pattern(pattern: &str, case_insensitive: bool) -> (r: Result<Regex, CompileError>)
    ensures
        build_outcome(regex_build(pattern@, case_insensitive), r),
        r matches Ok(re) ==> regex_source(re) == pattern@,
{
    match regex_compile(pattern, case_insensitive) {
        Ok(re) => Ok(re),
        Err(cause) => Err(CompileError { message: regex_error_message(&cause) }),
    }
}

/// The single case-insensitive matcher of a pattern given on the command
/// line: none when no pattern or an empty one was given.
pub fn build_filter(pattern: Option<&str>) -> (r: Result<Option<Regex>, CompileError>)
    ensures
        match pattern {
            Some(p) if p@.len() > 0 => match regex_build(p@, true) {
                Ok(re) => r == Ok::<Option<Regex>, CompileError>(Some(re)),
                Err(cause) => r is Err && r->Err_0.message@ == regex_error_text(cause),
            },
            _ => r == Ok::<Option<Regex>, CompileError>(None),
        },
{
    match pattern {
        Some(p) => {
            if p.is_empty() {
                return Ok(None);
            }
            match compile_pattern(p, true) {
                Ok(re) => Ok(Some(re)),
                Err(e) => Err(e),
            }
        },
        None => Ok(None),
    }
}

/// Whether a matcher accepts a line.  A pattern anchored at both ends is
/// asked for a match, any other for a first match; the engine answers both
/// questions alike.
pub fn is_match(re: &Regex, line: &str) -> (b: bool)
    ensures
        b == regex_is_match(*re, line@),
{
    let (first, last) = ends_of(regex_as_str(re));
    if first == Some('^') && last == Some('$') {
        regex_matches(re, line)
    } else {
        regex_first_match(re, line).is_some()
    }
}

/// Some matcher of the set accepts the text.
pub open spec fn any_matches(enabled: Seq<Regex>, text: Seq<char>) -> bool {
    exists|i: int| 0 <= i < enabled.len() && regex_is_match(#[trigger] enabled[i], text)
}

/// Whether a line is visible under a set of matchers: always when the set
/// is empty, else when at least one of them accepts it.
pub fn line_matches(text: &str, enabled: &[Regex]) -> (b: bool)
    ensures
        b == (enabled@.len() == 0 || any_matches(enabled@, text@)),
{
    if enabled.len() == 0 {
        return true;
    }
    let mut i: usize = 0;
    while i < enabled.len()
        invariant
            i <= enabled@.len(),
            forall|k: int| 0 <= k < i ==> !regex_is_match(#[trigger] enabled@[k], text@),
        decreases enabled@.len() - i,
    {
        if is_match(&enabled[i], text) {
            return true;
        }
        i += 1;
    }
    false
}

/// The matchers of the enabled rules that compile, in rule order.
pub open spec fn compiled_enabled(rules: Seq<FilterRule>) -> Seq<Regex>
    decreases rules.len(),
{
    if rules.len() == 0 {
        Seq::empty()
    } else {
        let rest = compiled_enabled(rules.drop_last());
        let rule = rules.last();
        if rule.enabled && rule.build_result() is Ok {
            rest.push(rule.build_result()->Ok_0)
        } else {
            rest
        }
    }
}

/// Compiles every enabled rule afresh and keeps the matchers of those that
/// compile.
pub fn compile_enabled_rules(rules: &[FilterRule]) -> (out: Vec<Regex>)
    ensures
        out@ == compiled_enabled(rules@),
{
    let mut out: Vec<Regex> = Vec::new();
    let mut i: usize = 0;
    while i < rules.len()
        invariant
            i <= rules@.len(),
            out@ == compiled_enabled(rules@.take(i as int)),
        decreases rules@.len() - i,
    {
        assert(rules@.take(i + 1).drop_last() == rules@.take(i as int));
        if rules[i].enabled {
            match rules[i].compile() {
                Ok(re) => {
                    out.push(re);
                },
                Err(_) => {},
            }
        }
        i += 1;
    }
    assert(rules@.take(rules@.len() as int) == rules@);
    out
}

/// A rule that asks for the whole line is anchored at both ends, and what
/// it asks of whole words makes no difference to its pattern text.
pub proof fn lemma_whole_line_anchors(rule: FilterRule)
    requires
        rule.whole_line,
    ensures
        rule.full_pattern() == anchor_line(rule.body_pattern()),
        is_anchored(rule.full_pattern()),
        rule.full_pattern() == (FilterRule { whole_word: !rule.whole_word, ..rule }).full_pattern(),
{
    let text = rule.full_pattern();
    assert(text.first() == '^');
    assert(text.last() == '$');
}

} // verus!
