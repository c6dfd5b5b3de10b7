//! Pattern rules and the substitution engine.
//!
//! A `Matcher` owns one compiled pattern; a `MatcherSet` owns the ordered
//! rules of one transform invocation together with the shared filler. Rules
//! run in order, each rescanning the previous rule's output, and a text is
//! reported as rewritten only when at least one rule matched.

use vstd::prelude::*;
use crate::text::filler_for;

verus! {

/// Whether the `regex` crate accepts a pattern text; a function of the
/// pattern text alone.
pub uninterp spec fn re_valid(pat: Seq<char>) -> bool;

/// Whether a compiled pattern matches anywhere in a text; a function of the
/// pattern and the text alone.
pub uninterp spec fn re_match(pat: Seq<char>, text: Seq<char>) -> bool;

/// The text after every non-overlapping match of the pattern is replaced by
/// the filler expansion of the matched span (`filler_block`); a function of
/// the pattern, the filler and the text alone.
pub uninterp spec fn re_scrub(pat: Seq<char>, filler: Seq<char>, text: Seq<char>) -> Seq<char>;

#[verifier::external_type_specification]
#[verifier::external_body]
pub struct ExRegex(regex::Regex);

/// One compiled pattern rule, paired with the pattern text it was built from.
pub struct Matcher {
    regex: regex::Regex,
    pattern: String,
}

impl Matcher {
    /// The pattern text this rule was compiled from.
    pub closed spec fn pat(&self) -> Seq<char> {
        self.pattern@
    }
}

/// Relies on `regex::Regex::new`: compilation is deterministic in the pattern
/// text and succeeds exactly on the patterns the crate accepts, which
/// `re_valid` names. Every `Matcher` is built here, so a matcher's compiled
/// form always belongs to its recorded pattern text.
#[verifier::external_body]
fn compile_matcher(pattern: &str) -> (r: Option<Matcher>)
    ensures
        r is Some <==> re_valid(pattern@),
        (match r {
            Some(m) => m.pat() == pattern@,
            None => true,
        }),
{
    match regex::Regex::new(pattern) {
        Ok(re) => Some(Matcher { regex: re, pattern: pattern.to_string() }),
        Err(_) => None,
    }
}

/// Relies on `regex::Regex::is_match`: whether the pattern matches anywhere
/// in the text, deterministic in the pattern and the text, which `re_match`
/// names.
#[verifier::external_body]
fn regex_is_match(m: &Matcher, text: &str) -> (r: bool)
    ensures
        r == re_match(m.pat(), text@),
{
    m.regex.is_match(text)
}

/// Relies on `regex::Regex::replace_all`: every non-overlapping match in the
/// text is replaced by the handed closure's output, here the verified
/// `filler_for` on the matched span; the result is deterministic in the
/// pattern, the filler and the text, which `re_scrub` names.
#[verifier::external_body]
fn regex_scrub(m: &Matcher, filler: &str, text: &str) -> (r: String)
    ensures
        r@ == re_scrub(m.pat(), filler@, text@),
{
    let replaced = m.regex.replace_all(text, |caps: &regex::Captures| {
        filler_for(filler, &caps[0])
    });
    replaced.into_owned()
}

impl Matcher {
    /// One attempt of one rule on one text: `None` when the pattern matches
    /// nowhere (the caller must leave the original value untouched), and
    /// otherwise the text with every matched span replaced.
    pub fn try_rewrite(&self, filler: &str, text: &str) -> (r: Option<String>)
        ensures
            r is Some <==> re_match(self.pat(), text@),
            (match r {
                Some(s) => s@ == re_scrub(self.pat(), filler@, text@),
                None => true,
            }),
    {
        if regex_is_match(self, text) {
            Some(regex_scrub(self, filler, text))
        } else {
            None
        }
    }
}

/// One rule applied to one text: the scrubbed text when the rule matches,
/// the text itself otherwise.
pub open spec fn apply_rule(pat: Seq<char>, filler: Seq<char>, text: Seq<char>) -> Seq<char> {
    if re_match(pat, text) {
        re_scrub(pat, filler, text)
    } else {
        text
    }
}

/// All rules applied in order, each rule consuming the previous rule's
/// output, not the original text.
pub open spec fn apply_rules(pats: Seq<Seq<char>>, filler: Seq<char>, text: Seq<char>) -> Seq<char>
    decreases pats.len(),
{
    if pats.len() == 0 {
        text
    } else {
        apply_rules(pats.subrange(1, pats.len() as int), filler, apply_rule(pats[0], filler, text))
    }
}

/// Whether any rule matches the text it is handed during the in-order run.
pub open spec fn any_rule_matches(pats: Seq<Seq<char>>, filler: Seq<char>, text: Seq<char>) -> bool
    decreases pats.len(),
{
    pats.len() > 0 && (re_match(pats[0], text) || any_rule_matches(
        pats.subrange(1, pats.len() as int),
        filler,
        apply_rule(pats[0], filler, text),
    ))
}

/// The text a node ends up holding: the in-order result when some rule
/// matched, and the original text, untouched, otherwise.
pub open spec fn scrub_text(pats: Seq<Seq<char>>, filler: Seq<char>, text: Seq<char>) -> Seq<char> {
    if any_rule_matches(pats, filler, text) {
        apply_rules(pats, filler, text)
    } else {
        text
    }
}

/// When no rule matches during the run, the in-order result is the original
/// text itself, so an untouched node is the same thing either way.
pub proof fn lemma_apply_rules_unmatched(pats: Seq<Seq<char>>, filler: Seq<char>, text: Seq<char>)
    requires
        !any_rule_matches(pats, filler, text),
    ensures
        apply_rules(pats, filler, text) == text,
    decreases pats.len(),
{
    if pats.len() > 0 {
        lemma_apply_rules_unmatched(pats.subrange(1, pats.len() as int), filler, text);
    }
}

/// `scrub_text` always equals the in-order result.
pub proof fn lemma_scrub_text_is_apply_rules(
    pats: Seq<Seq<char>>,
    filler: Seq<char>,
    text: Seq<char>,
)
    ensures
        scrub_text(pats, filler, text) == apply_rules(pats, filler, text),
{
    if !any_rule_matches(pats, filler, text) {
        lemma_apply_rules_unmatched(pats, filler, text);
    }
}

/// Order sensitivity: running the rules `r1 + r2` equals running `r1` on the
/// original text and then `r2` on `r1`'s output.
pub proof fn lemma_rules_compose(
    r1: Seq<Seq<char>>,
    r2: Seq<Seq<char>>,
    filler: Seq<char>,
    text: Seq<char>,
)
    ensures
        apply_rules(r1 + r2, filler, text) == apply_rules(r2, filler, apply_rules(r1, filler, text)),
    decreases r1.len(),
{
    if r1.len() == 0 {
        assert(r1 + r2 =~= r2);
    } else {
        let both = r1 + r2;
        assert(both[0] == r1[0]);
        assert(both.subrange(1, both.len() as int) =~= r1.subrange(1, r1.len() as int) + r2);
        lemma_rules_compose(
            r1.subrange(1, r1.len() as int),
            r2,
            filler,
            apply_rule(r1[0], filler, text),
        );
    }
}

/// Order sensitivity for two rules: the result equals applying the first
/// rule to the original text, then the second rule to the first's output.
pub proof fn lemma_two_rules_in_order(p1: Seq<char>, p2: Seq<char>, filler: Seq<char>, text: Seq<char>)
    ensures
        apply_rules(seq![p1, p2], filler, text) == apply_rule(
            p2,
            filler,
            apply_rule(p1, filler, text),
        ),
{
    reveal_with_fuel(apply_rules, 3);
    assert(seq![p1, p2].subrange(1, 2) =~= seq![p2]);
    assert(seq![p2].subrange(1, 1) =~= Seq::<Seq<char>>::empty());
}

/// The decoded configuration a transform invocation receives: the ordered
/// pattern texts and the optional filler, empty when absent.
pub struct Config {
    pub replace_with: Option<String>,
    pub matches: Vec<String>,
}

impl Config {
    /// The filler the configuration denotes.
    pub open spec fn spec_filler(&self) -> Seq<char> {
        match self.replace_with {
            Some(s) => s@,
            None => Seq::empty(),
        }
    }

    /// The ordered pattern texts the configuration denotes.
    pub open spec fn spec_patterns(&self) -> Seq<Seq<char>> {
        self.matches.deep_view()
    }
}

impl Default for Config {
    /// The all-defaults configuration: no patterns, and deletion as filler.
    fn default() -> (c: Config)
        ensures
            c.replace_with is None,
            c.matches@.len() == 0,
    {
        Config { replace_with: None, matches: Vec::new() }
    }
}

/// A pattern string that the matching engine refused: `index` is the position
/// of the first such pattern in the configured list.
#[derive(Clone, Copy, Debug, PartialEq, Eq, Structural)]
pub struct PatternError {
    pub index: usize,
}

/// The compiled rules of one transform invocation, in configuration order,
/// with the filler they share.
pub struct MatcherSet {
    matchers: Vec<Matcher>,
    filler: String,
}

impl MatcherSet {
    /// The ordered pattern texts of the compiled rules.
    pub closed spec fn pats(&self) -> Seq<Seq<char>> {
        self.matchers@.map_values(|m: Matcher| m.pat())
    }

    /// The shared filler.
    pub closed spec fn spec_filler(&self) -> Seq<char> {
        self.filler@
    }

    /// Compiles every configured pattern, in order. Fails, before any tree is
    /// touched, exactly when some pattern is refused by the matching engine,
    /// and then reports the first refused pattern's position.
    pub fn new(config: Config) -> (r: Result<MatcherSet, PatternError>)
        ensures
            (match r {
                Ok(ms) => {
                    &&& ms.pats() =~= config.spec_patterns()
                    &&& ms.spec_filler() == config.spec_filler()
                    &&& forall|j: int|
                        0 <= j < config.spec_patterns().len() ==> re_valid(
                            #[trigger] config.spec_patterns()[j],
                        )
                },
                Err(e) => {
                    &&& e.index < config.spec_patterns().len()
                    &&& !re_valid(config.spec_patterns()[e.index as int])
                    &&& forall|j: int|
                        0 <= j < e.index ==> re_valid(#[trigger] config.spec_patterns()[j])
                },
            }),
    {
        let ghost cfg = config;
        let filler = match config.replace_with {
            Some(s) => s,
            None => String::new(),
        };
        let patterns = config.matches;
        proof {
            assert(patterns == cfg.matches);
            assert(filler@ == cfg.spec_filler());
        }
        let mut matchers: Vec<Matcher> = Vec::new();
        let mut i: usize = 0;
        while i < patterns.len()
            invariant
                cfg == config,
                patterns == cfg.matches,
                i <= patterns@.len(),
                matchers@.len() == i,
                forall|j: int| 0 <= j < i ==> (#[trigger] matchers@[j]).pat() == patterns@[j]@,
                forall|j: int| 0 <= j < i ==> re_valid(#[trigger] patterns@[j]@),
            decreases patterns@.len() - i,
        {
            match compile_matcher(patterns[i].as_str()) {
                Some(m) => matchers.push(m),
                None => {
                    proof {
                        assert forall|j: int| 0 <= j <= i implies cfg.spec_patterns()[j]
                            == patterns@[j]@ by {}
                    }
                    return Err(PatternError { index: i });
                },
            }
            i = i + 1;
        }
        let ms = MatcherSet { matchers, filler };
        proof {
            assert forall|j: int| 0 <= j < patterns@.len() implies cfg.spec_patterns()[j]
                == patterns@[j]@ by {}
            assert forall|j: int| 0 <= j < patterns@.len() implies ms.pats()[j]
                == cfg.spec_patterns()[j] by {
                assert(matchers@[j].pat() == patterns@[j]@);
            }
            assert(ms.pats() =~= cfg.spec_patterns());
        }
        Ok(ms)
    }

    /// Runs every rule in order over the text, each rule rescanning the
    /// previous rule's output. `Some` exactly when at least one rule matched
    /// the text it was handed; `None` tells the caller to keep its original
    /// value untouched.
    pub fn rewrite_text(&self, text: &str) -> (r: Option<String>)
        ensures
            r is Some <==> any_rule_matches(self.pats(), self.spec_filler(), text@),
            (match r {
                Some(s) => s@ == apply_rules(self.pats(), self.spec_filler(), text@),
                None => true,
            }),
    {
        let ghost pats = self.pats();
        let ghost filler = self.spec_filler();
        let mut cur: String = text.to_owned();
        let mut changed: bool = false;
        let mut i: usize = 0;
        proof {
            assert(pats.subrange(0, pats.len() as int) =~= pats);
        }
        while i < self.matchers.len()
            invariant
                i <= self.matchers@.len(),
                pats == self.pats(),
                filler == self.spec_filler(),
                pats.len() == self.matchers@.len(),
                apply_rules(pats, filler, text@) == apply_rules(
                    pats.subrange(i as int, pats.len() as int),
                    filler,
                    cur@,
                ),
                any_rule_matches(pats, filler, text@) == (changed || any_rule_matches(
                    pats.subrange(i as int, pats.len() as int),
                    filler,
                    cur@,
                )),
            decreases self.matchers@.len() - i,
        {
            let ghost rest = pats.subrange(i as int, pats.len() as int);
            let ghost cur_pre = cur@;
            let m = &self.matchers[i];
            proof {
                assert(rest[0] == pats[i as int]);
                assert(pats[i as int] == m.pat());
            }
            match m.try_rewrite(self.filler.as_str(), cur.as_str()) {
                Some(s) => {
                    cur = s;
                    changed = true;
                },
                None => {},
            }
            proof {
                assert(rest.subrange(1, rest.len() as int) =~= pats.subrange(
                    i + 1,
                    pats.len() as int,
                ));
                assert(cur@ == apply_rule(m.pat(), filler, cur_pre));
            }
            i = i + 1;
        }
        proof {
            assert(pats.subrange(pats.len() as int, pats.len() as int) =~= Seq::<Seq<char>>::empty());
        }
        if changed {
            Some(cur)
        } else {
            None
        }
    }
}

} // verus!

