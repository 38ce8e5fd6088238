//! Pattern triggers: compiled regular expressions that arm a space.
//!
//! The regex engine itself is outside code; its two entry points used here
//! are trusted with named results, and everything downstream is verified
//! against those names. `Trigger`'s fields are private, so every value is
//! built by `Trigger::new` and its compiled pattern always corresponds to
//! its pattern text.

use vstd::prelude::*;

verus! {

#[verifier::external_type_specification]
#[verifier::external_body]
pub struct ExRegex(regex::Regex);

/// Whether a pattern is valid regular-expression syntax, that is, whether
/// `regex::Regex::new` accepts it. A function of the pattern text alone.
pub uninterp spec fn regex_ok(pattern: Seq<char>) -> bool;

/// Whether the regular expression `pattern` finds a match anywhere inside
/// `text`. A function of the pattern text and the searched text alone.
pub uninterp spec fn regex_match(pattern: Seq<char>, text: Seq<char>) -> bool;

/// A compiled pattern trigger. Its view is the pattern text it was
/// compiled from.
pub struct Trigger {
    re: regex::Regex,
    pattern: String,
}

impl View for Trigger {
    type V = Seq<char>;

    closed spec fn view(&self) -> Seq<char> {
        self.pattern@
    }
}

impl Trigger {
    /// Compile a pattern into a trigger.
    ///
    /// Relies on `regex::Regex::new`: it returns `Ok` exactly on valid
    /// pattern syntax, and the compiled value depends on the pattern text
    /// alone.
    #[verifier::external_body]
    pub fn new(pattern: &str) -> (r: Option<Trigger>)
        ensures
            r is Some <==> regex_ok(pattern@),
            r matches Some(t) ==> t@ == pattern@,
    {
        match regex::Regex::new(pattern) {
            Ok(re) => Some(Trigger { re, pattern: pattern.to_owned() }),
            Err(_) => None,
        }
    }

    /// Whether this trigger's pattern matches anywhere in `text`.
    ///
    /// Relies on `regex::Regex::is_match`: the result is a function of the
    /// compiled pattern and the searched text alone. The compiled field
    /// always stems from `self.pattern`, `Trigger::new` being the only
    /// constructor.
    #[verifier::external_body]
    pub fn is_match(&self, text: &str) -> (r: bool)
        ensures
            r == regex_match(self@, text@),
    {
        self.re.is_match(text)
    }

    /// The pattern text this trigger was compiled from.
    pub fn pattern_str(&self) -> (r: &str)
        ensures
            r@ == self@,
    {
        self.pattern.as_str()
    }
}

} // verus!
