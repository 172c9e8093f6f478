use vstd::prelude::*;

verus! {

#[verifier::external_type_specification]
#[verifier::external_body]
pub struct ExRegex(regex::Regex);

/// Whether `regex::Regex::new` accepts the pattern under its default limits.
pub uninterp spec fn regex_valid(pattern: Seq<char>) -> bool;

/// Whether the pattern matches somewhere in the text, as
/// `regex::Regex::is_match` decides it.
pub uninterp spec fn regex_match(pattern: Seq<char>, text: Seq<char>) -> bool;

/// A compiled pattern together with its source text. The two fields are kept
/// in step: the only constructor compiles `re` from `src`, and nothing
/// reassigns either. The contracts of `Pattern::new` and `Pattern::is_match`
/// rest on that discipline.
pub struct Pattern {
    re: regex::Regex,
    src: String,
}

impl View for Pattern {
    type V = Seq<char>;

    /// A pattern's abstract value is its source text.
    closed spec fn view(&self) -> Seq<char> {
        self.src@
    }
}

impl Pattern {
    /// Relies on `regex::Regex::new`: it compiles the pattern, and succeeds
    /// if and only if the pattern is acceptable under the default limits,
    /// which is what `regex_valid` names.
    #[verifier::external_body]
    pub fn new(src: String) -> (r: Option<Pattern>)
        ensures
            match r {
                Some(p) => p@ == src@ && regex_valid(src@),
                None => !regex_valid(src@),
            },
    {
        match regex::Regex::new(&src) {
            Ok(re) => Some(Pattern { re, src }),
            Err(_) => None,
        }
    }

    /// Relies on `regex::Regex::is_match`: whether the pattern matches
    /// anywhere in `text`; the result depends on the pattern and the text
    /// alone, which is what `regex_match` names.
    #[verifier::external_body]
    pub fn is_match(&self, text: &str) -> (r: bool)
        ensures
            r == regex_match(self@, text@),
    {
        self.re.is_match(text)
    }
}

} // verus!
