use vstd::prelude::*;

verus! {

/// Whether `s` is a semantic version that semver accepts.
pub uninterp spec fn is_semver(s: Seq<char>) -> bool;

/// Whether the version written `a` precedes or equals the version written `b`, in semver's order.
pub uninterp spec fn semver_le(a: Seq<char>, b: Seq<char>) -> bool;

/// Relies on semver's `Version::parse`: whether the text is a well-formed semantic version.
#[verifier::external_body]
fn parses_as_semver(s: &str) -> (r: bool)
    ensures
        r == is_semver(s@),
{
    semver::Version::parse(s).is_ok()
}

/// Relies on semver's order of `Version` (`<=`), on the versions that `Version::parse` reads
/// from the two texts. The order is the total order of a derived `Ord`: when `a` precedes or
/// equals `b`, it precedes or equals every version that `b` does, and otherwise `b` precedes it.
#[verifier::external_body]
fn semver_text_le(a: &str, b: &str) -> (r: bool)
    requires
        is_semver(a@),
        is_semver(b@),
    ensures
        r == semver_le(a@, b@),
        r ==> forall|c: Seq<char>| is_semver(c) && semver_le(b@, c) ==> semver_le(a@, c),
        !r ==> semver_le(b@, a@),
{
    match (semver::Version::parse(a), semver::Version::parse(b)) {
        (Ok(x), Ok(y)) => x <= y,
        _ => false,
    }
}

/// The version of the compiler that produced a class, a semantic version, held as its text.
#[derive(Debug, PartialEq, Eq)]
pub struct CompilerVersion {
    text: String,
}

impl View for CompilerVersion {
    type V = Seq<char>;

    closed spec fn view(&self) -> Seq<char> {
        self.text@
    }
}

impl Clone for CompilerVersion {
    fn clone(&self) -> (r: CompilerVersion)
        ensures
            r@ == self@,
    {
        proof {
            use_type_invariant(self);
        }
        CompilerVersion { text: self.text.clone() }
    }
}

impl CompilerVersion {
    #[verifier::type_invariant]
    closed spec fn inv(self) -> bool {
        is_semver(self.text@)
    }

    /// The version written `s`; `None` when `s` is not a semantic version.
    pub fn parse(s: &str) -> (r: Option<CompilerVersion>)
        ensures
            r is Some <==> is_semver(s@),
            r matches Some(v) ==> v@ == s@,
    {
        if parses_as_semver(s) {
            let text = s.to_string();
            Some(CompilerVersion { text })
        } else {
            None
        }
    }

    /// The version's text.
    pub fn as_str(&self) -> (r: &str)
        ensures
            r@ == self@,
    {
        self.text.as_str()
    }

    /// Whether this version precedes or equals `other`.
    pub fn le(&self, other: &CompilerVersion) -> (r: bool)
        ensures
            r == semver_le(self@, other@),
            r ==> forall|c: Seq<char>| is_semver(c) && semver_le(other@, c) ==> semver_le(self@, c),
            !r ==> semver_le(other@, self@),
    {
        proof {
            use_type_invariant(self);
            use_type_invariant(other);
        }
        semver_text_le(self.text.as_str(), other.text.as_str())
    }
}

} // verus!
