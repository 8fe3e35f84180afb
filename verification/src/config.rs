//! The required/ignored-service policy that the health evaluator applies.

use vstd::prelude::*;

verus! {

/// The ghost form of a policy: every name as a sequence of characters.
pub struct PolicyView {
    pub required: Seq<Seq<char>>,
    pub optional: Seq<Seq<char>>,
    pub ignore_exact: Seq<Seq<char>>,
    pub ignore_prefixes: Seq<Seq<char>>,
}

/// The characters of each string in a list.
pub open spec fn names_view(v: Seq<String>) -> Seq<Seq<char>> {
    v.map_values(|s: String| s@)
}

/// Which services must be running, and which names are exempt from that check.
#[derive(Debug, Clone)]
pub struct HealthConfig {
    /// Names that must report the running state.
    pub required_services: Vec<String>,
    /// Names tracked for information only; they never cause a failure.
    pub optional_services: Vec<String>,
    /// Required names equal to one of these are exempt from the check.
    pub ignore_exact: Vec<String>,
    /// Required names starting with one of these are exempt from the check.
    pub ignore_prefixes: Vec<String>,
}

impl View for HealthConfig {
    type V = PolicyView;

    open spec fn view(&self) -> PolicyView {
        PolicyView {
            required: names_view(self.required_services@),
            optional: names_view(self.optional_services@),
            ignore_exact: names_view(self.ignore_exact@),
            ignore_prefixes: names_view(self.ignore_prefixes@),
        }
    }
}

/// The names exempted by default: two one-shot/local sentinel services.
pub fn default_ignore_exact() -> (r: Vec<String>)
    ensures
        names_view(r@) =~= seq!["time-first-boot"@, "local"@],
{
    let mut v: Vec<String> = Vec::new();
    v.push("time-first-boot".to_owned());
    v.push("local".to_owned());
    proof {
        assert(names_view(v@)[0] == "time-first-boot"@);
        assert(names_view(v@)[1] == "local"@);
    }
    v
}

/// The prefixes exempted by default: the console/login getty families.
pub fn default_ignore_prefixes() -> (r: Vec<String>)
    ensures
        names_view(r@) =~= seq!["getty."@, "agetty."@],
{
    let mut v: Vec<String> = Vec::new();
    v.push("getty.".to_owned());
    v.push("agetty.".to_owned());
    proof {
        assert(names_view(v@)[0] == "getty."@);
        assert(names_view(v@)[1] == "agetty."@);
    }
    v
}

impl Default for HealthConfig {
    /// No required or optional names; the default exemptions stand.
    fn default() -> (r: Self)
        ensures
            r@.required =~= Seq::<Seq<char>>::empty(),
            r@.optional =~= Seq::<Seq<char>>::empty(),
            r@.ignore_exact =~= seq!["time-first-boot"@, "local"@],
            r@.ignore_prefixes =~= seq!["getty."@, "agetty."@],
    {
        HealthConfig {
            required_services: Vec::new(),
            optional_services: Vec::new(),
            ignore_exact: default_ignore_exact(),
            ignore_prefixes: default_ignore_prefixes(),
        }
    }
}

} // verus!
