//! Inferring a host's deployment environment from its name, and grouping a
//! list of hosts by environment.
use vstd::prelude::*;

verus! {

broadcast use vstd::seq_lib::group_seq_properties;

/// `pat` occurs in `s` as a contiguous run of characters.
pub open spec fn is_substring(pat: Seq<char>, s: Seq<char>) -> bool {
    exists|i: int|
        0 <= i && i + pat.len() <= s.len() && #[trigger] s.subrange(i, i + pat.len()) == pat
}

/// Relies on `str::contains`: true exactly when `pat` is a sub-slice of `s`.
#[verifier::external_body]
fn str_contains(s: &str, pat: &str) -> (r: bool)
    ensures
        r == is_substring(pat@, s@),
{
    s.contains(pat)
}

/// The text of each catalog entry.
pub open spec fn catalog_view(catalog: Seq<&str>) -> Seq<Seq<char>> {
    catalog.map_values(|e: &str| e@)
}

/// The text of each string.
pub open spec fn strings_view(hosts: Seq<String>) -> Seq<Seq<char>> {
    hosts.map_values(|h: String| h@)
}

pub open spec fn opt_view(r: Option<&str>) -> Option<Seq<char>> {
    match r {
        Some(e) => Some(e@),
        None => None,
    }
}

/// The first catalog entry that occurs in `host`, or nothing.
pub open spec fn classify_spec(host: Seq<char>, catalog: Seq<Seq<char>>) -> Option<Seq<char>>
    decreases catalog.len(),
{
    if catalog.len() == 0 {
        None
    } else if is_substring(catalog[0], host) {
        Some(catalog[0])
    } else {
        classify_spec(host, catalog.drop_first())
    }
}

/// The environments recognised by the report, in order of precedence.
pub open spec fn environment_catalog() -> Seq<Seq<char>> {
    seq!["prod"@, "demo"@, "staging"@, "dev"@, "end2end"@, "presales"@]
}

/// The fixed catalog of environment names, earliest entry first.
pub fn environments() -> (r: Vec<&'static str>)
    ensures
        catalog_view(r@) == environment_catalog(),
{
    let r = vec!["prod", "demo", "staging", "dev", "end2end", "presales"];
    assert(catalog_view(r@) =~= environment_catalog());
    r
}

/// Returns the first entry of `catalog` that occurs in `hostname`, if any.
pub fn classify<'a>(hostname: &str, catalog: &[&'a str]) -> (r: Option<&'a str>)
    ensures
        opt_view(r) == classify_spec(hostname@, catalog_view(catalog@)),
{
    let ghost cv = catalog_view(catalog@);
    assert(cv.subrange(0, cv.len() as int) =~= cv);
    let mut i: usize = 0;
    while i < catalog.len()
        invariant
            0 <= i <= catalog@.len(),
            cv == catalog_view(catalog@),
            classify_spec(hostname@, cv) == classify_spec(hostname@, cv.subrange(i as int, cv.len() as int)),
        decreases catalog@.len() - i,
    {
        let entry = catalog[i];
        assert(cv.subrange(i as int, cv.len() as int).drop_first()
            =~= cv.subrange(i + 1, cv.len() as int));
        if str_contains(hostname, entry) {
            return Some(entry);
        }
        i += 1;
    }
    None
}

/// Classifies `hostname` against the fixed environment catalog.
pub fn hostname_to_env(hostname: &str) -> (r: Option<&'static str>)
    ensures
        opt_view(r) == classify_spec(hostname@, environment_catalog()),
{
    let catalog = environments();
    classify(hostname, catalog.as_slice())
}

/// Characterises `classify_spec`: the entry returned occurs in the host name
/// and no earlier entry does; when nothing is returned, no entry occurs.
pub proof fn lemma_classify_first_match(host: Seq<char>, catalog: Seq<Seq<char>>)
    ensures
        match classify_spec(host, catalog) {
            Some(e) => exists|i: int|
                0 <= i < catalog.len() && catalog[i] == e && is_substring(catalog[i], host)
                    && forall|j: int| 0 <= j < i ==> !is_substring(#[trigger] catalog[j], host),
            None => forall|j: int| 0 <= j < catalog.len() ==> !is_substring(#[trigger] catalog[j], host),
        },
    decreases catalog.len(),
{
    if catalog.len() > 0 {
        let rest = catalog.drop_first();
        lemma_classify_first_match(host, rest);
        if !is_substring(catalog[0], host) {
            match classify_spec(host, rest) {
                Some(e) => {
                    let i = choose|i: int|
                        0 <= i < rest.len() && rest[i] == e && is_substring(rest[i], host)
                            && forall|j: int| 0 <= j < i ==> !is_substring(#[trigger] rest[j], host);
                    assert forall|j: int| 0 <= j < i + 1 implies !is_substring(#[trigger] catalog[j], host) by {
                        if j > 0 {
                            assert(catalog[j] == rest[j - 1]);
                        }
                    }
                    assert(catalog[i + 1] == rest[i]);
                },
                None => {
                    assert forall|j: int| 0 <= j < catalog.len() implies !is_substring(#[trigger] catalog[j], host) by {
                        if j > 0 {
                            assert(catalog[j] == rest[j - 1]);
                        }
                    }
                },
            }
        }
    }
}

} // verus!
