//! The shared vocabulary of the pipeline: one discovered package record.

use vstd::prelude::*;

use crate::text::trim_of;
use crate::text::trim_str;

verus! {

/// Which catalog a candidate came from. `Unknown` is used only for a direct
/// install request that carries no prior search context.
#[derive(Clone, Copy, Debug, PartialEq, Eq, Structural)]
pub enum Source {
    Official,
    Aur,
    Unknown,
}

/// One discovered package. Candidates are value objects: they have no
/// identity beyond `(name, source)` and are never mutated after creation.
#[derive(Debug)]
pub struct Candidate {
    pub name: String,
    pub version: String,
    pub description: String,
    pub source: Source,
}

/// A candidate is well formed when its name is non-empty; the constructors
/// below establish this, on a trimmed name, before a record enters the
/// pipeline.
pub open spec fn candidate_wf(c: Candidate) -> bool {
    c.name@.len() > 0
}

/// The name a record gets when the catalog supplied none, or one that is
/// empty once trimmed.
pub open spec fn fallback_name() -> Seq<char> {
    "unknown"@
}

/// The description a record gets when the catalog omitted it.
pub open spec fn fallback_description() -> Seq<char> {
    "No description available"@
}

/// What the constructors make of a catalog-supplied name: the trimmed
/// name when that leaves anything, the fixed fallback otherwise.
pub open spec fn name_or_fallback(name: Option<String>) -> Seq<char> {
    match name {
        Some(n) => if trim_of(n@).len() > 0 {
            trim_of(n@)
        } else {
            fallback_name()
        },
        None => fallback_name(),
    }
}

/// What either constructor makes of an optional description field.
pub open spec fn description_or_fallback(description: Option<String>) -> Seq<char> {
    match description {
        Some(d) => d@,
        None => fallback_description(),
    }
}

/// The view of an optional field that defaults to the empty string.
pub open spec fn field_or_empty(field: Option<String>) -> Seq<char> {
    match field {
        Some(f) => f@,
        None => Seq::<char>::empty(),
    }
}

impl Candidate {
    /// Builds a candidate from one record of the official catalog's search
    /// answer: the name is trimmed, and becomes `unknown` when missing or
    /// empty once trimmed; the version is the package version and release
    /// joined by a hyphen (each empty when missing); a missing description
    /// gets the fixed placeholder.
    pub fn from_official_record(
        name: Option<String>,
        pkgver: Option<String>,
        pkgrel: Option<String>,
        description: Option<String>,
    ) -> (c: Candidate)
        ensures
            c.name@ == name_or_fallback(name),
            c.version@ == field_or_empty(pkgver) + "-"@ + field_or_empty(pkgrel),
            c.description@ == description_or_fallback(description),
            c.source == Source::Official,
            candidate_wf(c),
    {
        proof {
            reveal_strlit("unknown");
        }
        let name = match name {
            Some(n) => {
                let t = trim_str(n.as_str());
                if t.unicode_len() > 0 {
                    String::from_str(t)
                } else {
                    String::from_str("unknown")
                }
            },
            None => String::from_str("unknown"),
        };
        let mut version = match pkgver {
            Some(v) => v,
            None => String::new(),
        };
        version.append("-");
        match pkgrel {
            Some(r) => version.append(r.as_str()),
            None => (),
        }
        let description = match description {
            Some(d) => d,
            None => String::from_str("No description available"),
        };
        Candidate { name, version, description, source: Source::Official }
    }

    /// Builds a candidate from one record of the community catalog's search
    /// answer: the name is trimmed, and becomes `unknown` when empty once
    /// trimmed; a missing description gets the fixed placeholder.
    pub fn from_aur_record(name: String, version: String, description: Option<String>) -> (c:
        Candidate)
        ensures
            c.name@ == name_or_fallback(Some(name)),
            c.version == version,
            c.description@ == description_or_fallback(description),
            c.source == Source::Aur,
            candidate_wf(c),
    {
        proof {
            reveal_strlit("unknown");
        }
        let name = {
            let t = trim_str(name.as_str());
            if t.unicode_len() > 0 {
                String::from_str(t)
            } else {
                String::from_str("unknown")
            }
        };
        let description = match description {
            Some(d) => d,
            None => String::from_str("No description available"),
        };
        Candidate { name, version, description, source: Source::Aur }
    }
}

/// Some candidate in `s` carries the name `n`.
pub open spec fn name_occurs(s: Seq<Candidate>, n: Seq<char>) -> bool {
    exists|j: int| 0 <= j < s.len() && (#[trigger] s[j].name@) == n
}

/// One source's list with repeated emissions of a name collapsed to the
/// first occurrence; the order of first occurrences is kept.
pub open spec fn collapse_spec(s: Seq<Candidate>) -> Seq<Candidate>
    decreases s.len(),
{
    if s.len() == 0 {
        Seq::empty()
    } else if name_occurs(s.drop_last(), s.last().name@) {
        collapse_spec(s.drop_last())
    } else {
        collapse_spec(s.drop_last()).push(s.last())
    }
}

fn name_present(v: &Vec<Candidate>, name: &String) -> (b: bool)
    ensures
        b == name_occurs(v@, name@),
{
    let mut k: usize = 0;
    while k < v.len()
        invariant
            k <= v@.len(),
            forall|j: int| 0 <= j < k ==> (#[trigger] v@[j].name@) != name@,
        decreases v@.len() - k,
    {
        if v[k].name == *name {
            return true;
        }
        k += 1;
    }
    false
}

/// Collapses repeated emissions of one name within a single source's list
/// to the first occurrence. Candidates of different sources are never
/// collapsed against each other: callers apply this per source, before
/// merging.
pub fn collapse_within_source(list: Vec<Candidate>) -> (r: Vec<Candidate>)
    ensures
        r@ == collapse_spec(list@),
{
    let ghost all = list@;
    let mut rest = list;
    let mut out: Vec<Candidate> = Vec::new();
    while rest.len() > 0
        invariant
            all == all.take(all.len() - rest@.len()) + rest@,
            out@ == collapse_spec(all.take(all.len() - rest@.len())),
            forall|n: Seq<char>|
                #[trigger] name_occurs(out@, n) == name_occurs(
                    all.take(all.len() - rest@.len()),
                    n,
                ),
        decreases rest@.len(),
    {
        let ghost done = all.len() - rest@.len();
        let c = rest.remove(0);
        proof {
            assert(all.take(done + 1).drop_last() =~= all.take(done as int));
            assert(c == all[done as int]);
        }
        let dup = name_present(&out, &c.name);
        let ghost out_before = out@;
        if !dup {
            out.push(c);
        }
        proof {
            let prev = all.take(done as int);
            let now = all.take(done + 1);
            assert forall|n: Seq<char>| #[trigger] name_occurs(out@, n) == name_occurs(
                now,
                n,
            ) by {
                if name_occurs(out@, n) {
                    let j = choose|j: int| 0 <= j < out@.len() && (#[trigger] out@[j].name@) == n;
                    if j < out_before.len() {
                        assert(out_before[j].name@ == n);
                        assert(name_occurs(out_before, n));
                        assert(name_occurs(prev, n));
                        let i = choose|i: int|
                            0 <= i < prev.len() && (#[trigger] prev[i].name@) == n;
                        assert(now[i].name@ == n);
                    } else {
                        assert(out@[j] == c);
                        assert(now[done as int].name@ == n);
                    }
                    assert(name_occurs(now, n));
                }
                if name_occurs(now, n) {
                    let j = choose|j: int| 0 <= j < now.len() && (#[trigger] now[j].name@) == n;
                    if j < done {
                        assert(prev[j].name@ == n);
                        assert(name_occurs(prev, n));
                        assert(name_occurs(out_before, n));
                        let i = choose|i: int|
                            0 <= i < out_before.len() && (#[trigger] out_before[i].name@) == n;
                        assert(out@[i].name@ == n);
                    } else {
                        assert(now[j] == c);
                        if dup {
                            assert(name_occurs(out_before, n));
                            let i = choose|i: int|
                                0 <= i < out_before.len() && (#[trigger] out_before[i].name@)
                                    == n;
                            assert(out@[i].name@ == n);
                        } else {
                            assert(out@[out@.len() - 1].name@ == n);
                        }
                    }
                    assert(name_occurs(out@, n));
                }
            }
        }
    }
    proof {
        assert(all.take(all.len() as int) =~= all);
    }
    out
}

} // verus!
