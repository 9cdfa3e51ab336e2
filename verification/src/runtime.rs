use vstd::prelude::*;

use crate::text::{append_chars, chars_of, contains_chars, delink, delinked, has_substring};

verus! {

/// A daemon-reported record of one container: the names the daemon has
/// given it, and a human-readable status when the daemon reports one.
pub struct ContainerSummary {
    pub names: Vec<Vec<char>>,
    pub status: Option<Vec<char>>,
}

/// A daemon name matches the target when, after the daemon's leading
/// character is stripped, the target occurs in it as a substring.
pub open spec fn name_matches(name: Seq<char>, target: Seq<char>) -> bool {
    has_substring(delinked(name), target)
}

/// A container matches the target when any of its names matches.
pub open spec fn summary_matches(c: ContainerSummary, target: Seq<char>) -> bool {
    exists|k: int| 0 <= k < c.names@.len() && name_matches(c.names@[k]@, target)
}

/// The first container at or after position `i` that matches the target.
pub open spec fn first_match_from(
    cs: Seq<ContainerSummary>,
    target: Seq<char>,
    i: int,
) -> Option<ContainerSummary>
    decreases cs.len() - i,
{
    if i < 0 || i >= cs.len() {
        None
    } else if summary_matches(cs[i], target) {
        Some(cs[i])
    } else {
        first_match_from(cs, target, i + 1)
    }
}

/// The first container in daemon order that matches the target.
pub open spec fn first_match(cs: Seq<ContainerSummary>, target: Seq<char>) -> Option<
    ContainerSummary,
> {
    first_match_from(cs, target, 0)
}

proof fn lemma_first_match_from_none(cs: Seq<ContainerSummary>, target: Seq<char>, i: int)
    requires
        forall|k: int| 0 <= k < cs.len() ==> !summary_matches(cs[k], target),
    ensures
        first_match_from(cs, target, i) is None,
    decreases cs.len() - i,
{
    if 0 <= i < cs.len() {
        lemma_first_match_from_none(cs, target, i + 1);
    }
}

/// When no container matches the target, the lookup finds none.
pub proof fn lemma_first_match_none(cs: Seq<ContainerSummary>, target: Seq<char>)
    requires
        forall|k: int| 0 <= k < cs.len() ==> !summary_matches(cs[k], target),
    ensures
        first_match(cs, target) is None,
{
    lemma_first_match_from_none(cs, target, 0);
}

proof fn lemma_first_match_from_hit(
    cs: Seq<ContainerSummary>,
    target: Seq<char>,
    i: int,
    k: int,
)
    requires
        0 <= i <= k < cs.len(),
        summary_matches(cs[k], target),
        forall|j: int| 0 <= j < k ==> !summary_matches(cs[j], target),
    ensures
        first_match_from(cs, target, i) == Some(cs[k]),
    decreases k - i,
{
    if i < k {
        lemma_first_match_from_hit(cs, target, i + 1, k);
    }
}

/// The lookup finds the earliest matching container, in daemon order.
pub proof fn lemma_first_match_hit(cs: Seq<ContainerSummary>, target: Seq<char>, k: int)
    requires
        0 <= k < cs.len(),
        summary_matches(cs[k], target),
        forall|j: int| 0 <= j < k ==> !summary_matches(cs[j], target),
    ensures
        first_match(cs, target) == Some(cs[k]),
{
    lemma_first_match_from_hit(cs, target, 0, k);
}

/// The text reported when no container matches the target.
pub open spec fn not_found_message(target: Seq<char>) -> Seq<char> {
    "Container "@ + target + " not found"@
}

/// The text reported when the matched container carries no status.
pub open spec fn no_status_message(target: Seq<char>) -> Seq<char> {
    "Container "@ + target + " has no status"@
}

/// The text reported when the daemon rejects a start request; the
/// restart operation reports the same sentence.
pub open spec fn start_failed_message(target: Seq<char>) -> Seq<char> {
    "Container "@ + target + " failed to start"@
}

/// The text reported when the daemon rejects a stop request.
pub open spec fn stop_failed_message(target: Seq<char>) -> Seq<char> {
    "Container "@ + target + " failed to stop"@
}

fn container_message(target: &Vec<char>, suffix: &str) -> (r: Vec<char>)
    ensures
        r@ == "Container "@ + target@ + suffix@,
{
    let mut r = chars_of("Container ");
    append_chars(&mut r, target);
    let suf = chars_of(suffix);
    append_chars(&mut r, &suf);
    r
}

fn summary_match(c: &ContainerSummary, target: &Vec<char>) -> (r: bool)
    ensures
        r == summary_matches(*c, target@),
{
    let mut k: usize = 0;
    while k < c.names.len()
        invariant
            k <= c.names@.len(),
            forall|j: int| 0 <= j < k ==> !name_matches(c.names@[j]@, target@),
        decreases c.names@.len() - k,
    {
        let d = delink(&c.names[k]);
        if contains_chars(&d, target) {
            proof {
                assert(summary_matches(*c, target@)) by {
                    assert(name_matches(c.names@[k as int]@, target@));
                }
            }
            return true;
        }
        k += 1;
    }
    false
}

/// The health lookup's outcome over the daemon's container list: the
/// status of the first matching container, or the failure text.
pub open spec fn healthcheck_spec(cs: Seq<ContainerSummary>, target: Seq<char>) -> Result<
    Seq<char>,
    Seq<char>,
> {
    match first_match(cs, target) {
        None => Err(not_found_message(target)),
        Some(c) => match c.status {
            Some(s) => Ok(s@),
            None => Err(no_status_message(target)),
        },
    }
}

/// Looks the target up among the daemon's containers, taking the first
/// container, in daemon order, one of whose delinked names contains the
/// target as a substring, and reports that container's status.
pub fn healthcheck(containers: &Vec<ContainerSummary>, target: &Vec<char>) -> (r: Result<
    Vec<char>,
    Vec<char>,
>)
    ensures
        match r {
            Ok(s) => healthcheck_spec(containers@, target@) == Ok::<Seq<char>, Seq<char>>(s@),
            Err(e) => healthcheck_spec(containers@, target@) == Err::<Seq<char>, Seq<char>>(e@),
        },
{
    let mut i: usize = 0;
    while i < containers.len()
        invariant
            i <= containers@.len(),
            first_match(containers@, target@) == first_match_from(containers@, target@, i as int),
        decreases containers@.len() - i,
    {
        if summary_match(&containers[i], target) {
            match &containers[i].status {
                Some(s) => {
                    let mut out: Vec<char> = Vec::new();
                    append_chars(&mut out, s);
                    proof {
                        assert(out@ =~= s@);
                    }
                    return Ok(out);
                },
                None => {
                    return Err(container_message(target, " has no status"));
                },
            }
        }
        i += 1;
    }
    Err(container_message(target, " not found"))
}

/// Maps the daemon's answer to a start request onto the caller's
/// result; the daemon's error detail is not passed along.
pub fn start_result(target: &Vec<char>, accepted: bool) -> (r: Result<(), Vec<char>>)
    ensures
        match r {
            Ok(_) => accepted,
            Err(e) => !accepted && e@ == start_failed_message(target@),
        },
{
    if accepted {
        Ok(())
    } else {
        Err(container_message(target, " failed to start"))
    }
}

/// The stop operation's report for a daemon verdict.
pub fn stop_result(target: &Vec<char>, accepted: bool) -> (r: Result<(), Vec<char>>)
    ensures
        match r {
            Ok(_) => accepted,
            Err(e) => !accepted && e@ == stop_failed_message(target@),
        },
{
    if accepted {
        Ok(())
    } else {
        Err(container_message(target, " failed to stop"))
    }
}

/// The restart operation's report for a daemon verdict; its failure text
/// reuses the start wording.
pub fn restart_result(target: &Vec<char>, accepted: bool) -> (r: Result<(), Vec<char>>)
    ensures
        match r {
            Ok(_) => accepted,
            Err(e) => !accepted && e@ == start_failed_message(target@),
        },
{
    if accepted {
        Ok(())
    } else {
        Err(container_message(target, " failed to start"))
    }
}

} // verus!
