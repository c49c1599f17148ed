//! Holding playback back while an application of a block list is running.
use vstd::prelude::*;
use crate::text::{contains, contains_spec, lowercase, lower_of};

verus! {

/// The outcome of checking the running processes against a block list.
#[derive(Debug, Clone)]
pub enum SuppressionResult {
    /// No blocking application is running: play.
    Clear,
    /// A blocking application is running.
    Blocked { app_name: String },
}

/// A process name is blocked by an entry when, both in lower case, the entry
/// occurs in the name.
pub open spec fn blocked_by(name: Seq<char>, entry: Seq<char>) -> bool {
    contains_spec(lower_of(name), lower_of(entry))
}

pub open spec fn is_blocked(name: Seq<char>, blocklist: Seq<String>) -> bool {
    exists|k: int| 0 <= k < blocklist.len() && blocked_by(name, #[trigger] blocklist[k]@)
}

/// Check process names, in the order given, against a block list: the first
/// name that some entry blocks is reported; `Clear` where none is.
pub fn check_names(names: &Vec<String>, blocklist: &Vec<String>) -> (r: SuppressionResult)
    ensures
        match r {
            SuppressionResult::Clear => forall|i: int|
                0 <= i < names@.len() ==> !is_blocked(#[trigger] names@[i]@, blocklist@),
            SuppressionResult::Blocked { app_name } => exists|i: int|
                0 <= i < names@.len() && is_blocked(#[trigger] names@[i]@, blocklist@)
                    && app_name@ == names@[i]@ && forall|j: int|
                    0 <= j < i ==> !is_blocked(#[trigger] names@[j]@, blocklist@),
        },
{
    let n = names.len();
    let mut i: usize = 0;
    while i < n
        invariant
            0 <= i <= n,
            n == names@.len(),
            forall|j: int| 0 <= j < i ==> !is_blocked(#[trigger] names@[j]@, blocklist@),
        decreases n - i,
    {
        let name = lowercase(names[i].as_str());
        let m = blocklist.len();
        let mut k: usize = 0;
        while k < m
            invariant
                0 <= k <= m,
                m == blocklist@.len(),
                0 <= i < n,
                n == names@.len(),
                forall|j: int| 0 <= j < i ==> !is_blocked(#[trigger] names@[j]@, blocklist@),
                name@ == lower_of(names@[i as int]@),
                forall|q: int| 0 <= q < k ==> !blocked_by(names@[i as int]@, #[trigger] blocklist@[q]@),
            decreases m - k,
        {
            let entry = lowercase(blocklist[k].as_str());
            if contains(name.as_str(), entry.as_str()) {
                assert(is_blocked(names@[i as int]@, blocklist@));
                return SuppressionResult::Blocked { app_name: names[i].clone() };
            }
            k = k + 1;
        }
        assert(!is_blocked(names@[i as int]@, blocklist@));
        i = i + 1;
    }
    SuppressionResult::Clear
}

} // verus!
