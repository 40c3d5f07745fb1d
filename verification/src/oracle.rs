//! Questions about the machine, asked through a function the caller supplies.
//!
//! What the machine answers is not known here, so a contract speaks of the answers that were given:
//! which question was asked first, and what followed from each answer.
use vstd::prelude::*;

verus! {

/// Whether the oracle `f` may answer `b` about `path`.
pub open spec fn may_say<F: Fn(&str) -> bool>(f: F, path: Seq<char>, b: bool) -> bool {
    exists|p: &str| #[trigger] call_ensures(f, (p,), b) && p@ == path
}

/// Whether `k` is the first path about which the oracle answered yes; it answered no about every one
/// before.
pub open spec fn first_yes<F: Fn(&str) -> bool>(f: F, paths: Seq<Seq<char>>, k: int) -> bool {
    &&& 0 <= k < paths.len()
    &&& may_say(f, paths[k], true)
    &&& forall|j: int| 0 <= j < k ==> #[trigger] may_say(f, paths[j], false)
}

/// Whether the oracle answered no about every path.
pub open spec fn all_no<F: Fn(&str) -> bool>(f: F, paths: Seq<Seq<char>>) -> bool {
    forall|j: int| 0 <= j < paths.len() ==> #[trigger] may_say(f, paths[j], false)
}

/// Whether the oracle may be asked about each path in turn: about one only where it answered no about
/// every one before, and about nothing else.
pub open spec fn askable<F: Fn(&str) -> bool>(f: F, paths: Seq<Seq<char>>) -> bool {
    forall|k: int, p: &str|
        #![trigger paths[k], call_requires(f, (p,))]
        0 <= k < paths.len() && p@ == paths[k] && all_no(f, paths.take(k)) ==> call_requires(f, (p,))
}

/// **Law: the first yes is the first.** The oracle did answer yes about that path, and no about each one
/// before it; where it answered no about all, it did so about each.
pub proof fn law_the_first_yes_is_the_first<F: Fn(&str) -> bool>(f: F, paths: Seq<Seq<char>>, k: int, j: int)
    ensures
        first_yes(f, paths, k) ==> 0 <= k < paths.len() && exists|p: &str|
            #[trigger] call_ensures(f, (p,), true) && p@ == paths[k],
        first_yes(f, paths, k) && 0 <= j < k ==> exists|p: &str|
            #[trigger] call_ensures(f, (p,), false) && p@ == paths[j],
        all_no(f, paths) && 0 <= j < paths.len() ==> exists|p: &str|
            #[trigger] call_ensures(f, (p,), false) && p@ == paths[j],
{
    if first_yes(f, paths, k) && 0 <= j < k {
        assert(may_say(f, paths[j], false));
    }
    if all_no(f, paths) && 0 <= j < paths.len() {
        assert(may_say(f, paths[j], false));
    }
}

} // verus!
