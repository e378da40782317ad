//! What the operations are for.
//!
//! The contracts of the other modules say what each function computes. The laws
//! here say what that has to come to: how a result relates to what was asked, what
//! a second call makes of the first, and what is left alone.

use vstd::prelude::*;

use crate::json::{lemma_member_of_members_of, member, members_of, object_of};
use crate::value::Json;

pub mod builtins;
pub mod catalogue;
pub mod dispatch;
pub mod documents;
pub mod execs;
pub mod hooks;
pub mod host;
pub mod json_texts;
pub mod masks;
pub mod outbound;
pub mod runs;
pub mod scripts;
pub mod seeds;
pub mod sign_in;
pub mod streams;
pub mod templates;
pub mod texts;
pub mod vault;
pub mod widgets;

verus! {

/// Each of some pairs with different keys is a member of the object that they
/// make.
pub proof fn lemma_pair_is_member(pairs: Seq<(Seq<char>, Json)>, i: int)
    requires
        0 <= i < pairs.len(),
        forall|j: int| i < j < pairs.len() ==> (#[trigger] pairs[j]).0 != pairs[i].0,
    ensures
        object_of(pairs).get(pairs[i].0) == Some(pairs[i].1),
    decreases pairs.len(),
{
    lemma_member_of_members_of(pairs, pairs[i].0);
    if i < pairs.len() - 1 {
        assert(pairs.last() == pairs[pairs.len() - 1]);
        let shorter = pairs.drop_last();
        lemma_pair_is_member(shorter, i);
        assert(member(members_of(shorter), pairs[i].0) == Some(pairs[i].1));
    }
}

/// A key that none of some pairs has is no member of the object that they make.
pub proof fn lemma_no_pair_no_member(pairs: Seq<(Seq<char>, Json)>, key: Seq<char>)
    requires
        forall|j: int| 0 <= j < pairs.len() ==> (#[trigger] pairs[j]).0 != key,
    ensures
        object_of(pairs).get(key) is None,
    decreases pairs.len(),
{
    lemma_member_of_members_of(pairs, key);
    if pairs.len() > 0 {
        assert(pairs.last() == pairs[pairs.len() - 1]);
        lemma_no_pair_no_member(pairs.drop_last(), key);
    }
}

} // verus!
