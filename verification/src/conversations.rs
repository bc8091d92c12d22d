//! Grouping messages by conversation and ordering a conversation's messages in time.
use vstd::prelude::*;
use vstd::hash_map::StringHashMap;
use vstd::multiset::Multiset;
use vstd::relations::{sorted_by, total_ordering};
use crate::types::ConversationMessage;

verus! {

/// The distinct conversations of the first `n` messages, in order of first appearance.
pub open spec fn conv_order(msgs: Seq<ConversationMessage>, n: int) -> Seq<Seq<char>>
    decreases n,
{
    if n <= 0 {
        Seq::empty()
    } else {
        let prev = conv_order(msgs, n - 1);
        let c = msgs[n - 1].conversation_hash@;
        if prev.contains(c) { prev } else { prev.push(c) }
    }
}

/// The indices of the first `n` messages that belong to conversation `c`, ascending.
pub open spec fn members(msgs: Seq<ConversationMessage>, c: Seq<char>, n: int) -> Seq<usize>
    decreases n,
{
    if n <= 0 {
        Seq::empty()
    } else if msgs[n - 1].conversation_hash@ == c {
        members(msgs, c, n - 1).push((n - 1) as usize)
    } else {
        members(msgs, c, n - 1)
    }
}

pub proof fn lemma_conv_order_props(msgs: Seq<ConversationMessage>, n: int)
    requires
        0 <= n <= msgs.len(),
    ensures
        conv_order(msgs, n).no_duplicates(),
        forall|c: Seq<char>| conv_order(msgs, n).contains(c) <==> exists|i: int| 0 <= i < n && msgs[i].conversation_hash@ == c,
    decreases n,
{
    if n > 0 {
        lemma_conv_order_props(msgs, n - 1);
        let prev = conv_order(msgs, n - 1);
        let c = msgs[n - 1].conversation_hash@;
        if !prev.contains(c) {
            let cur = prev.push(c);
            assert forall|a: int, b: int| 0 <= a < b < cur.len() implies cur[a] != cur[b] by {
                if b == cur.len() - 1 {
                    assert(prev.contains(prev[a]));
                }
            }
            assert forall|x: Seq<char>| cur.contains(x) implies exists|i: int| 0 <= i < n && msgs[i].conversation_hash@ == x by {
                let k = choose|k: int| 0 <= k < cur.len() && cur[k] == x;
                if k < prev.len() {
                    assert(prev.contains(x));
                }
            }
            assert forall|x: Seq<char>| (exists|i: int| 0 <= i < n && msgs[i].conversation_hash@ == x) implies cur.contains(x) by {
                let i = choose|i: int| 0 <= i < n && msgs[i].conversation_hash@ == x;
                if i < n - 1 {
                    assert(prev.contains(x));
                    let k = choose|k: int| 0 <= k < prev.len() && prev[k] == x;
                    assert(cur[k] == x);
                } else {
                    assert(cur[cur.len() - 1] == x);
                }
            }
        }
    }
}

pub proof fn lemma_members_props(msgs: Seq<ConversationMessage>, c: Seq<char>, n: int)
    requires
        0 <= n <= msgs.len(),
        msgs.len() <= usize::MAX,
    ensures
        forall|k: int| 0 <= k < members(msgs, c, n).len() ==> (#[trigger] members(msgs, c, n)[k]) < n,
        forall|k: int| 0 <= k < members(msgs, c, n).len() ==> msgs[members(msgs, c, n)[k] as int].conversation_hash@ == c,
        forall|a: int, b: int| 0 <= a < b < members(msgs, c, n).len() ==> members(msgs, c, n)[a] < members(msgs, c, n)[b],
        forall|i: int| 0 <= i < n && msgs[i].conversation_hash@ == c ==> members(msgs, c, n).contains(i as usize),
    decreases n,
{
    if n > 0 {
        lemma_members_props(msgs, c, n - 1);
        let prev = members(msgs, c, n - 1);
        if msgs[n - 1].conversation_hash@ == c {
            let cur = prev.push((n - 1) as usize);
            assert forall|i: int| 0 <= i < n && msgs[i].conversation_hash@ == c implies cur.contains(i as usize) by {
                if i < n - 1 {
                    let k = choose|k: int| 0 <= k < prev.len() && prev[k] == i as usize;
                    assert(cur[k] == i as usize);
                } else {
                    assert(cur[cur.len() - 1] == i as usize);
                }
            }
        } else {
            assert forall|i: int| 0 <= i < n && msgs[i].conversation_hash@ == c implies prev.contains(i as usize) by {
            }
        }
    }
}

/// The messages' indices grouped by conversation: one group per conversation, in order of first
/// appearance, each listing its messages' indices in ascending order.
pub fn group_by_conversation(msgs: &[ConversationMessage]) -> (r: (Vec<Vec<usize>>, Ghost<Seq<Seq<char>>>))
    ensures
        r.1@ == conv_order(msgs@, msgs.len() as int),
        r.0.len() == r.1@.len(),
        forall|g: int| 0 <= g < r.0.len() ==> (#[trigger] r.0[g])@ == members(msgs@, r.1@[g], msgs.len() as int),
{
    let mut index: StringHashMap<usize> = StringHashMap::new();
    let mut groups: Vec<Vec<usize>> = Vec::new();
    let ghost mut names: Seq<Seq<char>> = Seq::empty();
    let mut i: usize = 0;
    while i < msgs.len()
        invariant
            i <= msgs.len(),
            names == conv_order(msgs@, i as int),
            groups.len() == names.len(),
            forall|c: Seq<char>| #[trigger] index@.contains_key(c) <==> names.contains(c),
            forall|g: int| 0 <= g < names.len() ==> index@[#[trigger] names[g]] == g,
            forall|g: int| 0 <= g < groups.len() ==> (#[trigger] groups[g])@ == members(msgs@, names[g], i as int),
        decreases msgs.len() - i,
    {
        proof {
            lemma_conv_order_props(msgs@, i as int);
        }
        let c = msgs[i].conversation_hash.as_str();
        let ghost cv = c@;
        match index.get(c) {
            Some(g) => {
                let g = *g;
                proof {
                    let k = choose|k: int| 0 <= k < names.len() && names[k] == cv;
                    assert(index@[names[k]] == k);
                }
                groups[g].push(i);
                proof {
                    assert forall|h: int| 0 <= h < groups.len() implies (#[trigger] groups[h])@ == members(msgs@, names[h], i + 1) by {
                        if h != g as int {
                            assert(names[h] != names[g as int]);
                        }
                    }
                }
            },
            None => {
                let g = groups.len();
                let mut v: Vec<usize> = Vec::new();
                v.push(i);
                groups.push(v);
                index.insert(msgs[i].conversation_hash.clone(), g);
                proof {
                    assert(!names.contains(cv));
                    lemma_members_props(msgs@, cv, i as int);
                    assert(members(msgs@, cv, i as int).len() == 0) by {
                        if members(msgs@, cv, i as int).len() > 0 {
                            let j = members(msgs@, cv, i as int)[0];
                            assert(msgs@[j as int].conversation_hash@ == cv);
                        }
                    }
                    let old_names = names;
                    names = names.push(cv);
                    assert(groups[g as int]@ =~= members(msgs@, cv, i + 1));
                    assert forall|h: int| 0 <= h < groups.len() implies (#[trigger] groups[h])@ == members(msgs@, names[h], i + 1) by {
                        if h != g as int {
                            assert(names[h] == old_names[h]);
                            assert(old_names.contains(old_names[h]));
                        }
                    }
                    assert forall|x: Seq<char>| #[trigger] index@.contains_key(x) <==> names.contains(x) by {
                        if old_names.contains(x) {
                            let k = choose|k: int| 0 <= k < old_names.len() && old_names[k] == x;
                            assert(names[k] == x);
                        }
                        if names.contains(x) && x != cv {
                            let k = choose|k: int| 0 <= k < names.len() && names[k] == x;
                            assert(old_names[k] == x);
                        }
                        if x == cv {
                            assert(names[names.len() - 1] == x);
                        }
                    }
                    assert forall|h: int| 0 <= h < names.len() implies index@[#[trigger] names[h]] == h by {
                        if h < old_names.len() {
                            assert(old_names.contains(old_names[h]));
                            assert(old_names[h] != cv);
                        }
                    }
                }
            },
        }
        i = i + 1;
    }
    (groups, Ghost(names))
}

} // verus!
