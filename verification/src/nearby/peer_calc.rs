//! The rendezvous selector: from the peers that the radio sees, the one
//! document to join.
//!
//! Documents are compared as raw bytes, lexicographically. The choice is a
//! function of the table of peers and of the node's own document alone, so
//! that nodes which see the same peers agree on it.

use crate::ble::{AddressData, DocumentData, PeerData, PeerState};
use crate::nearby::join::views_of;
use std::collections::HashMap;
use vstd::prelude::*;
use vstd::std_specs::hash::spec_hash_map_iter;
use vstd::std_specs::iter::IteratorSpec;

verus! {

broadcast use vstd::std_specs::hash::group_hash_axioms;

/// Byte-lexicographic order: `a` comes no later than `b`.
pub open spec fn lex_le(a: Seq<u8>, b: Seq<u8>) -> bool
    decreases a.len(),
{
    if a.len() == 0 {
        true
    } else if b.len() == 0 {
        false
    } else if a[0] != b[0] {
        a[0] < b[0]
    } else {
        lex_le(a.drop_first(), b.drop_first())
    }
}

pub proof fn lemma_lex_reflexive(a: Seq<u8>)
    ensures
        lex_le(a, a),
    decreases a.len(),
{
    if a.len() > 0 {
        lemma_lex_reflexive(a.drop_first());
    }
}

pub proof fn lemma_lex_antisymmetric(a: Seq<u8>, b: Seq<u8>)
    requires
        lex_le(a, b),
        lex_le(b, a),
    ensures
        a == b,
    decreases a.len(),
{
    if a.len() == 0 {
        assert(a =~= b);
    } else {
        lemma_lex_antisymmetric(a.drop_first(), b.drop_first());
        assert forall|i: int| 0 <= i < a.len() implies a[i] == b[i] by {
            if i > 0 {
                assert(a[i] == a.drop_first()[i - 1]);
                assert(b[i] == b.drop_first()[i - 1]);
            }
        }
        assert(a.len() == a.drop_first().len() + 1);
        assert(b.len() == b.drop_first().len() + 1);
        assert(a =~= b);
    }
}

pub proof fn lemma_lex_transitive(a: Seq<u8>, b: Seq<u8>, c: Seq<u8>)
    requires
        lex_le(a, b),
        lex_le(b, c),
    ensures
        lex_le(a, c),
    decreases a.len(),
{
    if a.len() > 0 && a[0] == b[0] && b[0] == c[0] {
        lemma_lex_transitive(a.drop_first(), b.drop_first(), c.drop_first());
    }
}

pub proof fn lemma_lex_total(a: Seq<u8>, b: Seq<u8>)
    ensures
        lex_le(a, b) || lex_le(b, a),
    decreases a.len(),
{
    if a.len() > 0 && b.len() > 0 && a[0] == b[0] {
        lemma_lex_total(a.drop_first(), b.drop_first());
    }
}

/// Whether `a` comes no later than `b` in byte-lexicographic order.
pub fn doc_le(a: &Vec<u8>, b: &Vec<u8>) -> (le: bool)
    ensures
        le == lex_le(a@, b@),
{
    let mut i: usize = 0;
    assert(a@.skip(0) =~= a@ && b@.skip(0) =~= b@);
    while i < a.len() && i < b.len()
        invariant
            i <= a.len(),
            i <= b.len(),
            lex_le(a@, b@) == lex_le(a@.skip(i as int), b@.skip(i as int)),
        decreases a.len() - i,
    {
        if a[i] != b[i] {
            return a[i] < b[i];
        }
        proof {
            assert(a@.skip(i as int).drop_first() =~= a@.skip(i + 1));
            assert(b@.skip(i as int).drop_first() =~= b@.skip(i + 1));
        }
        i += 1;
    }
    i == a.len()
}

/// Whether two documents are the same bytes.
pub fn doc_eq(a: &Vec<u8>, b: &Vec<u8>) -> (eq: bool)
    ensures
        eq == (a@ == b@),
{
    if a.len() != b.len() {
        return false;
    }
    let mut i: usize = 0;
    while i < a.len()
        invariant
            i <= a.len(),
            a.len() == b.len(),
            forall|j: int| 0 <= j < i ==> a[j] == b[j],
        decreases a.len() - i,
    {
        if a[i] != b[i] {
            return false;
        }
        i += 1;
    }
    assert(a@ =~= b@);
    true
}

/// The peers of a table that are settled on `doc`.
pub open spec fn settled_on(peers: Map<u128, PeerData>, doc: Seq<u8>) -> Set<u128> {
    Set::new(
        |u: u128|
            peers.contains_key(u) && peers[u].peer_state == PeerState::Settled
                && peers[u].document_data@ == doc,
    )
}

/// How many peers of a table are settled on `doc`.
pub open spec fn settled_count(peers: Map<u128, PeerData>, doc: Seq<u8>) -> nat {
    settled_on(peers, doc).len()
}

/// Some document has more than one settled peer.
pub open spec fn has_majority(peers: Map<u128, PeerData>) -> bool {
    exists|d: Seq<u8>| settled_count(peers, d) > 1
}

/// Some peer is settled.
pub open spec fn has_settled(peers: Map<u128, PeerData>) -> bool {
    exists|u: u128| peers.contains_key(u) && peers[u].peer_state == PeerState::Settled
}

/// `doc` has more than one settled peer and no document has more; of the
/// documents with as many, it is the smallest.
pub open spec fn is_majority_doc(peers: Map<u128, PeerData>, doc: Seq<u8>) -> bool {
    &&& settled_count(peers, doc) > 1
    &&& forall|d: Seq<u8>|
        settled_count(peers, d) < settled_count(peers, doc) || (#[trigger] settled_count(peers, d)
            == settled_count(peers, doc) && lex_le(doc, d))
}

/// `doc` is the smallest document of a settled peer.
pub open spec fn is_smallest_settled(peers: Map<u128, PeerData>, doc: Seq<u8>) -> bool {
    &&& exists|u: u128|
        peers.contains_key(u) && peers[u].peer_state == PeerState::Settled
            && peers[u].document_data@ == doc
    &&& forall|u: u128|
        peers.contains_key(u) && peers[u].peer_state == PeerState::Settled ==> lex_le(
            doc,
            peers[u].document_data@,
        )
}

/// `doc` is the smallest of the node's own document and those of all peers.
pub open spec fn is_smallest_of_all(
    my_doc: Seq<u8>,
    peers: Map<u128, PeerData>,
    doc: Seq<u8>,
) -> bool {
    &&& doc == my_doc || exists|u: u128| peers.contains_key(u) && peers[u].document_data@ == doc
    &&& lex_le(doc, my_doc)
    &&& forall|u: u128| peers.contains_key(u) ==> lex_le(doc, peers[u].document_data@)
}

/// The rule of the selector. Where a document has more than one settled
/// peer, follow the most frequent such document. Otherwise, where a peer
/// is settled, take the smallest document of the settled peers. Otherwise
/// take the smallest of the node's own document and those of the peers.
pub open spec fn is_best_doc(my_doc: Seq<u8>, peers: Map<u128, PeerData>, doc: Seq<u8>) -> bool {
    if has_majority(peers) {
        is_majority_doc(peers, doc)
    } else if has_settled(peers) {
        is_smallest_settled(peers, doc)
    } else {
        is_smallest_of_all(my_doc, peers, doc)
    }
}

/// The document that the selector picks.
pub open spec fn best_doc(my_doc: Seq<u8>, peers: Map<u128, PeerData>) -> Seq<u8> {
    choose|doc: Seq<u8>| is_best_doc(my_doc, peers, doc)
}

/// The rule picks at most one document.
pub proof fn lemma_best_doc_unique(
    my_doc: Seq<u8>,
    peers: Map<u128, PeerData>,
    a: Seq<u8>,
    b: Seq<u8>,
)
    requires
        is_best_doc(my_doc, peers, a),
        is_best_doc(my_doc, peers, b),
    ensures
        a == b,
        a == best_doc(my_doc, peers),
{
    assert forall|x: Seq<u8>, y: Seq<u8>|
        is_best_doc(my_doc, peers, x) && is_best_doc(my_doc, peers, y) implies lex_le(x, y) by {
        if has_majority(peers) {
            assert(settled_count(peers, y) == settled_count(peers, x) && lex_le(x, y));
        } else if has_settled(peers) {
        } else {
        }
    }
    lemma_lex_antisymmetric(a, b);
    let c = best_doc(my_doc, peers);
    lemma_lex_antisymmetric(a, c);
}

/// Two tables advertise the same: they hold the same peers, each in the
/// same state and with the same document.
pub open spec fn same_adverts(a: Map<u128, PeerData>, b: Map<u128, PeerData>) -> bool {
    &&& forall|u: u128| a.contains_key(u) <==> b.contains_key(u)
    &&& forall|u: u128|
        a.contains_key(u) ==> a[u].peer_state == b[u].peer_state && a[u].document_data@
            == b[u].document_data@
}

/// The choice does not depend on the order in which the peers were seen,
/// nor on anything but what they advertise: for two tables that advertise
/// the same, and the same own document, the rule picks the same document.
pub proof fn law_choice_is_stable(
    my_doc: Seq<u8>,
    a: Map<u128, PeerData>,
    b: Map<u128, PeerData>,
    doc_a: Seq<u8>,
    doc_b: Seq<u8>,
)
    requires
        same_adverts(a, b),
        is_best_doc(my_doc, a, doc_a),
        is_best_doc(my_doc, b, doc_b),
    ensures
        doc_a == doc_b,
{
    assert forall|d: Seq<u8>| settled_count(a, d) == settled_count(b, d) by {
        assert(settled_on(a, d) =~= settled_on(b, d));
    }
    if has_majority(a) {
        let d = choose|d: Seq<u8>| settled_count(a, d) > 1;
        assert(settled_count(b, d) > 1);
    }
    if has_majority(b) {
        let d = choose|d: Seq<u8>| settled_count(b, d) > 1;
        assert(settled_count(a, d) > 1);
    }
    if has_settled(a) {
        let u = choose|u: u128| a.contains_key(u) && a[u].peer_state == PeerState::Settled;
        assert(b.contains_key(u) && b[u].peer_state == PeerState::Settled);
    }
    if has_settled(b) {
        let u = choose|u: u128| b.contains_key(u) && b[u].peer_state == PeerState::Settled;
        assert(a.contains_key(u) && a[u].peer_state == PeerState::Settled);
    }
    if has_majority(a) {
        assert(is_majority_doc(b, doc_a)) by {
            assert forall|d: Seq<u8>|
                settled_count(b, d) < settled_count(b, doc_a) || (#[trigger] settled_count(b, d)
                    == settled_count(b, doc_a) && lex_le(doc_a, d)) by {
                assert(settled_count(a, d) < settled_count(a, doc_a) || (settled_count(a, d)
                    == settled_count(a, doc_a) && lex_le(doc_a, d)));
            }
        }
    } else if has_settled(a) {
        let u = choose|u: u128|
            a.contains_key(u) && a[u].peer_state == PeerState::Settled && a[u].document_data@
                == doc_a;
        assert(b.contains_key(u) && b[u].peer_state == PeerState::Settled && b[u].document_data@
            == doc_a);
        assert forall|v: u128|
            b.contains_key(v) && b[v].peer_state == PeerState::Settled implies lex_le(
            doc_a,
            b[v].document_data@,
        ) by {
            assert(a.contains_key(v));
        }
        assert(is_smallest_settled(b, doc_a));
    } else {
        if doc_a != my_doc {
            let u = choose|u: u128| a.contains_key(u) && a[u].document_data@ == doc_a;
            assert(b.contains_key(u) && b[u].document_data@ == doc_a);
        }
        assert forall|v: u128| b.contains_key(v) implies lex_le(doc_a, b[v].document_data@) by {
            assert(a.contains_key(v));
        }
        assert(is_smallest_of_all(my_doc, b, doc_a));
    }
    lemma_best_doc_unique(my_doc, b, doc_a, doc_b);
}

/// A document with more than one settled peer is the choice
/// where no other document has more settled peers, nor as many and a
/// smaller name.
pub proof fn law_majority(my_doc: Seq<u8>, peers: Map<u128, PeerData>, doc: Seq<u8>)
    requires
        settled_count(peers, doc) > 1,
        forall|d: Seq<u8>|
            d != doc ==> settled_count(peers, d) < settled_count(peers, doc) || (
            #[trigger] settled_count(peers, d) == settled_count(peers, doc) && lex_le(doc, d)),
    ensures
        is_best_doc(my_doc, peers, doc),
        best_doc(my_doc, peers) == doc,
{
    lemma_lex_reflexive(doc);
    assert(is_majority_doc(peers, doc));
    lemma_best_doc_unique(my_doc, peers, doc, doc);
}

/// Where one group stands out, it is followed: the only document with more
/// than one settled peer is the choice.
pub proof fn law_only_majority(my_doc: Seq<u8>, peers: Map<u128, PeerData>, doc: Seq<u8>)
    requires
        settled_count(peers, doc) > 1,
        forall|d: Seq<u8>| d != doc ==> #[trigger] settled_count(peers, d) <= 1,
    ensures
        best_doc(my_doc, peers) == doc,
{
    law_majority(my_doc, peers, doc);
}

/// Among scanners the smallest document wins: with no settled peer, the choice is the
/// smallest of the node's own document and those of the peers.
pub proof fn law_scanners_pick_smallest(my_doc: Seq<u8>, peers: Map<u128, PeerData>, doc: Seq<u8>)
    requires
        !has_settled(peers),
    ensures
        is_best_doc(my_doc, peers, doc) <==> is_smallest_of_all(my_doc, peers, doc),
{
    assert forall|d: Seq<u8>| settled_count(peers, d) == 0 by {
        assert(settled_on(peers, d) =~= Set::<u128>::empty());
    }
}

/// The node `me` of a group of scanners sees every other node of the
/// group, and nothing else: its table holds, for each of them, a scanning
/// peer with the document of that node.
pub open spec fn sees_the_others(
    group: Map<u128, Seq<u8>>,
    me: u128,
    table: Map<u128, PeerData>,
) -> bool {
    &&& forall|u: u128|
        #![trigger table.contains_key(u)]
        #![trigger group.contains_key(u)]
        table.contains_key(u) <==> group.contains_key(u) && u != me
    &&& forall|u: u128| #[trigger]
        table.contains_key(u) ==> table[u].peer_state == PeerState::Scanning
            && table[u].document_data@ == group[u]
}

/// Scanners that see each other converge: any two nodes of a group of
/// scanners, each on its own document and each seeing all the others,
/// choose the same document.
pub proof fn law_scanners_converge(
    group: Map<u128, Seq<u8>>,
    a: u128,
    table_a: Map<u128, PeerData>,
    choice_a: Seq<u8>,
    b: u128,
    table_b: Map<u128, PeerData>,
    choice_b: Seq<u8>,
)
    requires
        group.contains_key(a),
        group.contains_key(b),
        sees_the_others(group, a, table_a),
        sees_the_others(group, b, table_b),
        is_best_doc(group[a], table_a, choice_a),
        is_best_doc(group[b], table_b, choice_b),
    ensures
        choice_a == choice_b,
{
    assert(!has_settled(table_a)) by {
        if has_settled(table_a) {
            let u = choose|u: u128|
                table_a.contains_key(u) && table_a[u].peer_state == PeerState::Settled;
            assert(table_a[u].peer_state == PeerState::Scanning);
        }
    }
    assert(!has_settled(table_b)) by {
        if has_settled(table_b) {
            let u = choose|u: u128|
                table_b.contains_key(u) && table_b[u].peer_state == PeerState::Settled;
            assert(table_b[u].peer_state == PeerState::Scanning);
        }
    }
    law_scanners_pick_smallest(group[a], table_a, choice_a);
    law_scanners_pick_smallest(group[b], table_b, choice_b);
    // Each choice is the document of a node of the group, and no document of
    // the group is smaller than either choice.
    assert forall|u: u128| group.contains_key(u) implies lex_le(choice_a, group[u]) by {
        if u != a {
            assert(table_a.contains_key(u));
        }
    }
    assert forall|u: u128| group.contains_key(u) implies lex_le(choice_b, group[u]) by {
        if u != b {
            assert(table_b.contains_key(u));
        }
    }
    let held_a = if choice_a == group[a] {
        a
    } else {
        choose|u: u128| table_a.contains_key(u) && table_a[u].document_data@ == choice_a
    };
    let held_b = if choice_b == group[b] {
        b
    } else {
        choose|u: u128| table_b.contains_key(u) && table_b[u].document_data@ == choice_b
    };
    assert(group.contains_key(held_a) && group[held_a] == choice_a);
    assert(group.contains_key(held_b) && group[held_b] == choice_b);
    lemma_lex_antisymmetric(choice_a, choice_b);
}

/// The choice is a document that someone holds: the node's own, or one
/// that a peer advertises.
pub proof fn law_choice_is_advertised(my_doc: Seq<u8>, peers: Map<u128, PeerData>, doc: Seq<u8>)
    requires
        is_best_doc(my_doc, peers, doc),
    ensures
        doc == my_doc || exists|u: u128| peers.contains_key(u) && peers[u].document_data@ == doc,
{
    if has_majority(peers) {
        if settled_on(peers, doc) =~= Set::<u128>::empty() {
            assert(settled_count(peers, doc) == 0);
        } else {
            let u = choose|u: u128| settled_on(peers, doc).contains(u);
            assert(peers.contains_key(u) && peers[u].document_data@ == doc);
        }
    } else if has_settled(peers) {
        let u = choose|u: u128|
            peers.contains_key(u) && peers[u].peer_state == PeerState::Settled
                && peers[u].document_data@ == doc;
        assert(peers.contains_key(u) && peers[u].document_data@ == doc);
    }
}

/// `all` holds each peer of the table once, under its key.
spec fn lists_table(peers: Map<u128, PeerData>, all: Seq<(u128, &PeerData)>) -> bool {
    &&& forall|a: int, b: int| 0 <= a < b < all.len() ==> all[a].0 != all[b].0
    &&& forall|a: int|
        0 <= a < all.len() ==> peers.contains_key(#[trigger] all[a].0) && peers[all[a].0]
            == *all[a].1
    &&& forall|u: u128|
        peers.contains_key(u) ==> exists|a: int| 0 <= a < all.len() && #[trigger] all[a].0 == u
}

/// `part` holds the entries of `all` whose peer is in state `want`.
spec fn is_selection(
    all: Seq<(u128, &PeerData)>,
    want: PeerState,
    part: Seq<(u128, &PeerData)>,
) -> bool {
    &&& forall|a: int, b: int| 0 <= a < b < part.len() ==> part[a].0 != part[b].0
    &&& forall|j: int|
        0 <= j < part.len() ==> all.contains(#[trigger] part[j]) && part[j].1.peer_state == want
    &&& forall|t: int|
        0 <= t < all.len() && all[t].1.peer_state == want ==> part.contains(#[trigger] all[t])
}

/// The peers of a table in some order, each once, with its key.
fn snapshot<'a>(peers: &'a HashMap<u128, PeerData>) -> (all: Vec<(u128, &'a PeerData)>)
    ensures
        lists_table(peers@, all@),
{
    let mut all: Vec<(u128, &'a PeerData)> = Vec::new();
    let ghost pairs = spec_hash_map_iter(peers).remaining();
    for pair in it: peers.iter()
        invariant
            it.seq() == pairs,
            all.len() == it.index(),
            forall|i: int|
                0 <= i < all.len() ==> all[i].0 == *pairs[i].0 && all[i].1 == pairs[i].1,
    {
        all.push((*pair.0, pair.1));
    }
    proof {
        assert(pairs.no_duplicates());
        assert forall|i: int| 0 <= i < all.len() implies peers@.contains_key(#[trigger] all[i].0)
            && peers@[all[i].0] == *all[i].1 by {
            assert(peers@.contains_key(*pairs[i].0) && peers@[*pairs[i].0] == *pairs[i].1);
        }
        assert forall|i: int, j: int| 0 <= i < j < all.len() implies all[i].0 != all[j].0 by {
            assert(peers@.contains_key(*pairs[i].0) && peers@[*pairs[i].0] == *pairs[i].1);
            assert(peers@.contains_key(*pairs[j].0) && peers@[*pairs[j].0] == *pairs[j].1);
            assert(pairs[i] != pairs[j]);
        }
        assert forall|u: u128| peers@.contains_key(u) implies exists|i: int|
            0 <= i < all.len() && #[trigger] all[i].0 == u by {
            assert(pairs.contains((&u, &peers@[u])));
            let i = choose|i: int| 0 <= i < pairs.len() && pairs[i] == (&u, &peers@[u]);
            assert(all[i].0 == u);
        }
    }
    all
}

/// How many of `peers` advertise `doc`.
pub open spec fn occurrences(peers: Seq<&PeerData>, doc: Seq<u8>) -> nat
    decreases peers.len(),
{
    if peers.len() == 0 {
        0
    } else {
        occurrences(peers.drop_last(), doc) + if peers.last().document_data@ == doc {
            1nat
        } else {
            0nat
        }
    }
}

proof fn lemma_occurrences_bounds(peers: Seq<&PeerData>, doc: Seq<u8>)
    ensures
        occurrences(peers, doc) <= peers.len(),
        occurrences(peers, doc) > 0 <==> exists|i: int|
            0 <= i < peers.len() && (#[trigger] peers[i]).document_data@ == doc,
    decreases peers.len(),
{
    if peers.len() > 0 {
        let front = peers.drop_last();
        lemma_occurrences_bounds(front, doc);
        if occurrences(peers, doc) > 0 {
            if peers.last().document_data@ == doc {
                assert(peers[peers.len() - 1].document_data@ == doc);
            } else {
                let i = choose|i: int| 0 <= i < front.len() && (#[trigger] front[i]).document_data@ == doc;
                assert(peers[i].document_data@ == doc);
            }
        }
        if exists|i: int| 0 <= i < peers.len() && (#[trigger] peers[i]).document_data@ == doc {
            let i = choose|i: int| 0 <= i < peers.len() && (#[trigger] peers[i]).document_data@ == doc;
            if i < front.len() {
                assert(front[i].document_data@ == doc);
            }
        }
    }
}

proof fn lemma_occurrences_step(peers: Seq<&PeerData>, doc: Seq<u8>, n: int)
    requires
        0 <= n < peers.len(),
    ensures
        occurrences(peers.take(n + 1), doc) == occurrences(peers.take(n), doc) + if peers[n].document_data@
            == doc {
            1nat
        } else {
            0nat
        },
{
    assert(peers.take(n + 1).drop_last() =~= peers.take(n));
}

/// Counting along a list of distinct keys counts the set of those keys.
proof fn lemma_count_prefix(
    peers: Map<u128, PeerData>,
    keys: Seq<u128>,
    vals: Seq<&PeerData>,
    doc: Seq<u8>,
    n: int,
)
    requires
        0 <= n <= keys.len(),
        keys.len() == vals.len(),
        keys.no_duplicates(),
        forall|j: int| 0 <= j < keys.len() ==> peers[#[trigger] keys[j]] == *vals[j],
    ensures
        ({
            let s = Set::new(|u: u128| keys.take(n).contains(u) && peers[u].document_data@ == doc);
            s.finite() && s.len() == occurrences(vals.take(n), doc)
        }),
    decreases n,
{
    let s = Set::new(|u: u128| keys.take(n).contains(u) && peers[u].document_data@ == doc);
    if n == 0 {
        assert(s =~= Set::<u128>::empty());
    } else {
        lemma_count_prefix(peers, keys, vals, doc, n - 1);
        lemma_occurrences_step(vals, doc, n - 1);
        let s0 = Set::new(
            |u: u128| keys.take(n - 1).contains(u) && peers[u].document_data@ == doc,
        );
        let k = keys[n - 1];
        let cur = keys.take(n);
        let front = keys.take(n - 1);
        assert(cur[n - 1] == k);
        assert forall|u: u128| cur.contains(u) <==> (front.contains(u) || u == k) by {
            if cur.contains(u) {
                let i = choose|i: int| 0 <= i < cur.len() && cur[i] == u;
                if i < n - 1 {
                    assert(front[i] == u);
                }
            }
            if front.contains(u) {
                let i = choose|i: int| 0 <= i < front.len() && front[i] == u;
                assert(cur[i] == u);
            }
        }
        if front.contains(k) {
            let i = choose|i: int| 0 <= i < front.len() && front[i] == k;
            assert(keys[i] == keys[n - 1]);
        }
        if peers[k].document_data@ == doc {
            assert(s =~= s0.insert(k));
        } else {
            assert(s =~= s0);
        }
    }
}

/// A list that holds each settled peer of a table once counts as the
/// table does.
proof fn lemma_counts_agree(
    peers: Map<u128, PeerData>,
    keys: Seq<u128>,
    vals: Seq<&PeerData>,
    doc: Seq<u8>,
)
    requires
        keys.len() == vals.len(),
        keys.no_duplicates(),
        forall|j: int|
            0 <= j < keys.len() ==> peers.contains_key(#[trigger] keys[j]) && peers[keys[j]]
                == *vals[j] && vals[j].peer_state == PeerState::Settled,
        forall|u: u128|
            peers.contains_key(u) && peers[u].peer_state == PeerState::Settled
                ==> #[trigger] keys.contains(u),
    ensures
        occurrences(vals, doc) == settled_count(peers, doc),
{
    lemma_count_prefix(peers, keys, vals, doc, keys.len() as int);
    assert(keys.take(keys.len() as int) =~= keys);
    assert(vals.take(keys.len() as int) =~= vals);
    let s = Set::new(|u: u128| keys.contains(u) && peers[u].document_data@ == doc);
    assert forall|u: u128| s.contains(u) <==> settled_on(peers, doc).contains(u) by {
        if s.contains(u) {
            let j = choose|j: int| 0 <= j < keys.len() && keys[j] == u;
            assert(peers.contains_key(keys[j]));
        }
    }
    assert(s =~= settled_on(peers, doc));
}

fn find_doc(counts: &Vec<(&Vec<u8>, usize)>, doc: &Vec<u8>) -> (at: Option<usize>)
    ensures
        match at {
            Some(k) => k < counts.len() && counts[k as int].0@ == doc@,
            None => forall|k: int| 0 <= k < counts.len() ==> counts[k].0@ != doc@,
        },
{
    let mut k: usize = 0;
    while k < counts.len()
        invariant
            k <= counts.len(),
            forall|j: int| 0 <= j < k ==> counts[j].0@ != doc@,
        decreases counts.len() - k,
    {
        if doc_eq(counts[k].0, doc) {
            return Some(k);
        }
        k += 1;
    }
    None
}

/// For each document that the peers advertise, how many of them do.
///
/// The counts stand in a list, each document once: the documents are byte
/// strings, and what a hash map keyed by them holds is known to Verus only
/// under an assumption on how they hash.
pub fn create_counts<'a>(peers: &Vec<&'a PeerData>) -> (counts: Vec<(&'a Vec<u8>, usize)>)
    ensures
        is_tally(counts@, peers@),
{
    let mut counts: Vec<(&'a Vec<u8>, usize)> = Vec::new();
    let mut i: usize = 0;
    assert(peers@.take(0) =~= Seq::<&PeerData>::empty());
    while i < peers.len()
        invariant
            i <= peers.len(),
            forall|j: int, k: int| 0 <= j < k < counts.len() ==> counts[j].0@ != counts[k].0@,
            forall|k: int|
                0 <= k < counts.len() ==> (#[trigger] counts[k]).1 > 0 && counts[k].1
                    == occurrences(peers@.take(i as int), counts[k].0@),
            forall|t: int|
                0 <= t < i ==> exists|k: int|
                    0 <= k < counts.len() && (#[trigger] counts[k]).0@ == (#[trigger] peers[t]).document_data@,
        decreases peers.len() - i,
    {
        let peer: &'a PeerData = peers[i];
        let doc: &'a Vec<u8> = &peer.document_data;
        let ghost before = counts@;
        proof {
            assert forall|d: Seq<u8>|
                occurrences(peers@.take(i + 1), d) == occurrences(peers@.take(i as int), d) + if peers[i as int].document_data@
                    == d {
                    1nat
                } else {
                    0nat
                } by {
                lemma_occurrences_step(peers@, d, i as int);
            }
            lemma_occurrences_bounds(peers@.take(i as int), doc@);
        }
        match find_doc(&counts, doc) {
            Some(k) => {
                let entry = counts[k];
                counts[k] = (entry.0, entry.1 + 1);
                proof {
                    assert forall|t: int| 0 <= t < i + 1 implies exists|k: int|
                        0 <= k < counts.len() && (#[trigger] counts[k]).0@ == (#[trigger] peers[t]).document_data@ by {
                        if t < i {
                            let k0 = choose|k0: int|
                                0 <= k0 < before.len() && (#[trigger] before[k0]).0@
                                    == peers[t].document_data@;
                            assert(counts[k0].0@ == peers[t].document_data@);
                        } else {
                            assert(counts[k as int].0@ == peers[t].document_data@);
                        }
                    }
                }
            },
            None => {
                proof {
                    if occurrences(peers@.take(i as int), doc@) > 0 {
                        let t = choose|t: int|
                            0 <= t < i && (#[trigger] peers@.take(i as int)[t]).document_data@
                                == doc@;
                        assert(peers[t].document_data@ == doc@);
                        let k0 = choose|k0: int|
                            0 <= k0 < before.len() && (#[trigger] before[k0]).0@
                                == peers[t].document_data@;
                        assert(false);
                    }
                }
                counts.push((doc, 1));
                proof {
                    assert forall|t: int| 0 <= t < i + 1 implies exists|k: int|
                        0 <= k < counts.len() && (#[trigger] counts[k]).0@ == (#[trigger] peers[t]).document_data@ by {
                        if t < i {
                            let k0 = choose|k0: int|
                                0 <= k0 < before.len() && (#[trigger] before[k0]).0@
                                    == peers[t].document_data@;
                            assert(counts[k0].0@ == peers[t].document_data@);
                        } else {
                            assert(counts[before.len() as int].0@ == peers[t].document_data@);
                        }
                    }
                }
            },
        }
        i += 1;
    }
    assert(peers@.take(peers.len() as int) =~= peers@);
    counts
}

/// The entry with the highest count; of those with as high a count, the one
/// with the smallest document.
pub fn get_most_freq_doc<'a>(counts: &Vec<(&'a Vec<u8>, usize)>) -> (most: Option<
    (&'a Vec<u8>, usize),
>)
    ensures
        most is None <==> counts.len() == 0,
        most matches Some(top) ==> is_top(counts@, top),
{
    if counts.len() == 0 {
        return None;
    }
    let mut best: (&'a Vec<u8>, usize) = counts[0];
    let mut i: usize = 1;
    proof {
        lemma_lex_reflexive(best.0@);
    }
    while i < counts.len()
        invariant
            1 <= i <= counts.len(),
            exists|k: int|
                0 <= k < i && (#[trigger] counts[k]).0@ == best.0@ && counts[k].1 == best.1,
            forall|k: int|
                0 <= k < i ==> (#[trigger] counts[k]).1 < best.1 || (counts[k].1 == best.1
                    && lex_le(best.0@, counts[k].0@)),
        decreases counts.len() - i,
    {
        let entry = counts[i];
        let ghost old_best = best;
        if entry.1 > best.1 {
            best = entry;
            proof {
                lemma_lex_reflexive(best.0@);
            }
        } else if entry.1 == best.1 {
            if !doc_le(best.0, entry.0) {
                best = entry;
                proof {
                    lemma_lex_reflexive(best.0@);
                    lemma_lex_total(old_best.0@, best.0@);
                    assert forall|k: int| 0 <= k < i + 1 implies (#[trigger] counts[k]).1 < best.1
                        || (counts[k].1 == best.1 && lex_le(best.0@, counts[k].0@)) by {
                        if k < i && counts[k].1 == best.1 {
                            lemma_lex_transitive(best.0@, old_best.0@, counts[k].0@);
                        }
                    }
                }
            }
        }
        assert(counts[i as int].0@ == entry.0@);
        i += 1;
    }
    Some(best)
}

/// The smallest of the documents, in byte-lexicographic order.
pub fn smallest<'a>(docs: &Vec<&'a Vec<u8>>) -> (least: Option<&'a Vec<u8>>)
    ensures
        least is None <==> docs.len() == 0,
        least matches Some(m) ==> is_least(docs@, m@),
{
    if docs.len() == 0 {
        return None;
    }
    let mut least: &'a Vec<u8> = docs[0];
    let mut i: usize = 1;
    proof {
        lemma_lex_reflexive(least@);
    }
    while i < docs.len()
        invariant
            1 <= i <= docs.len(),
            exists|k: int| 0 <= k < i && (#[trigger] docs[k])@ == least@,
            forall|k: int| 0 <= k < i ==> lex_le(least@, (#[trigger] docs[k])@),
        decreases docs.len() - i,
    {
        let ghost old_least = least;
        if !doc_le(least, docs[i]) {
            least = docs[i];
            proof {
                lemma_lex_reflexive(least@);
                lemma_lex_total(old_least@, least@);
                assert forall|k: int| 0 <= k < i + 1 implies lex_le(least@, (#[trigger] docs[k])@) by {
                    if k < i {
                        lemma_lex_transitive(least@, old_least@, docs[k]@);
                    }
                }
            }
        }
        i += 1;
    }
    Some(least)
}

/// The entries of `all` whose peer is in state `want`, in the order of `all`.
fn select<'a>(all: &Vec<(u128, &'a PeerData)>, want: PeerState) -> (out: Vec<
    (u128, &'a PeerData),
>)
    requires
        forall|a: int, b: int| 0 <= a < b < all.len() ==> all[a].0 != all[b].0,
    ensures
        is_selection(all@, want, out@),
{
    let mut out: Vec<(u128, &'a PeerData)> = Vec::new();
    let ghost mut from: Seq<int> = Seq::empty();
    let mut i: usize = 0;
    while i < all.len()
        invariant
            i <= all.len(),
            from.len() == out.len(),
            forall|j: int| 0 <= j < out.len() ==> 0 <= #[trigger] from[j] < i && out[j] == all[from[j]],
            forall|j: int, k: int| 0 <= j < k < out.len() ==> from[j] < from[k],
            forall|j: int| 0 <= j < out.len() ==> (#[trigger] out[j]).1.peer_state == want,
            forall|t: int|
                0 <= t < i && all[t].1.peer_state == want ==> out@.contains(#[trigger] all[t]),
        decreases all.len() - i,
    {
        let entry = all[i];
        let ghost before = out@;
        if entry.1.peer_state == want {
            out.push(entry);
            proof {
                from = from.push(i as int);
                assert forall|t: int|
                    0 <= t < i + 1 && all[t].1.peer_state == want implies out@.contains(
                    #[trigger] all[t],
                ) by {
                    if t < i {
                        let j = choose|j: int| 0 <= j < before.len() && before[j] == all[t];
                        assert(out[j] == all[t]);
                    } else {
                        assert(out[before.len() as int] == all[t]);
                    }
                }
            }
        }
        i += 1;
    }
    proof {
        assert forall|j: int| 0 <= j < out.len() implies all@.contains(#[trigger] out[j]) by {
            assert(all[from[j]] == out[j]);
        }
        assert forall|a: int, b: int| 0 <= a < b < out.len() implies out[a].0 != out[b].0 by {
            assert(out[a] == all[from[a]] && out[b] == all[from[b]]);
        }
    }
    out
}

/// The peers of the entries, in their order.
fn peers_of<'a>(entries: &Vec<(u128, &'a PeerData)>) -> (peers: Vec<&'a PeerData>)
    ensures
        peers.len() == entries.len(),
        forall|j: int| 0 <= j < peers.len() ==> #[trigger] peers[j] == entries[j].1,
{
    let mut peers: Vec<&'a PeerData> = Vec::new();
    let mut i: usize = 0;
    while i < entries.len()
        invariant
            i <= entries.len(),
            peers.len() == i,
            forall|j: int| 0 <= j < i ==> #[trigger] peers[j] == entries[j].1,
        decreases entries.len() - i,
    {
        peers.push(entries[i].1);
        i += 1;
    }
    peers
}

/// The documents that the entries advertise, in their order.
fn docs_of<'a>(entries: &Vec<(u128, &'a PeerData)>) -> (docs: Vec<&'a Vec<u8>>)
    ensures
        docs.len() == entries.len(),
        forall|j: int| 0 <= j < docs.len() ==> (#[trigger] docs[j])@ == entries[j].1.document_data@,
{
    let mut docs: Vec<&'a Vec<u8>> = Vec::new();
    let mut i: usize = 0;
    while i < entries.len()
        invariant
            i <= entries.len(),
            docs.len() == i,
            forall|j: int| 0 <= j < i ==> (#[trigger] docs[j])@ == entries[j].1.document_data@,
        decreases entries.len() - i,
    {
        docs.push(&entries[i].1.document_data);
        i += 1;
    }
    docs
}

/// What `create_counts` returns for `peers`.
pub open spec fn is_tally(counts: Seq<(&Vec<u8>, usize)>, peers: Seq<&PeerData>) -> bool {
    &&& forall|j: int, k: int| 0 <= j < k < counts.len() ==> counts[j].0@ != counts[k].0@
    &&& forall|k: int|
        0 <= k < counts.len() ==> (#[trigger] counts[k]).1 > 0 && counts[k].1 == occurrences(
            peers,
            counts[k].0@,
        )
    &&& forall|i: int|
        0 <= i < peers.len() ==> exists|k: int|
            0 <= k < counts.len() && (#[trigger] counts[k]).0@ == (#[trigger] peers[i]).document_data@
}

/// `top` stands in `counts` with the highest count, and of the entries with
/// that count it has the smallest document.
pub open spec fn is_top(counts: Seq<(&Vec<u8>, usize)>, top: (&Vec<u8>, usize)) -> bool {
    &&& exists|k: int|
        0 <= k < counts.len() && (#[trigger] counts[k]).0@ == top.0@ && counts[k].1 == top.1
    &&& forall|k: int|
        0 <= k < counts.len() ==> (#[trigger] counts[k]).1 < top.1 || (counts[k].1 == top.1
            && lex_le(top.0@, counts[k].0@))
}

/// `least` is one of `docs` and none of them is smaller.
pub open spec fn is_least(docs: Seq<&Vec<u8>>, least: Seq<u8>) -> bool {
    &&& exists|i: int| 0 <= i < docs.len() && (#[trigger] docs[i])@ == least
    &&& forall|i: int| 0 <= i < docs.len() ==> lex_le(least, (#[trigger] docs[i])@)
}

/// The settled entries count as the table does.
proof fn lemma_settled_tally(
    peers: Map<u128, PeerData>,
    all: Seq<(u128, &PeerData)>,
    settled: Seq<(u128, &PeerData)>,
    vals: Seq<&PeerData>,
    doc: Seq<u8>,
)
    requires
        lists_table(peers, all),
        is_selection(all, PeerState::Settled, settled),
        vals.len() == settled.len(),
        forall|j: int| 0 <= j < vals.len() ==> #[trigger] vals[j] == settled[j].1,
    ensures
        occurrences(vals, doc) == settled_count(peers, doc),
{
    let keys = Seq::new(settled.len(), |j: int| settled[j].0);
    assert forall|j: int| 0 <= j < keys.len() implies peers.contains_key(#[trigger] keys[j])
        && peers[keys[j]] == *vals[j] && vals[j].peer_state == PeerState::Settled by {
        assert(all.contains(settled[j]));
        let a = choose|a: int| 0 <= a < all.len() && all[a] == settled[j];
        assert(peers.contains_key(all[a].0));
        assert(vals[j] == settled[j].1);
    }
    assert forall|u: u128|
        peers.contains_key(u) && peers[u].peer_state
            == PeerState::Settled implies #[trigger] keys.contains(u) by {
        let a = choose|a: int| 0 <= a < all.len() && #[trigger] all[a].0 == u;
        assert(peers.contains_key(all[a].0));
        assert(settled.contains(all[a]));
        let j = choose|j: int| 0 <= j < settled.len() && settled[j] == all[a];
        assert(keys[j] == u);
    }
    lemma_counts_agree(peers, keys, vals, doc);
}

/// Every document that a settled peer advertises has an entry in the tally,
/// with the table's count.
proof fn lemma_tally_covers(
    peers: Map<u128, PeerData>,
    vals: Seq<&PeerData>,
    counts: Seq<(&Vec<u8>, usize)>,
    doc: Seq<u8>,
)
    requires
        is_tally(counts, vals),
        occurrences(vals, doc) == settled_count(peers, doc),
        settled_count(peers, doc) > 0,
    ensures
        exists|k: int|
            0 <= k < counts.len() && (#[trigger] counts[k]).0@ == doc && counts[k].1
                == settled_count(peers, doc),
{
    lemma_occurrences_bounds(vals, doc);
    let t = choose|t: int| 0 <= t < vals.len() && (#[trigger] vals[t]).document_data@ == doc;
    let k = choose|k: int|
        0 <= k < counts.len() && (#[trigger] counts[k]).0@ == vals[t].document_data@;
    assert(counts[k].0@ == doc);
}

/// With a count above one at the top of the tally, the top document is the
/// majority document.
proof fn lemma_majority_case(
    my_doc: Seq<u8>,
    peers: Map<u128, PeerData>,
    vals: Seq<&PeerData>,
    counts: Seq<(&Vec<u8>, usize)>,
    top: (&Vec<u8>, usize),
)
    requires
        forall|d: Seq<u8>| occurrences(vals, d) == #[trigger] settled_count(peers, d),
        is_tally(counts, vals),
        is_top(counts, top),
        top.1 > 1,
    ensures
        is_best_doc(my_doc, peers, top.0@),
{
    let k = choose|k: int|
        0 <= k < counts.len() && (#[trigger] counts[k]).0@ == top.0@ && counts[k].1 == top.1;
    assert(settled_count(peers, top.0@) == top.1);
    assert forall|d: Seq<u8>|
        settled_count(peers, d) < settled_count(peers, top.0@) || (#[trigger] settled_count(
            peers,
            d,
        ) == settled_count(peers, top.0@) && lex_le(top.0@, d)) by {
        if settled_count(peers, d) > 0 {
            lemma_tally_covers(peers, vals, counts, d);
            let j = choose|j: int|
                0 <= j < counts.len() && (#[trigger] counts[j]).0@ == d && counts[j].1
                    == settled_count(peers, d);
            assert(counts[j].1 < top.1 || (counts[j].1 == top.1 && lex_le(top.0@, counts[j].0@)));
        }
    }
    assert(has_majority(peers));
}

/// With a top count of one, the smallest settled document is the choice.
proof fn lemma_settled_case(
    my_doc: Seq<u8>,
    peers: Map<u128, PeerData>,
    all: Seq<(u128, &PeerData)>,
    settled: Seq<(u128, &PeerData)>,
    vals: Seq<&PeerData>,
    docs: Seq<&Vec<u8>>,
    counts: Seq<(&Vec<u8>, usize)>,
    top: (&Vec<u8>, usize),
    least: Seq<u8>,
)
    requires
        lists_table(peers, all),
        is_selection(all, PeerState::Settled, settled),
        vals.len() == settled.len(),
        forall|j: int| 0 <= j < vals.len() ==> #[trigger] vals[j] == settled[j].1,
        docs.len() == settled.len(),
        forall|j: int| 0 <= j < docs.len() ==> (#[trigger] docs[j])@ == settled[j].1.document_data@,
        forall|d: Seq<u8>| occurrences(vals, d) == #[trigger] settled_count(peers, d),
        is_tally(counts, vals),
        is_top(counts, top),
        top.1 <= 1,
        is_least(docs, least),
    ensures
        is_best_doc(my_doc, peers, least),
{
    assert forall|d: Seq<u8>| !(settled_count(peers, d) > 1) by {
        if settled_count(peers, d) > 0 {
            lemma_tally_covers(peers, vals, counts, d);
            let j = choose|j: int|
                0 <= j < counts.len() && (#[trigger] counts[j]).0@ == d && counts[j].1
                    == settled_count(peers, d);
            assert(counts[j].1 < top.1 || (counts[j].1 == top.1 && lex_le(top.0@, counts[j].0@)));
        }
    }
    let w = choose|w: int| 0 <= w < docs.len() && (#[trigger] docs[w])@ == least;
    assert(all.contains(settled[w]));
    let a = choose|a: int| 0 <= a < all.len() && all[a] == settled[w];
    assert(peers.contains_key(all[a].0) && peers[all[a].0] == *all[a].1);
    assert(peers[all[a].0].peer_state == PeerState::Settled && peers[all[a].0].document_data@
        == least);
    assert(has_settled(peers));
    assert forall|u: u128|
        peers.contains_key(u) && peers[u].peer_state == PeerState::Settled implies lex_le(
        least,
        peers[u].document_data@,
    ) by {
        let t = choose|t: int| 0 <= t < all.len() && #[trigger] all[t].0 == u;
        assert(peers.contains_key(all[t].0));
        assert(settled.contains(all[t]));
        let j = choose|j: int| 0 <= j < settled.len() && settled[j] == all[t];
        assert(lex_le(least, docs[j]@));
    }
}

/// With no settled peer, the smallest of all documents and the node's own
/// is the choice.
proof fn lemma_scanning_case(
    my_doc: Seq<u8>,
    peers: Map<u128, PeerData>,
    all: Seq<(u128, &PeerData)>,
    settled: Seq<(u128, &PeerData)>,
    scanning: Seq<(u128, &PeerData)>,
    docs: Seq<&Vec<u8>>,
    least: Seq<u8>,
)
    requires
        lists_table(peers, all),
        is_selection(all, PeerState::Settled, settled),
        is_selection(all, PeerState::Scanning, scanning),
        settled.len() == 0,
        docs.len() == scanning.len() + 1,
        forall|j: int|
            0 <= j < scanning.len() ==> (#[trigger] docs[j])@ == scanning[j].1.document_data@,
        docs[scanning.len() as int]@ == my_doc,
        is_least(docs, least),
    ensures
        is_best_doc(my_doc, peers, least),
{
    assert forall|u: u128| peers.contains_key(u) implies peers[u].peer_state
        != PeerState::Settled by {
        let t = choose|t: int| 0 <= t < all.len() && #[trigger] all[t].0 == u;
        assert(peers.contains_key(all[t].0));
        if all[t].1.peer_state == PeerState::Settled {
            assert(settled.contains(all[t]));
        }
    }
    assert forall|d: Seq<u8>| settled_count(peers, d) == 0 by {
        assert(settled_on(peers, d) =~= Set::<u128>::empty());
    }
    let w = choose|w: int| 0 <= w < docs.len() && (#[trigger] docs[w])@ == least;
    if w < scanning.len() {
        assert(all.contains(scanning[w]));
        let a = choose|a: int| 0 <= a < all.len() && all[a] == scanning[w];
        assert(peers.contains_key(all[a].0) && peers[all[a].0].document_data@ == least);
    }
    assert(lex_le(least, docs[scanning.len() as int]@));
    assert forall|u: u128| peers.contains_key(u) implies lex_le(least, peers[u].document_data@) by {
        let t = choose|t: int| 0 <= t < all.len() && #[trigger] all[t].0 == u;
        assert(peers.contains_key(all[t].0));
        assert(scanning.contains(all[t]));
        let j = choose|j: int| 0 <= j < scanning.len() && scanning[j] == all[t];
        assert(lex_le(least, docs[j]@));
    }
}

/// The document to join: the choice that `is_best_doc` describes, for the
/// node's own document and the peers that the radio sees.
pub fn find_best_doc_from_peers(
    my_exchange_doc: &DocumentData,
    peers: &HashMap<u128, PeerData>,
) -> (best: DocumentData)
    ensures
        is_best_doc(my_exchange_doc@, peers@, best@),
        best@ == best_doc(my_exchange_doc@, peers@),
{
    let all = snapshot(peers);
    let settled = select(&all, PeerState::Settled);
    let scanning = select(&all, PeerState::Scanning);
    let non_scan_peers = peers_of(&settled);
    let non_scan_docs = docs_of(&settled);
    let mut scan_docs = docs_of(&scanning);

    let non_scan_docs_by_count = create_counts(&non_scan_peers);
    let most_freq = get_most_freq_doc(&non_scan_docs_by_count);
    proof {
        assert forall|d: Seq<u8>|
            occurrences(non_scan_peers@, d) == #[trigger] settled_count(peers@, d) by {
            lemma_settled_tally(peers@, all@, settled@, non_scan_peers@, d);
        }
    }
    let best = match most_freq {
        Some(top) => {
            if top.1 > 1 {
                let best = top.0.clone();
                proof {
                    assert(best@ =~= top.0@);
                    lemma_majority_case(
                        my_exchange_doc@,
                        peers@,
                        non_scan_peers@,
                        non_scan_docs_by_count@,
                        top,
                    );
                }
                best
            } else {
                proof {
                    let k = choose|k: int|
                        0 <= k < non_scan_docs_by_count.len() && (
                        #[trigger] non_scan_docs_by_count[k]).0@ == top.0@;
                    lemma_occurrences_bounds(non_scan_peers@, non_scan_docs_by_count[k].0@);
                }
                let least = smallest(&non_scan_docs).unwrap();
                let best = least.clone();
                proof {
                    assert(best@ =~= least@);
                    lemma_settled_case(
                        my_exchange_doc@,
                        peers@,
                        all@,
                        settled@,
                        non_scan_peers@,
                        non_scan_docs@,
                        non_scan_docs_by_count@,
                        top,
                        best@,
                    );
                }
                best
            }
        },
        None => {
            proof {
                if non_scan_peers.len() > 0 {
                    let k = choose|k: int|
                        0 <= k < non_scan_docs_by_count.len() && (
                        #[trigger] non_scan_docs_by_count[k]).0@
                            == non_scan_peers[0].document_data@;
                }
            }
            scan_docs.push(my_exchange_doc);
            let desired_doc = smallest(&scan_docs).unwrap();
            let best = desired_doc.clone();
            proof {
                assert(best@ =~= desired_doc@);
                lemma_scanning_case(
                    my_exchange_doc@,
                    peers@,
                    all@,
                    settled@,
                    scanning@,
                    scan_docs@,
                    best@,
                );
            }
            best
        },
    };
    proof {
        lemma_best_doc_unique(my_exchange_doc@, peers@, best@, best@);
    }
    best
}

/// `addrs` lists, in the order of `keys`, the reachability hints of the
/// peers that advertise `doc`, each peer once.
pub open spec fn is_address_collation(
    peers: Map<u128, PeerData>,
    doc: Seq<u8>,
    keys: Seq<u128>,
    addrs: Seq<AddressData>,
) -> bool {
    &&& keys.no_duplicates()
    &&& keys.len() == addrs.len()
    &&& forall|i: int|
        0 <= i < keys.len() ==> peers.contains_key(#[trigger] keys[i])
            && peers[keys[i]].document_data@ == doc && addrs[i]@ == peers[keys[i]].address_data@
    &&& forall|u: u128|
        peers.contains_key(u) && peers[u].document_data@ == doc ==> #[trigger] keys.contains(u)
}

/// The reachability hints of those of the peers that advertise `doc`, in
/// the order of the peers.
pub open spec fn addrs_for(doc: Seq<u8>, peers: Seq<&PeerData>) -> Seq<Seq<u8>>
    decreases peers.len(),
{
    if peers.len() == 0 {
        Seq::empty()
    } else if peers.last().document_data@ == doc {
        addrs_for(doc, peers.drop_last()).push(peers.last().address_data@)
    } else {
        addrs_for(doc, peers.drop_last())
    }
}

/// The reachability hints of every peer that advertises `doc`, in the
/// order in which the peers are given.
pub fn collect_addrs_for_doc(doc: &DocumentData, peers: &[&PeerData]) -> (addrs: Vec<AddressData>)
    ensures
        views_of(addrs@) == addrs_for(doc@, peers@),
{
    let mut addrs: Vec<AddressData> = Vec::new();
    let mut i: usize = 0;
    assert(peers@.take(0) =~= Seq::<&PeerData>::empty());
    assert(views_of(addrs@) =~= Seq::<Seq<u8>>::empty());
    while i < peers.len()
        invariant
            i <= peers.len(),
            views_of(addrs@) == addrs_for(doc@, peers@.take(i as int)),
        decreases peers.len() - i,
    {
        proof {
            assert(peers@.take(i + 1).drop_last() =~= peers@.take(i as int));
        }
        let peer = peers[i];
        if doc_eq(&peer.document_data, doc) {
            let ghost before = addrs@;
            let hint = peer.address_data.clone();
            assert(hint@ =~= peer.address_data@);
            addrs.push(hint);
            assert(views_of(addrs@) =~= views_of(before).push(peer.address_data@));
        }
        i += 1;
    }
    assert(peers@.take(peers.len() as int) =~= peers@);
    addrs
}

/// The keys of those of the entries whose peer advertises `doc`, in the
/// order of the entries.
spec fn keys_for(doc: Seq<u8>, all: Seq<(u128, &PeerData)>) -> Seq<u128>
    decreases all.len(),
{
    if all.len() == 0 {
        Seq::empty()
    } else if all.last().1.document_data@ == doc {
        keys_for(doc, all.drop_last()).push(all.last().0)
    } else {
        keys_for(doc, all.drop_last())
    }
}

/// The hints collected along a list of entries with distinct keys go with
/// the keys of the entries that advertise the document.
proof fn lemma_keys_for(doc: Seq<u8>, all: Seq<(u128, &PeerData)>, vals: Seq<&PeerData>)
    requires
        vals.len() == all.len(),
        forall|j: int| 0 <= j < vals.len() ==> #[trigger] vals[j] == all[j].1,
        forall|a: int, b: int| 0 <= a < b < all.len() ==> all[a].0 != all[b].0,
    ensures
        keys_for(doc, all).len() == addrs_for(doc, vals).len(),
        keys_for(doc, all).no_duplicates(),
        forall|i: int|
            0 <= i < keys_for(doc, all).len() ==> exists|t: int|
                0 <= t < all.len() && (#[trigger] all[t]).0 == (#[trigger] keys_for(doc, all)[i])
                    && all[t].1.document_data@ == doc && addrs_for(doc, vals)[i]
                    == all[t].1.address_data@,
        forall|t: int|
            0 <= t < all.len() && (#[trigger] all[t]).1.document_data@ == doc ==> keys_for(
                doc,
                all,
            ).contains(all[t].0),
    decreases all.len(),
{
    if all.len() > 0 {
        let front = all.drop_last();
        let front_vals = vals.drop_last();
        let last = all.last();
        assert(vals.last() == last.1);
        lemma_keys_for(doc, front, front_vals);
        let k0 = keys_for(doc, front);
        let a0 = addrs_for(doc, front_vals);
        let k = keys_for(doc, all);
        let ad = addrs_for(doc, vals);
        assert forall|i: int| 0 <= i < k.len() implies exists|t: int|
            0 <= t < all.len() && (#[trigger] all[t]).0 == (#[trigger] k[i])
                && all[t].1.document_data@ == doc && ad[i] == all[t].1.address_data@ by {
            if i < k0.len() {
                let t = choose|t: int|
                    0 <= t < front.len() && (#[trigger] front[t]).0 == k0[i]
                        && front[t].1.document_data@ == doc && a0[i] == front[t].1.address_data@;
                assert(all[t] == front[t]);
            } else {
                assert(all[all.len() - 1].0 == k[i]);
            }
        }
        assert forall|t: int|
            0 <= t < all.len() && (#[trigger] all[t]).1.document_data@ == doc implies k.contains(
            all[t].0,
        ) by {
            if t < front.len() {
                assert(front[t] == all[t]);
                assert(k0.contains(front[t].0));
                let i = choose|i: int| 0 <= i < k0.len() && k0[i] == front[t].0;
                assert(k[i] == all[t].0);
            } else {
                assert(k[k.len() - 1] == all[t].0);
            }
        }
        if last.1.document_data@ == doc {
            assert forall|i: int, j: int| 0 <= i < j < k.len() implies k[i] != k[j] by {
                if j == k.len() - 1 {
                    let t = choose|t: int|
                        0 <= t < front.len() && (#[trigger] front[t]).0 == k0[i]
                            && front[t].1.document_data@ == doc && a0[i]
                            == front[t].1.address_data@;
                    assert(all[t].0 != all[all.len() - 1].0);
                } else {
                    assert(k0[i] != k0[j]);
                }
            }
        }
    }
}

/// The reachability hints of every peer of the table that advertises
/// `doc`. The table has no order, so the order of the hints is that of
/// some list of the peers.
pub fn collect_addrs_in_table(doc: &DocumentData, peers: &HashMap<u128, PeerData>) -> (addrs: Vec<
    AddressData,
>)
    ensures
        exists|keys: Seq<u128>| is_address_collation(peers@, doc@, keys, addrs@),
{
    let all = snapshot(peers);
    let listed = peers_of(&all);
    let addrs = collect_addrs_for_doc(doc, listed.as_slice());
    proof {
        lemma_keys_for(doc@, all@, listed@);
        let keys = keys_for(doc@, all@);
        let hints = addrs_for(doc@, listed@);
        assert(addrs@.len() == views_of(addrs@).len());
        assert forall|i: int| 0 <= i < keys.len() implies peers@.contains_key(#[trigger] keys[i])
            && peers@[keys[i]].document_data@ == doc@ && addrs@[i]@
            == peers@[keys[i]].address_data@ by {
            let t = choose|t: int|
                0 <= t < all.len() && (#[trigger] all[t]).0 == keys[i] && all[t].1.document_data@
                    == doc@ && hints[i] == all[t].1.address_data@;
            assert(peers@.contains_key(all[t].0));
            assert(views_of(addrs@)[i] == addrs@[i]@);
        }
        assert forall|u: u128|
            peers@.contains_key(u) && peers@[u].document_data@ == doc@ implies #[trigger] keys.contains(
            u,
        ) by {
            let t = choose|t: int| 0 <= t < all.len() && #[trigger] all[t].0 == u;
            assert(peers@.contains_key(all[t].0));
            assert(all[t].1.document_data@ == doc@);
        }
        assert(is_address_collation(peers@, doc@, keys, addrs@));
    }
    addrs
}

} // verus!
