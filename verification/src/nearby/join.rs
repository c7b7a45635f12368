//! From the choice of the selector to a ticket that can be joined: the
//! capability of the chosen document is read, and the addresses that the
//! peers advertise for it are taken apart and put together in one list.

use crate::data::WideId;
use vstd::prelude::*;

verus! {

/// The namespace of the document that capability bytes give access to; none
/// for bytes that are no capability. Stands for what `postcard::from_bytes`
/// makes of the bytes as an `iroh_docs::Capability`, and for the `id` of
/// that capability.
pub uninterp spec fn spec_capability_namespace(bytes: Seq<u8>) -> Option<Seq<u8>>;

/// The node addresses that address bytes hold, each as the bytes that
/// `postcard` writes for it; none for bytes that are no list of node
/// addresses. Stands for what `postcard::from_bytes` makes of the bytes as
/// a `Vec<iroh_base::node_addr::NodeAddr>`.
pub uninterp spec fn spec_address_list(bytes: Seq<u8>) -> Option<Seq<Seq<u8>>>;

/// Calls `postcard::from_bytes` to read the bytes as an
/// `iroh_docs::Capability`, and `Capability::id` for its namespace. Both
/// are believed to depend on the bytes alone.
#[verifier::external_body]
fn capability_namespace(bytes: &Vec<u8>) -> (namespace: Option<[u8; 32]>)
    ensures
        match namespace {
            Some(id) => spec_capability_namespace(bytes@) == Some(id@),
            None => spec_capability_namespace(bytes@) is None,
        },
{
    match postcard::from_bytes::<iroh_docs::Capability>(bytes.as_slice()) {
        Ok(capability) => Some(capability.id().to_bytes()),
        Err(_) => None,
    }
}

/// Calls `postcard::from_bytes` to read the bytes as a list of
/// `iroh_base::node_addr::NodeAddr`, and `postcard::to_stdvec` to write each
/// address of the list on its own. Both are believed to depend on their
/// argument alone.
#[verifier::external_body]
fn address_list(bytes: &Vec<u8>) -> (nodes: Option<Vec<Vec<u8>>>)
    ensures
        match nodes {
            Some(list) => spec_address_list(bytes@) == Some(views_of(list@)),
            None => spec_address_list(bytes@) is None,
        },
{
    let list = postcard::from_bytes::<Vec<iroh_base::node_addr::NodeAddr>>(bytes.as_slice()).ok()?;
    let mut nodes = Vec::new();
    for node in list.iter() {
        nodes.push(postcard::to_stdvec(node).ok()?);
    }
    Some(nodes)
}

/// The byte strings of a list, as values.
pub open spec fn views_of(list: Seq<Vec<u8>>) -> Seq<Seq<u8>> {
    Seq::new(list.len(), |i: int| list[i]@)
}

/// The node addresses of all the address bytes, in their order, in one
/// list; none where some of the address bytes hold no list of node
/// addresses.
pub open spec fn collated(addresses: Seq<Seq<u8>>) -> Option<Seq<Seq<u8>>>
    decreases addresses.len(),
{
    if addresses.len() == 0 {
        Some(Seq::empty())
    } else {
        match (collated(addresses.drop_last()), spec_address_list(addresses.last())) {
            (Some(front), Some(last)) => Some(front + last),
            _ => None,
        }
    }
}

/// Takes the address bytes of each peer apart and puts the node addresses
/// together in one list.
pub fn collate_nodes(addresses: &Vec<Vec<u8>>) -> (nodes: Option<Vec<Vec<u8>>>)
    ensures
        match nodes {
            Some(list) => collated(views_of(addresses@)) == Some(views_of(list@)),
            None => collated(views_of(addresses@)) is None,
        },
{
    let mut nodes: Vec<Vec<u8>> = Vec::new();
    let ghost all = views_of(addresses@);
    let mut i: usize = 0;
    assert(all.take(0) =~= Seq::<Seq<u8>>::empty());
    assert(views_of(nodes@) =~= Seq::<Seq<u8>>::empty());
    while i < addresses.len()
        invariant
            i <= addresses.len(),
            all == views_of(addresses@),
            collated(all.take(i as int)) == Some(views_of(nodes@)),
        decreases addresses.len() - i,
    {
        proof {
            assert(all.take(i + 1).drop_last() =~= all.take(i as int));
            assert(all.take(i + 1).last() == addresses[i as int]@);
        }
        match address_list(&addresses[i]) {
            Some(mut list) => {
                let ghost before = nodes@;
                let ghost added = list@;
                nodes.append(&mut list);
                assert(views_of(nodes@) =~= views_of(before) + views_of(added));
            },
            None => {
                proof {
                    lemma_collated_fails(all, i as int);
                }
                return None;
            },
        }
        i += 1;
    }
    assert(all.take(addresses.len() as int) =~= all);
    Some(nodes)
}

/// Where the address bytes at one place hold no list, the whole has none.
proof fn lemma_collated_fails(addresses: Seq<Seq<u8>>, at: int)
    requires
        0 <= at < addresses.len(),
        spec_address_list(addresses[at]) is None,
    ensures
        collated(addresses) is None,
    decreases addresses.len(),
{
    if at < addresses.len() - 1 {
        lemma_collated_fails(addresses.drop_last(), at);
    }
}

/// What the selector makes of the peers that the radio has seen.
#[derive(Debug)]
pub enum JoinDecision {
    /// The choice is the node's own document: it stays.
    Stay,
    /// The node is to join the document with these capability bytes, in
    /// this namespace, at these nodes. `addresses` are the address bytes of
    /// the peers that advertise the document, which `nodes` were taken
    /// from.
    Join {
        document_data: Vec<u8>,
        namespace: WideId,
        addresses: Vec<Vec<u8>>,
        nodes: Vec<Vec<u8>>,
    },
    /// The choice is another document, but its capability bytes, or the
    /// address bytes of a peer that advertises it, cannot be read: the node
    /// stays.
    Unreadable { document_data: Vec<u8>, addresses: Vec<Vec<u8>> },
}

/// Whether a chosen document can be joined: its capability can be read and
/// so can the addresses of all its peers.
pub open spec fn is_joinable(document_data: Seq<u8>, addresses: Seq<Seq<u8>>) -> bool {
    spec_capability_namespace(document_data) is Some && collated(addresses) is Some
}

/// The decision on a document that the selector chose in place of the node's
/// own, given what was read from its capability bytes and from the address
/// bytes of its peers.
pub fn plan_join(
    document_data: Vec<u8>,
    addresses: Vec<Vec<u8>>,
    namespace: Option<[u8; 32]>,
    nodes: Option<Vec<Vec<u8>>>,
) -> (decision: JoinDecision)
    ensures
        match (namespace, nodes) {
            (Some(id), Some(list)) => decision matches JoinDecision::Join {
                document_data: d,
                namespace: n,
                addresses: a,
                nodes: found,
            } && d == document_data && n.bytes() == id@ && a == addresses && found == list,
            _ => decision == (JoinDecision::Unreadable { document_data, addresses }),
        },
{
    match (namespace, nodes) {
        (Some(id), Some(list)) => JoinDecision::Join {
            document_data,
            namespace: WideId::from_bytes(id),
            addresses,
            nodes: list,
        },
        _ => JoinDecision::Unreadable { document_data, addresses },
    }
}

/// Reads the capability of a chosen document and the addresses of its
/// peers, and decides whether the node can join it.
pub fn decide_join(document_data: Vec<u8>, addresses: Vec<Vec<u8>>) -> (decision: JoinDecision)
    ensures
        match decision {
            JoinDecision::Join { document_data: d, namespace, addresses: a, nodes } => {
                &&& d == document_data
                &&& a == addresses
                &&& spec_capability_namespace(document_data@) == Some(namespace.bytes())
                &&& collated(views_of(addresses@)) == Some(views_of(nodes@))
            },
            JoinDecision::Unreadable { document_data: d, addresses: a } => {
                &&& d == document_data
                &&& a == addresses
                &&& !is_joinable(document_data@, views_of(addresses@))
            },
            JoinDecision::Stay => false,
        },
{
    let namespace = capability_namespace(&document_data);
    let nodes = collate_nodes(&addresses);
    plan_join(document_data, addresses, namespace, nodes)
}

} // verus!
