//! The post domain: the messages of the active document, in the order of
//! their creation.

use crate::collection::{payload_row, BlobStatus};
use crate::data::BlobHash;
use crate::nearby::model::{
    message_key, message_payload_key, spec_timestamp_text, Post, MESSAGES, MESSAGE_PAYLOADS,
};
use vstd::prelude::*;
use vstd::string::StringSliceAdditionalSpecFns;

verus! {

/// The posts are ascending by instant of creation.
pub open spec fn is_ordered(posts: Seq<Post>) -> bool {
    forall|i: int, j: int|
        0 <= i < j < posts.len() ==> posts[i].created_at.no_later(posts[j].created_at)
}

/// `post` put into `posts` behind the last post that is not later than it.
pub open spec fn sorted_insert(posts: Seq<Post>, post: Post) -> Seq<Post>
    decreases posts.len(),
{
    if posts.len() > 0 && post.created_at.earlier(posts.last().created_at) {
        sorted_insert(posts.drop_last(), post).push(posts.last())
    } else {
        posts.push(post)
    }
}

/// The posts sorted by instant of creation; posts of the same instant keep
/// the order they had.
pub open spec fn stable_sort(posts: Seq<Post>) -> Seq<Post>
    decreases posts.len(),
{
    if posts.len() == 0 {
        posts
    } else {
        sorted_insert(stable_sort(posts.drop_last()), posts.last())
    }
}

/// A post arrives out of order when it was created before the last one
/// held.
pub open spec fn is_out_of_order(posts: Seq<Post>, post: Post) -> bool {
    posts.len() > 0 && post.created_at.earlier(posts.last().created_at)
}

/// The list after the arrival of `post`: the post is appended, and where
/// it arrived out of order the whole list is sorted again.
pub open spec fn with_post(posts: Seq<Post>, post: Post) -> Seq<Post> {
    if is_out_of_order(posts, post) {
        stable_sort(posts.push(post))
    } else {
        posts.push(post)
    }
}

/// The list after the arrival of each of `arrivals` in turn.
pub open spec fn with_posts(posts: Seq<Post>, arrivals: Seq<Post>) -> Seq<Post>
    decreases arrivals.len(),
{
    if arrivals.len() == 0 {
        posts
    } else {
        with_post(with_posts(posts, arrivals.drop_last()), arrivals.last())
    }
}

pub proof fn lemma_sorted_insert_keeps(posts: Seq<Post>, post: Post)
    ensures
        sorted_insert(posts, post).len() == posts.len() + 1,
        sorted_insert(posts, post).to_multiset() == posts.to_multiset().insert(post),
        forall|i: int|
            0 <= i < posts.len() + 1 ==> #[trigger] sorted_insert(posts, post)[i] == post
                || posts.contains(sorted_insert(posts, post)[i]),
    decreases posts.len(),
{
    broadcast use vstd::seq_lib::group_to_multiset_ensures;

    if posts.len() > 0 && post.created_at.earlier(posts.last().created_at) {
        let front = posts.drop_last();
        lemma_sorted_insert_keeps(front, post);
        assert(front.push(posts.last()) =~= posts);
        let out = sorted_insert(posts, post);
        assert forall|i: int| 0 <= i < posts.len() + 1 implies #[trigger] out[i] == post
            || posts.contains(out[i]) by {
            if i < posts.len() {
                if sorted_insert(front, post)[i] != post {
                    let k = choose|k: int|
                        0 <= k < front.len() && front[k] == sorted_insert(front, post)[i];
                    assert(posts[k] == out[i]);
                }
            } else {
                assert(posts[posts.len() - 1] == out[i]);
            }
        }
    } else {
        let out = posts.push(post);
        assert forall|i: int| 0 <= i < posts.len() + 1 implies #[trigger] out[i] == post
            || posts.contains(out[i]) by {
            if i < posts.len() {
                assert(posts[i] == out[i]);
            }
        }
    }
}

/// Putting a post into an ordered list leaves it ordered.
pub proof fn lemma_sorted_insert_ordered(posts: Seq<Post>, post: Post)
    requires
        is_ordered(posts),
    ensures
        is_ordered(sorted_insert(posts, post)),
    decreases posts.len(),
{
    if posts.len() > 0 && post.created_at.earlier(posts.last().created_at) {
        let front = posts.drop_last();
        let last = posts.last();
        lemma_sorted_insert_ordered(front, post);
        lemma_sorted_insert_keeps(front, post);
        let inner = sorted_insert(front, post);
        let out = inner.push(last);
        assert forall|i: int, j: int| 0 <= i < j < out.len() implies out[i].created_at.no_later(
            out[j].created_at,
        ) by {
            if j == out.len() - 1 {
                if inner[i] != post {
                    let k = choose|k: int| 0 <= k < front.len() && front[k] == inner[i];
                    assert(posts[k].created_at.no_later(posts[posts.len() - 1].created_at));
                }
            } else {
                assert(inner[i].created_at.no_later(inner[j].created_at));
            }
        }
    } else {
        let out = posts.push(post);
        assert forall|i: int, j: int| 0 <= i < j < out.len() implies out[i].created_at.no_later(
            out[j].created_at,
        ) by {
            if j == out.len() - 1 {
                assert(posts[i].created_at.no_later(posts[posts.len() - 1].created_at));
            } else {
                assert(posts[i].created_at.no_later(posts[j].created_at));
            }
        }
    }
}

/// Sorting gives an ordered list of the same posts.
pub proof fn lemma_stable_sort_sorts(posts: Seq<Post>)
    ensures
        is_ordered(stable_sort(posts)),
        stable_sort(posts).len() == posts.len(),
        stable_sort(posts).to_multiset() == posts.to_multiset(),
    decreases posts.len(),
{
    broadcast use vstd::seq_lib::group_to_multiset_ensures;

    if posts.len() > 0 {
        let front = posts.drop_last();
        lemma_stable_sort_sorts(front);
        lemma_sorted_insert_ordered(stable_sort(front), posts.last());
        lemma_sorted_insert_keeps(stable_sort(front), posts.last());
        assert(front.push(posts.last()) =~= posts);
    }
}

/// Sorting an ordered list changes nothing.
pub proof fn lemma_stable_sort_of_ordered(posts: Seq<Post>)
    requires
        is_ordered(posts),
    ensures
        stable_sort(posts) == posts,
    decreases posts.len(),
{
    if posts.len() > 0 {
        let front = posts.drop_last();
        assert forall|i: int, j: int| 0 <= i < j < front.len() implies front[i].created_at.no_later(
            front[j].created_at,
        ) by {
            assert(posts[i].created_at.no_later(posts[j].created_at));
        }
        lemma_stable_sort_of_ordered(front);
        if front.len() > 0 {
            assert(posts[front.len() - 1].created_at.no_later(posts[posts.len() - 1].created_at));
        }
        assert(front.push(posts.last()) =~= posts);
    }
}

/// An ordered list is ordered after the arrival of a post.
pub proof fn law_arrival_keeps_order(posts: Seq<Post>, post: Post)
    requires
        is_ordered(posts),
    ensures
        is_ordered(with_post(posts, post)),
{
    if is_out_of_order(posts, post) {
        lemma_stable_sort_sorts(posts.push(post));
    } else {
        let out = posts.push(post);
        assert forall|i: int, j: int| 0 <= i < j < out.len() implies out[i].created_at.no_later(
            out[j].created_at,
        ) by {
            if j == out.len() - 1 {
                assert(posts[i].created_at.no_later(posts[posts.len() - 1].created_at));
            } else {
                assert(posts[i].created_at.no_later(posts[j].created_at));
            }
        }
    }
}

/// After any sequence of arrivals, a list that was ordered,
/// such as the empty list of a new domain, is ordered.
pub proof fn law_posts_stay_ordered(posts: Seq<Post>, arrivals: Seq<Post>)
    requires
        is_ordered(posts),
    ensures
        is_ordered(with_posts(posts, arrivals)),
    decreases arrivals.len(),
{
    if arrivals.len() > 0 {
        law_posts_stay_ordered(posts, arrivals.drop_last());
        law_arrival_keeps_order(with_posts(posts, arrivals.drop_last()), arrivals.last());
    }
}

/// What the domain reports after the arrival of a post.
#[derive(Debug)]
pub enum PostUpdate {
    /// The list was sorted again: all posts, in their new order.
    AllPosts(Vec<Post>),
    /// The post was appended: the new length of the list, and the post.
    OnePost(usize, Post),
}

/// The rows that publish a post: the key of the post itself and, where
/// the post has a payload that is complete in the blob store, the key, hash
/// and size of the row that points to the payload.
#[derive(Debug)]
pub struct PostRows {
    pub key: String,
    pub payload: Option<(String, BlobHash, u64)>,
}

/// The posts of the active document.
pub struct PostDomain {
    posts: Vec<Post>,
}

fn insert_sorted(posts: &mut Vec<Post>, post: Post)
    ensures
        final(posts)@ == sorted_insert(old(posts)@, post),
{
    let ghost start = posts@;
    let mut i: usize = posts.len();
    assert(start.take(i as int) =~= start);
    assert(start.skip(i as int) =~= Seq::<Post>::empty());
    assert(sorted_insert(start, post) =~= sorted_insert(start.take(i as int), post) + start.skip(
        i as int,
    ));
    while i > 0 && post.created_at.lt(&posts[i - 1].created_at)
        invariant
            posts@ == start,
            i <= start.len(),
            sorted_insert(start, post) == sorted_insert(start.take(i as int), post) + start.skip(
                i as int,
            ),
        decreases i,
    {
        proof {
            let head = start.take(i as int);
            assert(head.last() == start[i - 1]);
            assert(head.drop_last() =~= start.take(i - 1));
            assert(sorted_insert(head, post) == sorted_insert(start.take(i - 1), post).push(
                start[i - 1],
            ));
            assert(sorted_insert(start.take(i - 1), post).push(start[i - 1]) + start.skip(
                i as int,
            ) =~= sorted_insert(start.take(i - 1), post) + start.skip(i - 1));
        }
        i -= 1;
    }
    proof {
        let head = start.take(i as int);
        if i > 0 {
            assert(head.last() == start[i - 1]);
        }
        assert(sorted_insert(head, post) == head.push(post));
        assert(head.push(post) + start.skip(i as int) =~= start.insert(i as int, post));
    }
    posts.insert(i, post);
}

fn sort_posts(posts: &Vec<Post>) -> (sorted: Vec<Post>)
    ensures
        sorted@ == stable_sort(posts@),
{
    let mut sorted: Vec<Post> = Vec::new();
    let mut i: usize = 0;
    assert(posts@.take(0) =~= Seq::<Post>::empty());
    while i < posts.len()
        invariant
            i <= posts.len(),
            sorted@ == stable_sort(posts@.take(i as int)),
        decreases posts.len() - i,
    {
        proof {
            assert(posts@.take(i + 1).drop_last() =~= posts@.take(i as int));
            assert(posts@.take(i + 1).last() == posts[i as int]);
        }
        insert_sorted(&mut sorted, posts[i].clone());
        i += 1;
    }
    assert(posts@.take(posts.len() as int) =~= posts@);
    sorted
}

fn copy_posts(posts: &Vec<Post>) -> (copy: Vec<Post>)
    ensures
        copy@ == posts@,
{
    let mut copy: Vec<Post> = Vec::new();
    let mut i: usize = 0;
    while i < posts.len()
        invariant
            i <= posts.len(),
            copy@ == posts@.take(i as int),
        decreases posts.len() - i,
    {
        copy.push(posts[i].clone());
        assert(posts@.take(i + 1) =~= posts@.take(i as int).push(posts[i as int]));
        i += 1;
    }
    assert(posts@.take(posts.len() as int) =~= posts@);
    copy
}

/// Whether `key` begins with the bytes of `prefix`.
pub fn starts_with(key: &[u8], prefix: &[u8]) -> (yes: bool)
    ensures
        yes == prefix@.is_prefix_of(key@),
{
    if key.len() < prefix.len() {
        return false;
    }
    let mut i: usize = 0;
    while i < prefix.len()
        invariant
            i <= prefix.len(),
            prefix.len() <= key.len(),
            forall|j: int| 0 <= j < i ==> prefix[j] == key[j],
        decreases prefix.len() - i,
    {
        if prefix[i] != key[i] {
            return false;
        }
        i += 1;
    }
    assert(prefix@ =~= key@.subrange(0, prefix@.len() as int));
    true
}

impl PostDomain {
    /// The posts held, in their order.
    pub closed spec fn view(&self) -> Seq<Post> {
        self.posts@
    }

    /// A domain without posts.
    pub fn new() -> (domain: PostDomain)
        ensures
            domain@ == Seq::<Post>::empty(),
    {
        PostDomain { posts: Vec::new() }
    }

    /// Takes the posts read from the document, in the order of the query,
    /// in place of those held.
    pub fn initialize(&mut self, posts: Vec<Post>)
        ensures
            final(self)@ == posts@,
    {
        self.posts = posts;
    }

    pub fn posts(&self) -> (posts: Vec<Post>)
        ensures
            posts@ == self@,
    {
        copy_posts(&self.posts)
    }

    /// Whether a row under `key` is a post: the key begins with `messages`.
    pub fn handles(&self, key: &[u8]) -> (yes: bool)
        ensures
            yes == MESSAGES.spec_bytes().is_prefix_of(key@),
    {
        starts_with(key, MESSAGES.as_bytes())
    }

    /// The rows under which a post is published, given what the blob store
    /// says of its payload. A post whose payload is missing or incomplete is
    /// published without the row of the payload. There are no rows for a
    /// post whose instant has no text.
    pub fn create_post(&self, p: &Post, payload_status: Option<BlobStatus>) -> (rows: Option<
        PostRows,
    >)
        ensures
            match spec_timestamp_text(p.created_at.secs, p.created_at.nanos) {
                None => rows is None,
                Some(t) => rows matches Some(r) && r.key@ == MESSAGES@ + "/"@ + t && match (
                    p.payload,
                    payload_status,
                ) {
                    (Some(hash), Some(BlobStatus::Complete { size })) => r.payload matches Some(row)
                        && row.0@ == MESSAGE_PAYLOADS@ + "/"@ + t && row.1 == hash && row.2
                        == size,
                    _ => r.payload is None,
                },
            },
    {
        let key = match message_key(p) {
            Some(key) => key,
            None => {
                return None;
            },
        };
        let payload = match payload_row(p.payload, payload_status) {
            Some((hash, size)) => match message_payload_key(p) {
                Some(key) => Some((key, hash, size)),
                None => None,
            },
            None => None,
        };
        Some(PostRows { key, payload })
    }

    /// Takes in a row of the document that is a post. The caller has read
    /// the post that the row points to, and hands it over; a row whose post
    /// could not be read is passed over.
    pub fn insert_entry(&mut self, post: Option<Post>) -> (update: Option<PostUpdate>)
        ensures
            is_ordered(old(self)@) ==> is_ordered(final(self)@),
            match post {
                None => update is None && final(self)@ == old(self)@,
                Some(p) => update matches Some(u) && final(self)@ == with_post(old(self)@, p)
                    && match u {
                    PostUpdate::AllPosts(posts) => {
                        &&& is_out_of_order(old(self)@, p)
                        &&& posts@ == final(self)@
                    },
                    PostUpdate::OnePost(count, shown) => {
                        &&& !is_out_of_order(old(self)@, p)
                        &&& count == final(self)@.len()
                        &&& shown == p
                    },
                },
            },
    {
        match post {
            Some(p) => Some(self.insert_post(p)),
            None => None,
        }
    }

    /// Takes in a post that arrived. The list afterwards is
    /// `with_post` of the list before; the report is of all posts where the
    /// post arrived out of order, else of the one post and the new length.
    pub fn insert_post(&mut self, p: Post) -> (update: PostUpdate)
        ensures
            final(self)@ == with_post(old(self)@, p),
            is_ordered(old(self)@) ==> is_ordered(final(self)@),
            match update {
                PostUpdate::AllPosts(posts) => {
                    &&& is_out_of_order(old(self)@, p)
                    &&& posts@ == final(self)@
                },
                PostUpdate::OnePost(count, post) => {
                    &&& !is_out_of_order(old(self)@, p)
                    &&& count == final(self)@.len()
                    &&& post == p
                },
            },
    {
        proof {
            if is_ordered(self@) {
                law_arrival_keeps_order(self@, p);
            }
        }
        let count = self.posts.len();
        let requires_reload = count > 0 && p.created_at.lt(&self.posts[count - 1].created_at);
        if requires_reload {
            self.posts.push(p);
            let sorted = sort_posts(&self.posts);
            self.posts = sorted;
            PostUpdate::AllPosts(copy_posts(&self.posts))
        } else {
            let post = p.clone();
            self.posts.push(p);
            PostUpdate::OnePost(self.posts.len(), post)
        }
    }
}

} // verus!
