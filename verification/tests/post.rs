use libgossip::data::WideId;
use libgossip::nearby::model::{
    display_msg_map, message_key, message_payload_key, Post, Timestamp,
};
use libgossip::collection::BlobStatus;
use libgossip::nearby::post::{starts_with, PostDomain, PostUpdate};
use libgossip::nearby::profiles::one_post_message;

fn author(byte: u8) -> WideId {
    WideId::from_bytes([byte; 32])
}

fn post_at(byte: u8, secs: i64, nanos: u32, body: &str) -> Post {
    Post::at(author(byte), Timestamp { secs, nanos }).body(String::from(body))
}

fn stamps(domain: &PostDomain) -> Vec<(i64, u32)> {
    domain.posts().iter().map(|p| (p.created_at.secs, p.created_at.nanos)).collect()
}

#[test]
fn a_new_domain_is_empty() {
    assert!(PostDomain::new().posts().is_empty());
}

#[test]
fn posts_in_order_are_appended() {
    let mut domain = PostDomain::new();
    match domain.insert_post(post_at(1, 10, 0, "a")) {
        PostUpdate::OnePost(count, post) => {
            assert_eq!(count, 1);
            assert_eq!(post, post_at(1, 10, 0, "a"));
        }
        PostUpdate::AllPosts(_) => panic!("the first post is in order"),
    }
    match domain.insert_post(post_at(2, 10, 0, "b")) {
        PostUpdate::OnePost(count, _) => assert_eq!(count, 2),
        PostUpdate::AllPosts(_) => panic!("a post of the same instant is in order"),
    }
    assert_eq!(stamps(&domain), vec![(10, 0), (10, 0)]);
    assert_eq!(domain.posts()[0].pk, author(1));
    assert_eq!(domain.posts()[1].pk, author(2));
}

#[test]
fn a_post_under_skew_sorts_all_posts() {
    // X posts at 100, Y at 90; X sees its own post first.
    let mut domain = PostDomain::new();
    domain.insert_post(post_at(b'X', 100, 0, "x"));
    match domain.insert_post(post_at(b'Y', 90, 0, "y")) {
        PostUpdate::AllPosts(posts) => {
            assert_eq!(posts.len(), 2);
            assert_eq!(posts[0], post_at(b'Y', 90, 0, "y"));
            assert_eq!(posts[1], post_at(b'X', 100, 0, "x"));
        }
        PostUpdate::OnePost(_, _) => panic!("the post arrived out of order"),
    }
    assert_eq!(stamps(&domain), vec![(90, 0), (100, 0)]);
}

#[test]
fn nanoseconds_break_ties_of_seconds() {
    let mut domain = PostDomain::new();
    domain.insert_post(post_at(1, 5, 900, "late"));
    domain.insert_post(post_at(1, 5, 100, "early"));
    assert_eq!(stamps(&domain), vec![(5, 100), (5, 900)]);
}

#[test]
fn sorting_keeps_the_order_of_equal_instants() {
    let mut domain = PostDomain::new();
    domain.insert_post(post_at(1, 50, 0, "first at 50"));
    domain.insert_post(post_at(2, 50, 0, "second at 50"));
    domain.insert_post(post_at(3, 70, 0, "at 70"));
    domain.insert_post(post_at(4, 50, 0, "third at 50"));
    let posts = domain.posts();
    let authors: Vec<WideId> = posts.iter().map(|p| p.pk).collect();
    assert_eq!(authors, vec![author(1), author(2), author(4), author(3)]);
}

#[test]
fn many_arrivals_end_in_order() {
    let mut domain = PostDomain::new();
    let arrivals: [i64; 9] = [5, 3, 8, 1, 9, 2, 7, 7, 0];
    for (i, secs) in arrivals.iter().enumerate() {
        domain.insert_post(post_at(i as u8, *secs, 0, ""));
    }
    let seen: Vec<i64> = domain.posts().iter().map(|p| p.created_at.secs).collect();
    assert_eq!(seen, vec![0, 1, 2, 3, 5, 7, 7, 8, 9]);
}

#[test]
fn initialize_takes_the_posts_as_read() {
    let mut domain = PostDomain::new();
    domain.insert_post(post_at(1, 1, 0, "old"));
    domain.initialize(vec![post_at(2, 20, 0, "a"), post_at(3, 30, 0, "b")]);
    assert_eq!(stamps(&domain), vec![(20, 0), (30, 0)]);
}

#[test]
fn the_domain_handles_keys_of_posts() {
    let domain = PostDomain::new();
    assert!(domain.handles(b"messages/2015-05-15 00:00:00 UTC"));
    assert!(domain.handles(b"messages"));
    assert!(!domain.handles(b"message_payloads/2015-05-15 00:00:00 UTC"));
    assert!(!domain.handles(b"identity"));
    assert!(!domain.handles(b""));
}

#[test]
fn prefixes_of_keys() {
    assert!(starts_with(b"abc", b""));
    assert!(starts_with(b"abc", b"ab"));
    assert!(starts_with(b"abc", b"abc"));
    assert!(!starts_with(b"abc", b"abcd"));
    assert!(!starts_with(b"abc", b"b"));
}

#[test]
fn keys_of_posts_hold_the_instant() {
    let post = Post::at(author(1), Timestamp { secs: 1431648000, nanos: 0 });
    assert_eq!(message_key(&post), Some(String::from("messages/2015-05-15 00:00:00 UTC")));
    assert_eq!(
        message_payload_key(&post),
        Some(String::from("message_payloads/2015-05-15 00:00:00 UTC"))
    );
}

#[test]
fn keys_of_posts_hold_the_fraction_of_a_second() {
    let post = Post::at(author(1), Timestamp { secs: 1431648000, nanos: 500_000_000 });
    assert_eq!(message_key(&post), Some(String::from("messages/2015-05-15 00:00:00.500 UTC")));
}

#[test]
fn an_instant_out_of_the_calendar_has_no_key() {
    let post = Post::at(author(1), Timestamp { secs: i64::MAX, nanos: 0 });
    assert_eq!(message_key(&post), None);
    let post = Post::at(author(1), Timestamp { secs: 0, nanos: 2_000_000_000 });
    assert_eq!(message_payload_key(&post), None);
}

#[test]
fn instants_are_compared_by_seconds_then_nanoseconds() {
    let a = Timestamp { secs: 1, nanos: 999 };
    let b = Timestamp { secs: 2, nanos: 0 };
    assert!(a.lt(&b));
    assert!(!b.lt(&a));
    assert!(!a.lt(&a));
    assert!(Timestamp { secs: -5, nanos: 0 }.lt(&Timestamp { secs: -5, nanos: 1 }));
}

#[test]
fn the_clock_does_not_run_backwards_by_much() {
    let first = Timestamp::now();
    let second = Timestamp::now();
    assert!(first.secs > 1_600_000_000);
    assert!(second.secs >= first.secs - 1);
    assert!(Timestamp::now().text().is_some());
}

#[test]
fn a_new_post_is_empty() {
    let post = Post::new(author(7));
    assert_eq!(post.pk, author(7));
    assert_eq!(post.title, None);
    assert_eq!(post.body, None);
    assert_eq!(post.payload, None);
}

#[test]
fn a_new_post_has_a_key() {
    let post = Post::new(author(7));
    assert!(post.created_at.secs > 1_600_000_000);
    let text = post.created_at.text().unwrap();
    assert_eq!(message_key(&post), Some(format!("messages/{text}")));
    assert_eq!(message_payload_key(&post), Some(format!("message_payloads/{text}")));
}

#[test]
fn a_post_is_built_step_by_step() {
    let post = Post::at(author(7), Timestamp { secs: 3, nanos: 4 })
        .title("t")
        .body(String::from("b"))
        .payload(Some(author(9)));
    assert_eq!(post.title, Some(String::from("t")));
    assert_eq!(post.body, Some(String::from("b")));
    assert_eq!(post.payload, Some(author(9)));
    assert_eq!(post.created_at, Timestamp { secs: 3, nanos: 4 });
    assert_eq!(post.clone(), post);
}

#[test]
fn a_message_shows_the_body_of_its_post() {
    let post = post_at(1, 0, 0, "hello").payload(Some(author(3)));
    let shown = display_msg_map(4, &author(1), post);
    assert_eq!(shown.id, 4);
    assert_eq!(shown.text, "hello");
    assert!(shown.is_self);
    assert_eq!(shown.payload, Some(author(3)));
}

#[test]
fn a_message_of_a_post_without_body_is_empty() {
    let shown = display_msg_map(0, &author(2), Post::at(author(1), Timestamp { secs: 0, nanos: 0 }));
    assert_eq!(shown.text, "");
    assert!(!shown.is_self);
    assert_eq!(shown.payload, None);
}

#[test]
fn the_number_of_a_message_is_cut_to_32_bits() {
    let shown = display_msg_map(0x1_0000_0005, &author(1), post_at(1, 0, 0, ""));
    assert_eq!(shown.id, 5);
}

#[test]
fn the_message_of_the_last_post_has_the_last_place() {
    let shown = one_post_message(3, &author(1), post_at(2, 0, 0, "third"));
    assert_eq!(shown.id, 2);
    assert_eq!(shown.text, "third");
    assert!(!shown.is_self);
}

#[test]
fn a_post_is_published_under_its_key() {
    let domain = PostDomain::new();
    let post = Post::at(author(1), Timestamp { secs: 1431648000, nanos: 0 });
    let rows = domain.create_post(&post, None).unwrap();
    assert_eq!(rows.key, "messages/2015-05-15 00:00:00 UTC");
    assert_eq!(rows.payload, None);
}

#[test]
fn a_complete_payload_is_pointed_to() {
    let domain = PostDomain::new();
    let post =
        Post::at(author(1), Timestamp { secs: 1431648000, nanos: 0 }).payload(Some(author(9)));
    let rows = domain.create_post(&post, Some(BlobStatus::Complete { size: 77 })).unwrap();
    assert_eq!(rows.key, "messages/2015-05-15 00:00:00 UTC");
    assert_eq!(
        rows.payload,
        Some((String::from("message_payloads/2015-05-15 00:00:00 UTC"), author(9), 77))
    );
}

#[test]
fn an_incomplete_payload_is_left_out() {
    let domain = PostDomain::new();
    let post =
        Post::at(author(1), Timestamp { secs: 1431648000, nanos: 0 }).payload(Some(author(9)));
    for status in [BlobStatus::NotFound, BlobStatus::Partial { known_size: Some(3) }] {
        let rows = domain.create_post(&post, Some(status)).unwrap();
        assert_eq!(rows.key, "messages/2015-05-15 00:00:00 UTC");
        assert_eq!(rows.payload, None);
    }
}

#[test]
fn a_post_out_of_the_calendar_is_not_published() {
    let domain = PostDomain::new();
    let post = Post::at(author(1), Timestamp { secs: i64::MIN, nanos: 0 });
    assert!(domain.create_post(&post, None).is_none());
}

#[test]
fn a_row_of_a_post_is_taken_in() {
    let mut domain = PostDomain::new();
    assert!(matches!(
        domain.insert_entry(Some(post_at(1, 10, 0, "a"))),
        Some(PostUpdate::OnePost(1, _))
    ));
    assert!(matches!(
        domain.insert_entry(Some(post_at(2, 5, 0, "b"))),
        Some(PostUpdate::AllPosts(_))
    ));
    assert!(domain.insert_entry(None).is_none());
    assert_eq!(stamps(&domain), vec![(5, 0), (10, 0)]);
}
