//! What the nearby service shows of the active document: the profiles of
//! its authors and the messages made of its posts.

use crate::data::{BlobHash, PublicKey};
use crate::identity::domain::{first_of, has_pk, lemma_first_of};
use crate::identity::model::Identity;
use crate::nearby::model::{
    display_msg_map, shown_text, DisplayMessage, NearbyProfile, Post, Status,
};
use crate::nearby::{Effect, NearbyServiceEvents, Ready, Service, State};
use vstd::prelude::*;

verus! {

/// `profile` shows the identity `row` with the portrait and the status kept
/// for its author; an author without a status has the empty one.
pub open spec fn is_profile_of(
    row: Identity,
    portraits: Map<PublicKey, BlobHash>,
    statuses: Map<PublicKey, Status>,
    profile: NearbyProfile,
) -> bool {
    &&& profile.pk == row.pk
    &&& profile.name == row.name
    &&& profile.pic == if portraits.contains_key(row.pk) {
        Some(portraits[row.pk])
    } else {
        None
    }
    &&& profile.status.text@ == if statuses.contains_key(row.pk) {
        statuses[row.pk].text@
    } else {
        Seq::<char>::empty()
    }
}

/// `shown` shows `post` at place `idx` of the list, to the user `me`.
pub open spec fn is_message_of(idx: int, me: PublicKey, post: Post, shown: DisplayMessage) -> bool {
    &&& shown.id == idx % 0x1_0000_0000
    &&& shown.text@ == shown_text(post)
    &&& shown.is_self == (me == post.pk)
    &&& shown.payload == post.payload
}

impl Ready {
    fn profile_of(&self, row: &Identity) -> (profile: NearbyProfile)
        requires
            self.wf(),
        ensures
            is_profile_of(*row, self.identities.portraits(), self.statuses@, profile),
    {
        let pic = match self.identities.pics().get(&row.pk) {
            Some(hash) => Some(*hash),
            None => None,
        };
        let status = match self.statuses.get(&row.pk) {
            Some(status) => status.clone(),
            None => Status { text: String::new() },
        };
        NearbyProfile { pk: row.pk, name: row.name.clone(), pic, status }
    }
}

impl Service {
    /// The profiles of the authors of the active document, in the order of
    /// their identities. `None` without a document.
    pub fn profiles(&self) -> (profiles: Option<Vec<NearbyProfile>>)
        requires
            self.wf(),
        ensures
            match self.state {
                State::Ready(r) => profiles matches Some(list) && {
                    &&& list.len() == r.identities.rows().len()
                    &&& forall|i: int|
                        0 <= i < list.len() ==> is_profile_of(
                            r.identities.rows()[i],
                            r.identities.portraits(),
                            r.statuses@,
                            #[trigger] list[i],
                        )
                },
                State::Uninitialized => profiles is None,
            },
    {
        match &self.state {
            State::Ready(r) => {
                let rows = r.identities.identities_ref();
                let mut list: Vec<NearbyProfile> = Vec::new();
                let mut i: usize = 0;
                while i < rows.len()
                    invariant
                        r.wf(),
                        rows@ == r.identities.rows(),
                        i <= rows.len(),
                        list.len() == i,
                        forall|j: int|
                            0 <= j < i ==> is_profile_of(
                                rows[j],
                                r.identities.portraits(),
                                r.statuses@,
                                #[trigger] list[j],
                            ),
                    decreases rows.len() - i,
                {
                    list.push(r.profile_of(&rows[i]));
                    i += 1;
                }
                Some(list)
            },
            State::Uninitialized => None,
        }
    }

    /// The profile of the author `pk` of the active document. `None` where
    /// the document holds no identity of that author, and without a
    /// document.
    pub fn get_profile_by_key(&self, pk: &PublicKey) -> (profile: Option<NearbyProfile>)
        requires
            self.wf(),
        ensures
            match self.state {
                State::Ready(r) => {
                    let rows = r.identities.rows();
                    if has_pk(rows, *pk) {
                        profile matches Some(p) && is_profile_of(
                            rows[first_of(rows, *pk)],
                            r.identities.portraits(),
                            r.statuses@,
                            p,
                        )
                    } else {
                        profile is None
                    }
                },
                State::Uninitialized => profile is None,
            },
    {
        match &self.state {
            State::Ready(r) => {
                let rows = r.identities.identities_ref();
                proof {
                    lemma_first_of(rows@, *pk);
                }
                let mut i: usize = 0;
                while i < rows.len()
                    invariant
                        self.state is Ready,
                        self.state->Ready_0 == *r,
                        r.wf(),
                        rows@ == r.identities.rows(),
                        i <= rows.len(),
                        forall|j: int| 0 <= j < i ==> (#[trigger] rows[j]).pk != *pk,
                        i <= first_of(rows@, *pk),
                    decreases rows.len() - i,
                {
                    proof {
                        lemma_first_of(rows@, *pk);
                    }
                    if rows[i].pk == *pk {
                        proof {
                            assert(rows@[i as int].pk == *pk);
                            assert(has_pk(rows@, *pk));
                            assert(first_of(rows@, *pk) == i);
                        }
                        return Some(r.profile_of(&rows[i]));
                    }
                    i += 1;
                }
                proof {
                    lemma_first_of(rows@, *pk);
                }
                None
            },
            State::Uninitialized => None,
        }
    }

    /// The messages of the posts of the active document, in their order, as
    /// shown to the user `me`. There are none without a document.
    pub fn all_messages(&self, me: &PublicKey) -> (messages: Vec<DisplayMessage>)
        ensures
            match self.state {
                State::Ready(r) => {
                    &&& messages.len() == r.messages@.len()
                    &&& forall|i: int|
                        0 <= i < messages.len() ==> is_message_of(
                            i,
                            *me,
                            r.messages@[i],
                            #[trigger] messages[i],
                        )
                },
                State::Uninitialized => messages.len() == 0,
            },
    {
        let mut messages: Vec<DisplayMessage> = Vec::new();
        match &self.state {
            State::Ready(r) => {
                let mut posts = r.messages.posts();
                let ghost all = posts@;
                let mut taken: Vec<DisplayMessage> = Vec::new();
                // The posts are taken from the end, and the messages turned round after.
                while posts.len() > 0
                    invariant
                        posts.len() <= all.len(),
                        posts@ == all.take(posts.len() as int),
                        taken.len() == all.len() - posts.len(),
                        forall|k: int|
                            0 <= k < taken.len() ==> is_message_of(
                                all.len() - 1 - k,
                                *me,
                                all[all.len() - 1 - k],
                                #[trigger] taken[k],
                            ),
                    decreases posts.len(),
                {
                    let idx = posts.len() - 1;
                    let post = posts.pop().unwrap();
                    assert(post == all[idx as int]);
                    taken.push(display_msg_map(idx, me, post));
                    assert(posts@ =~= all.take(posts.len() as int));
                }
                while taken.len() > 0
                    invariant
                        taken.len() + messages.len() == all.len(),
                        forall|i: int|
                            0 <= i < messages.len() ==> is_message_of(
                                i,
                                *me,
                                all[i],
                                #[trigger] messages[i],
                            ),
                        forall|k: int|
                            0 <= k < taken.len() ==> is_message_of(
                                all.len() - 1 - k,
                                *me,
                                all[all.len() - 1 - k],
                                #[trigger] taken[k],
                            ),
                    decreases taken.len(),
                {
                    let ghost k = taken.len() - 1;
                    let shown = taken.pop().unwrap();
                    assert(is_message_of(all.len() - 1 - k, *me, all[all.len() - 1 - k], shown));
                    messages.push(shown);
                }
                messages
            },
            State::Uninitialized => messages,
        }
    }
}

impl Service {
    /// What the listeners are told for an effect that is an announcement,
    /// as the user `me` is to see it. There is nothing to tell for an effect
    /// of another kind, for the profiles of a service without a document,
    /// and for a message at a place where no post is held.
    pub fn event_for(&self, effect: Effect, me: &PublicKey) -> (event: Option<NearbyServiceEvents>)
        requires
            self.wf(),
        ensures
            match effect {
                Effect::EmitBroadcasting(on) => event matches Some(
                    NearbyServiceEvents::BroadcastingUpdated(b),
                ) && b == on,
                Effect::EmitDocData(data) => event matches Some(
                    NearbyServiceEvents::DocDataUpdated(d),
                ) && d == data,
                Effect::EmitBio(pk) => event matches Some(NearbyServiceEvents::BioUpdated(p)) && p
                    == pk,
                Effect::EmitConState(state) => event matches Some(
                    NearbyServiceEvents::ConStateUpdated(s),
                ) && s == state,
                Effect::EmitIdentities => match self.state {
                    State::Ready(r) => event matches Some(
                        NearbyServiceEvents::IdentitiesUpdated(list),
                    ) && {
                        &&& list.len() == r.identities.rows().len()
                        &&& forall|i: int|
                            0 <= i < list.len() ==> is_profile_of(
                                r.identities.rows()[i],
                                r.identities.portraits(),
                                r.statuses@,
                                #[trigger] list[i],
                            )
                    },
                    State::Uninitialized => event is None,
                },
                Effect::EmitAllMessages => event matches Some(
                    NearbyServiceEvents::AllMessagesUpdated(messages),
                ) && match self.state {
                    State::Ready(r) => {
                        &&& messages.len() == r.messages@.len()
                        &&& forall|i: int|
                            0 <= i < messages.len() ==> is_message_of(
                                i,
                                *me,
                                r.messages@[i],
                                #[trigger] messages[i],
                            )
                    },
                    State::Uninitialized => messages.len() == 0,
                },
                Effect::EmitOneMessage(count) => match self.state {
                    State::Ready(r) => if 0 < count <= r.messages@.len() {
                        event matches Some(NearbyServiceEvents::ReceivedOneNewMessage(shown))
                            && is_message_of(count - 1, *me, r.messages@[count - 1], shown)
                    } else {
                        event is None
                    },
                    State::Uninitialized => event is None,
                },
                _ => event is None,
            },
    {
        match effect {
            Effect::EmitBroadcasting(on) => Some(NearbyServiceEvents::BroadcastingUpdated(on)),
            Effect::EmitDocData(data) => Some(NearbyServiceEvents::DocDataUpdated(data)),
            Effect::EmitBio(pk) => Some(NearbyServiceEvents::BioUpdated(pk)),
            Effect::EmitConState(state) => Some(NearbyServiceEvents::ConStateUpdated(state)),
            Effect::EmitIdentities => match self.profiles() {
                Some(list) => Some(NearbyServiceEvents::IdentitiesUpdated(list)),
                None => None,
            },
            Effect::EmitAllMessages => Some(
                NearbyServiceEvents::AllMessagesUpdated(self.all_messages(me)),
            ),
            Effect::EmitOneMessage(count) => match &self.state {
                State::Ready(r) => {
                    let mut posts = r.messages.posts();
                    if 0 < count && count <= posts.len() {
                        posts.truncate(count);
                        let post = posts.pop().unwrap();
                        Some(
                            NearbyServiceEvents::ReceivedOneNewMessage(
                                one_post_message(count, me, post),
                            ),
                        )
                    } else {
                        None
                    }
                },
                State::Uninitialized => None,
            },
            _ => None,
        }
    }
}

/// The message of the post that was appended last, where `count` posts are
/// held now.
pub fn one_post_message(count: usize, me: &PublicKey, post: Post) -> (shown: DisplayMessage)
    requires
        count > 0,
    ensures
        is_message_of(count - 1, *me, post, shown),
{
    display_msg_map(count - 1, me, post)
}

} // verus!
