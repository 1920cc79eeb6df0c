//! Laws of the topic registry.

use crate::events::Event;
use crate::registry::{after_create, after_event, after_rename, after_status, chat_ids, chats_of_rows, is_called, lemma_topics_of_rows, resolves_to, thread_ids, topic_at, topics_in, topics_of_rows, Chats, Topic, TopicEntry, TopicStatus, Topics};
use crate::str_map::ascending;
use crate::text::{before, folded, lemma_before_asymmetric, lemma_before_irreflexive, lemma_before_total, lower_char, lowered, trimmed};
use vstd::prelude::*;
use vstd::utf8::is_ascii_chars;

verus! {

/// A service event touches the topic that it is about and no other.
pub proof fn law_event_touches_one_topic(
    chats: Chats,
    chat: Seq<char>,
    event: Event,
    now: u64,
    other_chat: Seq<char>,
    other_thread: Seq<char>,
)
    requires
        other_chat != chat || other_thread != event.thread(),
    ensures
        topic_at(after_event(chats, chat, event, now), other_chat, other_thread) == topic_at(
            chats,
            other_chat,
            other_thread,
        ),
{
}

/// A create, a rename and a change of status touch the topic that they name and no other.
pub proof fn law_update_touches_one_topic(
    chats: Chats,
    chat: Seq<char>,
    thread: Seq<char>,
    name: Seq<char>,
    purpose: Option<Seq<char>>,
    status: TopicStatus,
    now: u64,
    other_chat: Seq<char>,
    other_thread: Seq<char>,
)
    requires
        other_chat != chat || other_thread != thread,
    ensures
        topic_at(after_create(chats, chat, thread, name, purpose, now), other_chat, other_thread)
            == topic_at(chats, other_chat, other_thread),
        topic_at(after_rename(chats, chat, thread, name, now), other_chat, other_thread)
            == topic_at(chats, other_chat, other_thread),
        topic_at(after_status(chats, chat, thread, status, now), other_chat, other_thread)
            == topic_at(chats, other_chat, other_thread),
{
}

/// No service event removes a topic or changes its time of creation.
pub proof fn law_event_keeps_topics_and_creation_times(
    chats: Chats,
    chat: Seq<char>,
    event: Event,
    now: u64,
    any_chat: Seq<char>,
    any_thread: Seq<char>,
)
    requires
        topic_at(chats, any_chat, any_thread) is Some,
    ensures
        topic_at(after_event(chats, chat, event, now), any_chat, any_thread) is Some,
        topic_at(after_event(chats, chat, event, now), any_chat, any_thread)->0.created_at
            == topic_at(chats, any_chat, any_thread)->0.created_at,
{
}

/// A create, a rename and a change of status remove no topic and keep every time of creation.
pub proof fn law_update_keeps_topics_and_creation_times(
    chats: Chats,
    chat: Seq<char>,
    thread: Seq<char>,
    name: Seq<char>,
    purpose: Option<Seq<char>>,
    status: TopicStatus,
    now: u64,
    any_chat: Seq<char>,
    any_thread: Seq<char>,
)
    requires
        topic_at(chats, any_chat, any_thread) is Some,
    ensures
        ({
            let was = topic_at(chats, any_chat, any_thread)->0;
            let created = after_create(chats, chat, thread, name, purpose, now);
            let renamed = after_rename(chats, chat, thread, name, now);
            let set = after_status(chats, chat, thread, status, now);
            &&& topic_at(created, any_chat, any_thread) matches Some(t) && t.created_at
                == was.created_at
            &&& topic_at(renamed, any_chat, any_thread) matches Some(t) && t.created_at
                == was.created_at
            &&& topic_at(set, any_chat, any_thread) matches Some(t) && t.created_at
                == was.created_at
        }),
{
}

/// A service event bumps the time of its topic, except an edit that brings no name,
/// which changes nothing at all.
pub proof fn law_event_bumps_updated_at(chats: Chats, chat: Seq<char>, event: Event, now: u64)
    ensures
        match event {
            Event::Edited { name: None, .. } => after_event(chats, chat, event, now) == chats,
            _ => topic_at(after_event(chats, chat, event, now), chat, event.thread()) matches Some(
                t,
            ) && t.updated_at == now,
        },
{
}

/// A topic that was never seen before gets the time of the event as its time of creation.
pub proof fn law_new_topic_is_created_now(chats: Chats, chat: Seq<char>, event: Event, now: u64)
    requires
        topic_at(chats, chat, event.thread()) is None,
        after_event(chats, chat, event, now) != chats,
    ensures
        topic_at(after_event(chats, chat, event, now), chat, event.thread()) matches Some(t)
            && t.created_at == now && t.updated_at == now && t.purpose is None,
{
}

/// Service events leave the purpose of a tracked topic alone.
pub proof fn law_event_keeps_purpose(chats: Chats, chat: Seq<char>, event: Event, now: u64)
    requires
        topic_at(chats, chat, event.thread()) is Some,
    ensures
        topic_at(after_event(chats, chat, event, now), chat, event.thread()) matches Some(t)
            && t.purpose == topic_at(chats, chat, event.thread())->0.purpose,
{
}

/// Closing a topic and opening it again leaves it open and otherwise as it was, but for
/// the time of the update.
pub proof fn law_close_then_reopen(
    chats: Chats,
    chat: Seq<char>,
    thread_id: Seq<char>,
    closed_at: u64,
    reopened_at: u64,
)
    requires
        topic_at(chats, chat, thread_id) is Some,
    ensures
        ({
            let closed = after_event(chats, chat, Event::Closed { thread_id }, closed_at);
            let reopened = after_event(closed, chat, Event::Reopened { thread_id }, reopened_at);
            let was = topic_at(chats, chat, thread_id)->0;
            &&& topic_at(closed, chat, thread_id) == Some(
                Topic { status: TopicStatus::Closed, updated_at: closed_at, ..was },
            )
            &&& topic_at(reopened, chat, thread_id) == Some(
                Topic { status: TopicStatus::Open, updated_at: reopened_at, ..was },
            )
        }),
{
}

/// An event that is delivered twice at one time does what it does once.
pub proof fn law_event_twice_is_once(chats: Chats, chat: Seq<char>, event: Event, now: u64)
    ensures
        after_event(after_event(chats, chat, event, now), chat, event, now) == after_event(
            chats,
            chat,
            event,
            now,
        ),
{
    let once = after_event(chats, chat, event, now);
    let twice = after_event(once, chat, event, now);
    if once != chats {
        assert(topics_in(twice, chat) =~= topics_in(once, chat));
        assert(twice =~= once);
    }
}

/// The case of a name, and white space around it, play no part in what it resolves to.
pub proof fn law_resolution_ignores_case_and_blanks(
    topics: Topics,
    name: Seq<char>,
    spelling: Seq<char>,
    thread: Option<Seq<char>>,
)
    requires
        folded(trimmed(name)) == folded(trimmed(spelling)),
    ensures
        resolves_to(topics, name, thread) == resolves_to(topics, spelling, thread),
{
    if resolves_to(topics, name, thread) {
        assert(resolves_to(topics, spelling, thread));
    }
    if resolves_to(topics, spelling, thread) {
        assert(resolves_to(topics, name, thread));
    }
}

/// Two spellings of an ASCII name that differ in the case of letters resolve alike.
pub proof fn law_resolution_ignores_ascii_case(
    topics: Topics,
    name: Seq<char>,
    spelling: Seq<char>,
    thread: Option<Seq<char>>,
)
    requires
        is_ascii_chars(trimmed(name)),
        lowered(trimmed(name)) == lowered(trimmed(spelling)),
    ensures
        resolves_to(topics, name, thread) == resolves_to(topics, spelling, thread),
{
    let (a, b) = (trimmed(name), trimmed(spelling));
    assert(is_ascii_chars(b)) by {
        assert(lowered(a).len() == a.len() && lowered(b).len() == b.len());
        assert forall|i: int| 0 <= i < b.len() implies '\0' <= #[trigger] b[i] <= '\u{7f}' by {
            assert(lowered(a)[i] == lower_char(a[i]));
            assert(lowered(b)[i] == lower_char(b[i]));
            assert('\0' <= a[i] <= '\u{7f}');
        }
    }
    law_resolution_ignores_case_and_blanks(topics, name, spelling, thread);
}

/// A name resolves to one thing.
pub proof fn law_resolution_is_unique(
    topics: Topics,
    name: Seq<char>,
    a: Option<Seq<char>>,
    b: Option<Seq<char>>,
)
    requires
        resolves_to(topics, name, a),
        resolves_to(topics, name, b),
    ensures
        a == b,
{
    if a is Some && b is Some {
        lemma_before_total(a->0, b->0);
    }
}

/// A topic that was created under a name without white space around it is found by
/// that name: the name resolves to this topic or to an earlier one that is called the
/// same.
pub proof fn law_created_topic_is_found(
    chats: Chats,
    chat: Seq<char>,
    thread: Seq<char>,
    name: Seq<char>,
    purpose: Option<Seq<char>>,
    now: u64,
    found: Option<Seq<char>>,
)
    requires
        trimmed(name) == name,
        resolves_to(
            topics_in(after_create(chats, chat, thread, name, purpose, now), chat),
            name,
            found,
        ),
    ensures
        found is Some,
        found == Some(thread) || before(found->0, thread),
{
    let topics = topics_in(after_create(chats, chat, thread, name, purpose, now), chat);
    assert(topics.contains_key(thread) && is_called(topics[thread], name));
    if found is Some {
        lemma_before_total(found->0, thread);
    }
}

/// A topic that was renamed to a name without white space around it is found by that
/// name: the name resolves to this topic or to an earlier one that is called the same.
pub proof fn law_renamed_topic_is_found(
    chats: Chats,
    chat: Seq<char>,
    thread: Seq<char>,
    name: Seq<char>,
    now: u64,
    found: Option<Seq<char>>,
)
    requires
        trimmed(name) == name,
        resolves_to(topics_in(after_rename(chats, chat, thread, name, now), chat), name, found),
    ensures
        found is Some,
        found == Some(thread) || before(found->0, thread),
{
    let topics = topics_in(after_rename(chats, chat, thread, name, now), chat);
    assert(topics.contains_key(thread) && is_called(topics[thread], name));
    if found is Some {
        lemma_before_total(found->0, thread);
    }
}

/// A name that one topic alone goes by resolves to that topic.
pub proof fn law_unambiguous_name_is_found(topics: Topics, thread: Seq<char>, name: Seq<char>)
    requires
        topics.contains_key(thread),
        is_called(topics[thread], name),
        forall|u: Seq<char>|
            #[trigger] topics.contains_key(u) && is_called(topics[u], name) ==> u == thread,
    ensures
        resolves_to(topics, name, Some(thread)),
{
    lemma_before_irreflexive(thread);
}

/// Rows in ascending order are determined by the topics that they stand for.
pub proof fn law_listing_is_determined(a: Seq<(String, TopicEntry)>, b: Seq<(String, TopicEntry)>)
    requires
        topics_of_rows(a) == topics_of_rows(b),
        ascending(thread_ids(a)),
        ascending(thread_ids(b)),
    ensures
        same_topic_rows(a, b),
    decreases a.len(),
{
    lemma_topics_of_rows(a);
    lemma_topics_of_rows(b);
    let (ka, kb) = (thread_ids(a), thread_ids(b));
    if a.len() == 0 || b.len() == 0 {
        if a.len() > 0 {
            assert(ka.contains(ka[0]));
            assert(kb.contains(ka[0]));
        }
        if b.len() > 0 {
            assert(kb.contains(kb[0]));
            assert(ka.contains(kb[0]));
        }
    } else {
        let (la, lb) = (a.last().0@, b.last().0@);
        assert(ka[a.len() - 1] == la && kb[b.len() - 1] == lb);
        assert(la == lb) by {
            assert(ka.contains(la) && kb.contains(lb));
            assert(kb.contains(la) && ka.contains(lb));
            let (i, j) = (kb.index_of(la), ka.index_of(lb));
            assert(kb[i] == la && ka[j] == lb);
            if i < b.len() - 1 && j < a.len() - 1 {
                assert(before(kb[i], kb[b.len() - 1]));
                assert(before(ka[j], ka[a.len() - 1]));
                lemma_before_asymmetric(la, lb);
            }
        }
        let (fa, fb) = (a.drop_last(), b.drop_last());
        lemma_front(a);
        lemma_front(b);
        assert(a[a.len() - 1].1@ == b[b.len() - 1].1@);
        law_listing_is_determined(fa, fb);
        assert forall|i: int| 0 <= i < a.len() implies (#[trigger] a[i]).0@ == b[i].0@ && a[i].1@
            == b[i].1@ by {
            if i < a.len() - 1 {
                assert(fa[i] == a[i] && fb[i] == b[i]);
            }
        }
    }
}

/// Whether two lists of topics hold the same rows.
pub open spec fn same_topic_rows(
    a: Seq<(String, TopicEntry)>,
    b: Seq<(String, TopicEntry)>,
) -> bool {
    &&& a.len() == b.len()
    &&& forall|i: int|
        0 <= i < a.len() ==> (#[trigger] a[i]).0@ == b[i].0@ && a[i].1@ == b[i].1@
}

/// Whether two lists of chats hold the same rows.
pub open spec fn same_chat_rows(
    a: Seq<(String, Vec<(String, TopicEntry)>)>,
    b: Seq<(String, Vec<(String, TopicEntry)>)>,
) -> bool {
    &&& a.len() == b.len()
    &&& forall|i: int|
        0 <= i < a.len() ==> (#[trigger] a[i]).0@ == b[i].0@ && same_topic_rows(a[i].1@, b[i].1@)
}

/// A registry that is saved row by row, and loaded from the same rows, is the one that
/// was saved.
pub proof fn law_loaded_registry_is_the_saved_one(
    chats: Chats,
    saved: Seq<(String, Vec<(String, TopicEntry)>)>,
    loaded: Seq<(String, Vec<(String, TopicEntry)>)>,
)
    requires
        chats_of_rows(saved) == chats,
        same_chat_rows(saved, loaded),
    ensures
        chats_of_rows(loaded) == chats,
    decreases saved.len(),
{
    if saved.len() > 0 {
        let n = saved.len() - 1;
        assert(saved[n].0@ == loaded[n].0@ && same_topic_rows(saved[n].1@, loaded[n].1@));
        lemma_same_topics(saved[n].1@, loaded[n].1@);
        let (a, b) = (saved.drop_last(), loaded.drop_last());
        assert forall|i: int| 0 <= i < a.len() implies (#[trigger] a[i]).0@ == b[i].0@
            && same_topic_rows(a[i].1@, b[i].1@) by {
            assert(a[i] == saved[i] && b[i] == loaded[i]);
        }
        law_loaded_registry_is_the_saved_one(chats_of_rows(a), a, b);
    }
}

/// The same rows stand for the same topics.
proof fn lemma_same_topics(a: Seq<(String, TopicEntry)>, b: Seq<(String, TopicEntry)>)
    requires
        same_topic_rows(a, b),
    ensures
        topics_of_rows(a) == topics_of_rows(b),
    decreases a.len(),
{
    if a.len() > 0 {
        let (fa, fb) = (a.drop_last(), b.drop_last());
        assert(a[a.len() - 1].0@ == b[b.len() - 1].0@);
        assert forall|i: int| 0 <= i < fa.len() implies (#[trigger] fa[i]).0@ == fb[i].0@
            && fa[i].1@ == fb[i].1@ by {
            assert(fa[i] == a[i] && fb[i] == b[i]);
        }
        lemma_same_topics(fa, fb);
    }
}

/// The rows before the last stand for the topics without the last.
proof fn lemma_front(rows: Seq<(String, TopicEntry)>)
    requires
        rows.len() > 0,
        ascending(thread_ids(rows)),
    ensures
        ascending(thread_ids(rows.drop_last())),
        topics_of_rows(rows.drop_last()) == topics_of_rows(rows).remove(rows.last().0@),
{
    let front = rows.drop_last();
    let (ks, kf) = (thread_ids(rows), thread_ids(front));
    assert forall|i: int, j: int| 0 <= i < j < kf.len() implies before(
        #[trigger] kf[i],
        #[trigger] kf[j],
    ) by {
        assert(before(ks[i], ks[j]));
    }
    lemma_topics_of_rows(front);
    assert(!topics_of_rows(front).contains_key(rows.last().0@)) by {
        if kf.contains(rows.last().0@) {
            let i = kf.index_of(rows.last().0@);
            assert(kf[i] == rows.last().0@);
            assert(before(ks[i], ks[rows.len() - 1]));
            lemma_before_irreflexive(rows.last().0@);
        }
    }
    assert(topics_of_rows(front) =~= topics_of_rows(rows).remove(rows.last().0@));
}

/// Whether the topic `thread` of `chat` is there.
pub open spec fn is_tracked(chats: Chats, chat: Seq<char>, thread: Seq<char>) -> bool {
    chats.contains_key(chat) && chats[chat].contains_key(thread)
}

/// Whether `after` holds what `chats` holds, but for the topic `thread` of `chat`, which it
/// holds too.
pub open spec fn differs_in_one_topic(
    chats: Chats,
    after: Chats,
    chat: Seq<char>,
    thread: Seq<char>,
) -> bool {
    &&& is_tracked(after, chat, thread)
    &&& forall|c: Seq<char>|
        c != chat ==> (#[trigger] after.contains_key(c) <==> chats.contains_key(c))
    &&& forall|c: Seq<char>|
        c != chat && #[trigger] after.contains_key(c) ==> after[c] == chats[c]
    &&& forall|u: Seq<char>|
        u != thread ==> (#[trigger] after[chat].contains_key(u) <==> is_tracked(chats, chat, u))
    &&& forall|u: Seq<char>|
        u != thread && #[trigger] after[chat].contains_key(u) ==> after[chat][u] == chats[chat][u]
}

/// A tracked topic is found where it stands, and only there.
pub proof fn law_topics_are_found_where_they_stand(
    chats: Chats,
    chat: Seq<char>,
    thread: Seq<char>,
)
    ensures
        topic_at(chats, chat, thread) == (if is_tracked(chats, chat, thread) {
            Some(chats[chat][thread])
        } else {
            None
        }),
        chats.contains_key(chat) ==> topics_in(chats, chat) == chats[chat],
        !chats.contains_key(chat) ==> topics_in(chats, chat) == Map::<Seq<char>, Topic>::empty(),
{
}

/// A create names and opens the topic. A tracked one keeps its time of creation, and its
/// purpose unless a new one is given; a new one is created now. Nothing else changes.
pub proof fn law_create_names_and_opens_the_topic(
    chats: Chats,
    chat: Seq<char>,
    thread: Seq<char>,
    name: Seq<char>,
    purpose: Option<Seq<char>>,
    now: u64,
)
    ensures
        ({
            let after = after_create(chats, chat, thread, name, purpose, now);
            let t = after[chat][thread];
            &&& differs_in_one_topic(chats, after, chat, thread)
            &&& t.name == name
            &&& t.status == TopicStatus::Open
            &&& t.updated_at == now
            &&& purpose is Some ==> t.purpose == purpose
            &&& is_tracked(chats, chat, thread) ==> {
                let was = chats[chat][thread];
                &&& t.created_at == was.created_at
                &&& purpose is None ==> t.purpose == was.purpose
            }
            &&& !is_tracked(chats, chat, thread) ==> t.created_at == now && t.purpose == purpose
        }),
{
}

/// A rename changes the name and the time of the update: a tracked topic keeps its status,
/// its purpose and its time of creation. An unknown topic is taken in as an open one.
/// Nothing else changes.
pub proof fn law_rename_changes_the_name_alone(
    chats: Chats,
    chat: Seq<char>,
    thread: Seq<char>,
    name: Seq<char>,
    now: u64,
)
    ensures
        ({
            let after = after_rename(chats, chat, thread, name, now);
            let t = after[chat][thread];
            &&& differs_in_one_topic(chats, after, chat, thread)
            &&& t.name == name
            &&& t.updated_at == now
            &&& is_tracked(chats, chat, thread) ==> {
                let was = chats[chat][thread];
                &&& t.status == was.status
                &&& t.purpose == was.purpose
                &&& t.created_at == was.created_at
            }
            &&& !is_tracked(chats, chat, thread) ==> t.status == TopicStatus::Open && t.purpose
                is None && t.created_at == now
        }),
{
}

/// A change of status changes the status and the time of the update: a tracked topic keeps
/// its name, its purpose and its time of creation. An unknown topic is taken in without a
/// name. Nothing else changes.
pub proof fn law_status_changes_alone(
    chats: Chats,
    chat: Seq<char>,
    thread: Seq<char>,
    status: TopicStatus,
    now: u64,
)
    ensures
        ({
            let after = after_status(chats, chat, thread, status, now);
            let t = after[chat][thread];
            &&& differs_in_one_topic(chats, after, chat, thread)
            &&& t.status == status
            &&& t.updated_at == now
            &&& is_tracked(chats, chat, thread) ==> {
                let was = chats[chat][thread];
                &&& t.name == was.name
                &&& t.purpose == was.purpose
                &&& t.created_at == was.created_at
            }
            &&& !is_tracked(chats, chat, thread) ==> t.name.len() == 0 && t.purpose is None
                && t.created_at == now
        }),
{
}

/// A service event does what the operation of its kind does: a create without a purpose, a
/// rename where there is a new name and nothing where there is none, a close and a reopen.
pub proof fn law_events_do_what_they_tell(
    chats: Chats,
    chat: Seq<char>,
    thread_id: Seq<char>,
    name: Seq<char>,
    icon_color: Option<i64>,
    now: u64,
)
    ensures
        after_event(chats, chat, Event::Created { thread_id, name, icon_color }, now)
            == after_create(chats, chat, thread_id, name, None, now),
        after_event(chats, chat, Event::Edited { thread_id, name: Some(name) }, now)
            == after_rename(chats, chat, thread_id, name, now),
        after_event(chats, chat, Event::Edited { thread_id, name: None }, now) == chats,
        after_event(chats, chat, Event::Closed { thread_id }, now) == after_status(
            chats,
            chat,
            thread_id,
            TopicStatus::Closed,
            now,
        ),
        after_event(chats, chat, Event::Reopened { thread_id }, now) == after_status(
            chats,
            chat,
            thread_id,
            TopicStatus::Open,
            now,
        ),
{
}

/// A tracked topic that a service event renames keeps its status, its purpose and its time
/// of creation.
pub proof fn law_edited_topic_keeps_its_status(
    chats: Chats,
    chat: Seq<char>,
    thread_id: Seq<char>,
    name: Seq<char>,
    now: u64,
)
    requires
        is_tracked(chats, chat, thread_id),
    ensures
        ({
            let after = after_event(
                chats,
                chat,
                Event::Edited { thread_id, name: Some(name) },
                now,
            );
            let (was, t) = (chats[chat][thread_id], after[chat][thread_id]);
            &&& is_tracked(after, chat, thread_id)
            &&& t.name == name
            &&& t.status == was.status
            &&& t.purpose == was.purpose
            &&& t.created_at == was.created_at
            &&& t.updated_at == now
        }),
{
}

/// A name resolves to a topic that has the whole name, up to case, and to the first of
/// them in the order of ids; it resolves to nothing exactly where no topic has the name.
pub proof fn law_resolution_takes_the_whole_name(
    topics: Topics,
    name: Seq<char>,
    thread: Seq<char>,
    other: Seq<char>,
)
    ensures
        resolves_to(topics, name, Some(thread)) ==> {
            &&& topics.contains_key(thread)
            &&& folded(topics[thread].name) == folded(trimmed(name))
            &&& is_ascii_chars(trimmed(name)) && is_ascii_chars(topics[thread].name) ==> lowered(
                topics[thread].name,
            ) == lowered(trimmed(name)) && topics[thread].name.len() == trimmed(name).len()
        },
        resolves_to(topics, name, Some(thread)) && topics.contains_key(other) && folded(
            topics[other].name,
        ) == folded(trimmed(name)) ==> other == thread || before(thread, other),
        resolves_to(topics, name, None) && topics.contains_key(other) ==> folded(topics[other].name)
            != folded(trimmed(name)),
{
    lemma_before_total(thread, other);
    assert(lowered(topics[thread].name).len() == topics[thread].name.len());
    assert(lowered(trimmed(name)).len() == trimmed(name).len());
}

/// A name and a topic's name that are ASCII agree in all but the case of letters where the
/// one resolves to the other: they are of one length, and where no topic agrees with a name
/// so far, it resolves to nothing.
pub proof fn law_ascii_names_resolve_whole(
    topics: Topics,
    name: Seq<char>,
    found: Option<Seq<char>>,
)
    requires
        is_ascii_chars(trimmed(name)),
        forall|u: Seq<char>| #[trigger]
            topics.contains_key(u) ==> is_ascii_chars(topics[u].name),
        resolves_to(topics, name, found),
    ensures
        found matches Some(t) ==> {
            &&& topics.contains_key(t)
            &&& lowered(topics[t].name) == lowered(trimmed(name))
            &&& topics[t].name.len() == trimmed(name).len()
            &&& forall|i: int|
                0 <= i < trimmed(name).len() ==> lower_char(#[trigger] topics[t].name[i])
                    == lower_char(trimmed(name)[i])
        },
        found is None <==> forall|u: Seq<char>| #[trigger]
            topics.contains_key(u) ==> lowered(topics[u].name) != lowered(trimmed(name)),
{
    if let Some(t) = found {
        let (a, b) = (topics[t].name, trimmed(name));
        assert(is_ascii_chars(a));
        assert(lowered(a) == lowered(b));
        assert(lowered(a).len() == a.len() && lowered(b).len() == b.len());
        assert forall|i: int| 0 <= i < b.len() implies lower_char(#[trigger] a[i]) == lower_char(
            b[i],
        ) by {
            assert(lowered(a)[i] == lower_char(a[i]));
            assert(lowered(b)[i] == lower_char(b[i]));
        }
    } else {
        assert forall|u: Seq<char>| #[trigger] topics.contains_key(u) implies lowered(
            topics[u].name,
        ) != lowered(trimmed(name)) by {
            assert(is_ascii_chars(topics[u].name));
        }
    }
}

/// What a name resolves to is settled by these three: it is there, it has the name, and no
/// earlier one has it.
pub proof fn law_first_topic_of_a_name_is_found(topics: Topics, name: Seq<char>, thread: Seq<char>)
    requires
        topics.contains_key(thread),
        folded(topics[thread].name) == folded(trimmed(name)),
        forall|u: Seq<char>| #[trigger]
            topics.contains_key(u) && before(u, thread) ==> folded(topics[u].name) != folded(
                trimmed(name),
            ),
    ensures
        resolves_to(topics, name, Some(thread)),
{
}

/// A listing has one row for each topic, with its id and its data unchanged, in the order
/// of ids.
pub proof fn law_listing_is_complete(rows: Seq<(String, TopicEntry)>, topics: Topics)
    requires
        topics_of_rows(rows) == topics,
        ascending(thread_ids(rows)),
    ensures
        forall|i: int|
            0 <= i < rows.len() ==> topics.contains_key((#[trigger] rows[i]).0@)
                && topics[rows[i].0@] == rows[i].1@,
        forall|k: Seq<char>| #[trigger]
            topics.contains_key(k) ==> exists|i: int|
                0 <= i < rows.len() && (#[trigger] rows[i]).0@ == k,
        forall|i: int, j: int|
            0 <= i < j < rows.len() ==> before((#[trigger] rows[i]).0@, (#[trigger] rows[j]).0@),
{
    lemma_topics_of_rows(rows);
    let ks = thread_ids(rows);
    assert forall|i: int| 0 <= i < rows.len() implies topics.contains_key((#[trigger] rows[i]).0@)
        && topics[rows[i].0@] == rows[i].1@ by {
        assert(ks[i] == rows[i].0@);
        assert(ks.contains(rows[i].0@));
    }
    assert forall|k: Seq<char>| #[trigger] topics.contains_key(k) implies exists|i: int|
        0 <= i < rows.len() && (#[trigger] rows[i]).0@ == k by {
        assert(ks.contains(k));
        let i = ks.index_of(k);
        assert(ks[i] == k);
        assert(rows[i].0@ == k);
    }
    assert forall|i: int, j: int| 0 <= i < j < rows.len() implies before(
        (#[trigger] rows[i]).0@,
        (#[trigger] rows[j]).0@,
    ) by {
        assert(before(ks[i], ks[j]));
    }
}

/// Rows that are read one by one: no rows are no topics, and one more row sets one topic,
/// as it is given.
pub proof fn law_rows_are_taken_as_given(
    rows: Seq<(String, TopicEntry)>,
    row: (String, TopicEntry),
    chats: Seq<(String, Vec<(String, TopicEntry)>)>,
    chat: (String, Vec<(String, TopicEntry)>),
)
    ensures
        topics_of_rows(Seq::empty()) == Map::<Seq<char>, Topic>::empty(),
        topics_of_rows(rows.push(row)) == topics_of_rows(rows).insert(row.0@, row.1@),
        chats_of_rows(Seq::empty()) == Map::<Seq<char>, Topics>::empty(),
        chats_of_rows(chats.push(chat)) == chats_of_rows(chats).insert(
            chat.0@,
            topics_of_rows(chat.1@),
        ),
{
    assert(rows.push(row).drop_last() =~= rows);
    assert(chats.push(chat).drop_last() =~= chats);
}

/// The rows of a registry have one row for each chat, with its topics, in the order of ids.
pub proof fn law_rows_of_chats_are_complete(
    rows: Seq<(String, Vec<(String, TopicEntry)>)>,
    chats: Chats,
)
    requires
        chats_of_rows(rows) == chats,
        ascending(chat_ids(rows)),
    ensures
        forall|i: int|
            0 <= i < rows.len() ==> chats.contains_key((#[trigger] rows[i]).0@)
                && chats[rows[i].0@] == topics_of_rows(rows[i].1@),
        forall|k: Seq<char>| #[trigger]
            chats.contains_key(k) ==> exists|i: int|
                0 <= i < rows.len() && (#[trigger] rows[i]).0@ == k,
        forall|i: int, j: int|
            0 <= i < j < rows.len() ==> before((#[trigger] rows[i]).0@, (#[trigger] rows[j]).0@),
    decreases rows.len(),
{
    let ks = chat_ids(rows);
    assert forall|i: int, j: int| 0 <= i < j < rows.len() implies before(
        (#[trigger] rows[i]).0@,
        (#[trigger] rows[j]).0@,
    ) by {
        assert(before(ks[i], ks[j]));
    }
    if rows.len() > 0 {
        let (front, last) = (rows.drop_last(), rows.last());
        let kf = chat_ids(front);
        assert forall|i: int, j: int| 0 <= i < j < kf.len() implies before(
            #[trigger] kf[i],
            #[trigger] kf[j],
        ) by {
            assert(before(ks[i], ks[j]));
        }
        law_rows_of_chats_are_complete(front, chats_of_rows(front));
        assert forall|i: int| 0 <= i < rows.len() implies chats.contains_key(
            (#[trigger] rows[i]).0@,
        ) && chats[rows[i].0@] == topics_of_rows(rows[i].1@) by {
            if i < rows.len() - 1 {
                assert(front[i] == rows[i]);
                assert(before(rows[i].0@, rows[rows.len() - 1].0@));
                lemma_before_irreflexive(last.0@);
            }
        }
        assert forall|k: Seq<char>| #[trigger] chats.contains_key(k) implies exists|i: int|
            0 <= i < rows.len() && (#[trigger] rows[i]).0@ == k by {
            if k == last.0@ {
                assert(rows[rows.len() - 1].0@ == k);
            } else {
                assert(chats_of_rows(front).contains_key(k));
                let i = choose|i: int| 0 <= i < front.len() && (#[trigger] front[i]).0@ == k;
                assert(rows[i].0@ == k);
            }
        }
    }
}

} // verus!
