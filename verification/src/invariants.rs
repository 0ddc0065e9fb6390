//! What holds of the store's model in every state: the lifecycle of an
//! enrollment, the order of the command queue, and single delivery.

use vstd::prelude::*;
use crate::command::CommandStatus;
use crate::enrollment::EnrollIdView;
use crate::push::PushInfoView;
use crate::storage::{
    as_queued, deliverable, first_deliverable, lemma_first_deliverable,
    lemma_first_deliverable_is, without, CommandRecord, QueueStatus, StoreState,
};

verus! {

/// No two rows of one enrollment share a UUID.
pub open spec fn distinct_uuids(commands: Seq<CommandRecord>) -> bool {
    forall|i: int, j: int|
        0 <= i < j < commands.len() ==> !(#[trigger] commands[i].enrollment_id
            == #[trigger] commands[j].enrollment_id && commands[i].uuid == commands[j].uuid)
}

/// Some row of `id` with `uuid` has been handed to the device.
pub open spec fn dispatched(s: StoreState, id: Seq<char>, uuid: Seq<char>) -> bool {
    exists|i: int|
        0 <= i < s.commands.len() && #[trigger] s.commands[i].enrollment_id == id
            && s.commands[i].uuid == uuid && s.commands[i].dispatched
}

/// Every row that is kept was a row before, and belongs to another
/// enrollment.
proof fn lemma_kept_rows(commands: Seq<CommandRecord>, id: Seq<char>)
    ensures
        forall|a: int|
            0 <= a < without(commands, id).len() ==> commands.contains(
                #[trigger] without(commands, id)[a],
            ) && without(commands, id)[a].enrollment_id != id,
{
    let pred = |c: CommandRecord| c.enrollment_id != id;
    assert forall|a: int| 0 <= a < without(commands, id).len() implies commands.contains(
        #[trigger] without(commands, id)[a],
    ) && without(commands, id)[a].enrollment_id != id by {
        commands.lemma_filter_pred(pred, a);
        let x = commands.filter(pred)[a];
        assert(commands.filter(pred).contains(x));
        commands.lemma_filter_contains_rev(pred, x);
    }
}

/// Dropping the rows of one enrollment keeps UUIDs distinct.
proof fn lemma_without_distinct(commands: Seq<CommandRecord>, id: Seq<char>)
    requires
        distinct_uuids(commands),
    ensures
        distinct_uuids(without(commands, id)),
    decreases commands.len(),
{
    let pred = |c: CommandRecord| c.enrollment_id != id;
    reveal(Seq::filter);
    if commands.len() > 0 {
        let init = commands.drop_last();
        let last = commands.last();
        assert(distinct_uuids(init)) by {
            assert forall|i: int, j: int| 0 <= i < j < init.len() implies !(
            #[trigger] init[i].enrollment_id == #[trigger] init[j].enrollment_id && init[i].uuid
                == init[j].uuid) by {
                assert(init[i] == commands[i] && init[j] == commands[j]);
            }
        }
        lemma_without_distinct(init, id);
        lemma_kept_rows(init, id);
        let kept = without(init, id);
        if pred(last) {
            let all = kept.push(last);
            assert(without(commands, id) == all);
            assert forall|i: int, j: int| 0 <= i < j < all.len() implies !(
            #[trigger] all[i].enrollment_id == #[trigger] all[j].enrollment_id && all[i].uuid
                == all[j].uuid) by {
                if j == kept.len() {
                    assert(init.contains(kept[i]));
                    let m = choose|m: int| 0 <= m < init.len() && init[m] == kept[i];
                    assert(commands[m] == kept[i]);
                    assert(commands[commands.len() - 1] == last);
                } else {
                    assert(all[i] == kept[i] && all[j] == kept[j]);
                }
            }
        } else {
            assert(without(commands, id) == kept);
        }
    }
}

/// After `Authenticate` the enrollment has no queued command and is
/// disabled.
pub proof fn lemma_authenticate_resets(
    s: StoreState,
    id: EnrollIdView,
    topic: Seq<char>,
    raw: Seq<u8>,
)
    ensures
        s.store_authenticate(id, topic, raw).queue(id.id).len() == 0,
        s.store_authenticate(id, topic, raw).is_disabled(id.id),
        s.store_authenticate(id, topic, raw).next_command(id.id) is None,
{
    let after = s.store_authenticate(id, topic, raw);
    let kept = without(s.commands, id.id);
    let own = |c: CommandRecord| c.enrollment_id == id.id;
    lemma_kept_rows(s.commands, id.id);
    assert(kept.all(|c: CommandRecord| !own(c)));
    kept.lemma_all_neg_filter_empty(own);
    lemma_first_deliverable_is(kept, id.id, kept.len() as int);
}

/// A `TokenUpdate` for a known enrollment, such as one that has
/// authenticated, enables it and populates its push credentials.
pub proof fn lemma_token_update_enables(
    s: StoreState,
    id: Seq<char>,
    push_magic: Seq<char>,
    token: Seq<u8>,
    raw: Seq<u8>,
)
    requires
        s.enrollments.contains_key(id),
    ensures
        !s.store_token_update(id, push_magic, token, raw).is_disabled(id),
        s.store_token_update(id, push_magic, token, raw).push_info(id) == Some(
            PushInfoView { token, push_magic, topic: s.enrollments[id].topic },
        ),
{
}

/// `TokenUpdate` after `Authenticate`: the enrollment is enabled, and its
/// push credentials are the token and magic just given, under the topic it
/// authenticated with.
pub proof fn lemma_enrolls(
    s: StoreState,
    id: EnrollIdView,
    topic: Seq<char>,
    auth_raw: Seq<u8>,
    push_magic: Seq<char>,
    token: Seq<u8>,
    raw: Seq<u8>,
)
    ensures
        ({
            let enrolled = s.store_authenticate(id, topic, auth_raw).store_token_update(
                id.id,
                push_magic,
                token,
                raw,
            );
            &&& !enrolled.is_disabled(id.id)
            &&& enrolled.push_info(id.id) == Some(PushInfoView { token, push_magic, topic })
        }),
{
}

/// `CheckOut` disables, and a disabled or unknown enrollment has no push
/// credentials.
pub proof fn lemma_checkout_disables(s: StoreState, id: Seq<char>)
    ensures
        s.disable(id).is_disabled(id),
        s.disable(id).push_info(id) is None,
        forall|t: StoreState| t.is_disabled(id) ==> #[trigger] t.push_info(id) is None,
{
}

/// A certificate that was associated with an enrollment is bound to it.
pub proof fn lemma_associated_is_bound(s: StoreState, id: Seq<char>, cert_hash: Seq<u8>)
    ensures
        s.associate_cert(id, cert_hash).has_cert_auth(id, cert_hash),
        forall|other: Seq<char>, h: Seq<u8>|
            s.has_cert_auth(other, h) ==> #[trigger] s.associate_cert(id, cert_hash).has_cert_auth(
                other,
                h,
            ),
{
}

/// A command queued after another one of the same enrollment is handed out
/// after it: the poll that follows the two enqueues does not return the
/// second row while the first is deliverable.
pub proof fn lemma_enqueue_order(
    s: StoreState,
    id: Seq<char>,
    first: Seq<char>,
    second: Seq<char>,
    c1: Seq<u8>,
    c2: Seq<u8>,
    t1: i64,
    t2: i64,
)
    ensures
        ({
            let queued = s.enqueue(id, first, c1, t1).enqueue(id, second, c2, t2);
            let n = s.commands.len() as int;
            &&& first_deliverable(queued.commands, id) <= n
            &&& first_deliverable(queued.commands, id) < n ==> first_deliverable(
                queued.commands,
                id,
            ) == first_deliverable(s.commands, id)
            &&& first_deliverable(s.commands, id) == n ==> queued.next_command(id) == Some(
                as_queued(queued.commands[n]),
            ) && queued.commands[n].uuid == first
        }),
{
    let queued = s.enqueue(id, first, c1, t1).enqueue(id, second, c2, t2);
    let n = s.commands.len() as int;
    lemma_first_deliverable(queued.commands, id);
    lemma_first_deliverable(s.commands, id);
    assert(deliverable(queued.commands[n], id));
    let f = first_deliverable(queued.commands, id);
    if f < n {
        assert forall|j: int| 0 <= j < f implies !deliverable(#[trigger] s.commands[j], id) by {
            assert(queued.commands[j] == s.commands[j]);
        }
        assert(queued.commands[f] == s.commands[f]);
        lemma_first_deliverable_is(s.commands, id, f);
    }
    if first_deliverable(s.commands, id) == n {
        assert forall|j: int| 0 <= j < n implies !deliverable(#[trigger] queued.commands[j], id) by {
            assert(queued.commands[j] == s.commands[j]);
        }
        lemma_first_deliverable_is(queued.commands, id, n);
    }
}

/// A poll hands out a row that was never handed out before, and marks it.
pub proof fn lemma_poll_marks(s: StoreState, id: Seq<char>)
    requires
        distinct_uuids(s.commands),
        s.next_command(id) is Some,
    ensures
        !dispatched(s, id, s.next_command(id)->0.uuid),
        dispatched(s.after_next_command(id), id, s.next_command(id)->0.uuid),
{
    lemma_first_deliverable(s.commands, id);
    let i = first_deliverable(s.commands, id);
    let uuid = s.commands[i].uuid;
    if dispatched(s, id, uuid) {
        let j = choose|j: int|
            0 <= j < s.commands.len() && #[trigger] s.commands[j].enrollment_id == id
                && s.commands[j].uuid == uuid && s.commands[j].dispatched;
        if j < i {
            assert(s.commands[j].enrollment_id == s.commands[i].enrollment_id);
        } else if i < j {
            assert(s.commands[i].enrollment_id == s.commands[j].enrollment_id);
        }
    }
    let after = s.after_next_command(id);
    assert(after.commands[i].enrollment_id == id);
}

/// No command is dispatched twice: of two polls in a row, the second does
/// not return the UUID that the first returned.
pub proof fn lemma_no_redelivery(s: StoreState, id: Seq<char>)
    requires
        distinct_uuids(s.commands),
        s.next_command(id) is Some,
    ensures
        s.after_next_command(id).next_command(id) matches Some(again) ==> again.uuid
            != s.next_command(id)->0.uuid,
{
    lemma_poll_marks(s, id);
    lemma_uuids_stay_distinct(s);
    let after = s.after_next_command(id);
    lemma_poll_never_repeats(after, id, s.next_command(id)->0.uuid);
}

/// A poll never returns a UUID that has been handed out, whatever happened
/// in between.
pub proof fn lemma_poll_never_repeats(s: StoreState, id: Seq<char>, uuid: Seq<char>)
    requires
        distinct_uuids(s.commands),
        dispatched(s, id, uuid),
    ensures
        s.next_command(id) matches Some(q) ==> q.uuid != uuid,
{
    lemma_first_deliverable(s.commands, id);
    let i = first_deliverable(s.commands, id);
    if i < s.commands.len() && s.commands[i].uuid == uuid {
        let j = choose|j: int|
            0 <= j < s.commands.len() && #[trigger] s.commands[j].enrollment_id == id
                && s.commands[j].uuid == uuid && s.commands[j].dispatched;
        if j < i {
            assert(s.commands[j].enrollment_id == s.commands[i].enrollment_id);
        } else if i < j {
            assert(s.commands[i].enrollment_id == s.commands[j].enrollment_id);
        }
    }
}

/// Once handed out, a command stays so while its row is in the queue: no
/// operation but a queue reset of that enrollment takes the mark away.
pub proof fn lemma_dispatch_is_kept(s: StoreState, id: Seq<char>, uuid: Seq<char>)
    requires
        dispatched(s, id, uuid),
    ensures
        forall|other: Seq<char>| #[trigger] dispatched(s.after_next_command(other), id, uuid),
        forall|other: Seq<char>, u: Seq<char>, st: CommandStatus, raw: Seq<u8>| #[trigger]
            dispatched(s.store_result(other, u, st, raw), id, uuid),
        forall|other: Seq<char>, u: Seq<char>, c: Seq<u8>, t: i64| #[trigger]
            dispatched(s.enqueue(other, u, c, t), id, uuid),
        forall|other: Seq<char>|
            other != id ==> #[trigger] dispatched(s.clear_queue(other), id, uuid),
        forall|other: EnrollIdView, topic: Seq<char>, raw: Seq<u8>|
            other.id != id ==> #[trigger] dispatched(s.store_authenticate(other, topic, raw), id, uuid),
        forall|other: Seq<char>, m: Seq<char>, t: Seq<u8>, raw: Seq<u8>| #[trigger]
            dispatched(s.store_token_update(other, m, t, raw), id, uuid),
        forall|other: Seq<char>| #[trigger] dispatched(s.disable(other), id, uuid),
{
    let j = choose|j: int|
        0 <= j < s.commands.len() && #[trigger] s.commands[j].enrollment_id == id
            && s.commands[j].uuid == uuid && s.commands[j].dispatched;
    assert forall|other: Seq<char>| #[trigger] dispatched(s.after_next_command(other), id, uuid) by {
        lemma_first_deliverable(s.commands, other);
        assert(s.after_next_command(other).commands[j].enrollment_id == id);
    }
    assert forall|other: Seq<char>, u: Seq<char>, st: CommandStatus, raw: Seq<u8>| #[trigger]
        dispatched(s.store_result(other, u, st, raw), id, uuid) by {
        assert(s.store_result(other, u, st, raw).commands[j].enrollment_id == id);
    }
    assert forall|other: Seq<char>, u: Seq<char>, c: Seq<u8>, t: i64| #[trigger]
        dispatched(s.enqueue(other, u, c, t), id, uuid) by {
        assert(s.enqueue(other, u, c, t).commands[j].enrollment_id == id);
    }
    assert forall|other: Seq<char>| other != id implies #[trigger] dispatched(
        s.clear_queue(other),
        id,
        uuid,
    ) by {
        lemma_kept_elsewhere(s.commands, other, j);
    }
    assert forall|other: EnrollIdView, topic: Seq<char>, raw: Seq<u8>| other.id != id implies #[trigger]
        dispatched(s.store_authenticate(other, topic, raw), id, uuid) by {
        lemma_kept_elsewhere(s.commands, other.id, j);
    }
    assert forall|other: Seq<char>, m: Seq<char>, t: Seq<u8>, raw: Seq<u8>| #[trigger]
        dispatched(s.store_token_update(other, m, t, raw), id, uuid) by {
        assert(s.store_token_update(other, m, t, raw).commands[j].enrollment_id == id);
    }
    assert forall|other: Seq<char>| #[trigger] dispatched(s.disable(other), id, uuid) by {
        assert(s.disable(other).commands[j].enrollment_id == id);
    }
}

/// A row of another enrollment survives the removal of `id`'s rows.
proof fn lemma_kept_elsewhere(commands: Seq<CommandRecord>, id: Seq<char>, j: int)
    requires
        0 <= j < commands.len(),
        commands[j].enrollment_id != id,
    ensures
        exists|k: int|
            0 <= k < without(commands, id).len() && #[trigger] without(commands, id)[k]
                == commands[j],
{
    let pred = |c: CommandRecord| c.enrollment_id != id;
    commands.lemma_filter_contains(pred, j);
    let k = choose|k: int|
        0 <= k < commands.filter(pred).len() && commands.filter(pred)[k] == commands[j];
    assert(without(commands, id)[k] == commands[j]);
}

/// Every operation keeps the UUIDs of an enrollment's rows distinct, given
/// that a UUID is queued only where the enrollment does not hold it yet.
pub proof fn lemma_uuids_stay_distinct(s: StoreState)
    requires
        distinct_uuids(s.commands),
    ensures
        distinct_uuids(StoreState::empty().commands),
        forall|id: Seq<char>| #[trigger] distinct_uuids(s.after_next_command(id).commands),
        forall|id: Seq<char>, u: Seq<char>, st: CommandStatus, raw: Seq<u8>| #[trigger]
            distinct_uuids(s.store_result(id, u, st, raw).commands),
        forall|id: Seq<char>, u: Seq<char>, c: Seq<u8>, t: i64|
            !s.has_uuid(id, u) ==> #[trigger] distinct_uuids(s.enqueue(id, u, c, t).commands),
        forall|id: Seq<char>| #[trigger] distinct_uuids(s.clear_queue(id).commands),
        forall|id: EnrollIdView, topic: Seq<char>, raw: Seq<u8>| #[trigger]
            distinct_uuids(s.store_authenticate(id, topic, raw).commands),
{
    assert forall|id: Seq<char>| #[trigger] distinct_uuids(s.after_next_command(id).commands) by {
        lemma_first_deliverable(s.commands, id);
        let after = s.after_next_command(id).commands;
        assert forall|i: int, j: int| 0 <= i < j < after.len() implies !(
        #[trigger] after[i].enrollment_id == #[trigger] after[j].enrollment_id && after[i].uuid
            == after[j].uuid) by {
            assert(after[i].enrollment_id == s.commands[i].enrollment_id);
            assert(after[j].enrollment_id == s.commands[j].enrollment_id);
        }
    }
    assert forall|id: Seq<char>, u: Seq<char>, st: CommandStatus, raw: Seq<u8>| #[trigger]
        distinct_uuids(s.store_result(id, u, st, raw).commands) by {
        let after = s.store_result(id, u, st, raw).commands;
        assert forall|i: int, j: int| 0 <= i < j < after.len() implies !(
        #[trigger] after[i].enrollment_id == #[trigger] after[j].enrollment_id && after[i].uuid
            == after[j].uuid) by {
            assert(after[i].enrollment_id == s.commands[i].enrollment_id);
            assert(after[j].enrollment_id == s.commands[j].enrollment_id);
        }
    }
    assert forall|id: Seq<char>, u: Seq<char>, c: Seq<u8>, t: i64| !s.has_uuid(id, u) implies #[trigger]
        distinct_uuids(s.enqueue(id, u, c, t).commands) by {
        let after = s.enqueue(id, u, c, t).commands;
        assert forall|i: int, j: int| 0 <= i < j < after.len() implies !(
        #[trigger] after[i].enrollment_id == #[trigger] after[j].enrollment_id && after[i].uuid
            == after[j].uuid) by {
            if j == s.commands.len() {
                assert(after[i] == s.commands[i]);
                if s.commands[i].enrollment_id == id && s.commands[i].uuid == u {
                    assert(s.has_uuid(id, u));
                }
            } else {
                assert(after[i] == s.commands[i] && after[j] == s.commands[j]);
            }
        }
    }
    assert forall|id: Seq<char>| #[trigger] distinct_uuids(s.clear_queue(id).commands) by {
        lemma_without_distinct(s.commands, id);
    }
    assert forall|id: EnrollIdView, topic: Seq<char>, raw: Seq<u8>| #[trigger]
        distinct_uuids(s.store_authenticate(id, topic, raw).commands) by {
        lemma_without_distinct(s.commands, id.id);
    }
}

/// A reported result takes the row out of `Pending`, so that it is never
/// handed out afterwards.
pub proof fn lemma_result_settles(
    s: StoreState,
    id: Seq<char>,
    uuid: Seq<char>,
    status: CommandStatus,
    raw: Seq<u8>,
)
    ensures
        forall|i: int|
            0 <= i < s.commands.len() && s.commands[i].enrollment_id == id && s.commands[i].uuid
                == uuid ==> (#[trigger] s.store_result(id, uuid, status, raw).commands[i]).status
                != QueueStatus::Pending,
        s.store_result(id, uuid, status, raw).next_command(id) matches Some(q) ==> q.uuid != uuid,
{
    let after = s.store_result(id, uuid, status, raw);
    lemma_first_deliverable(after.commands, id);
}

/// In the queue of `id`, a row with the UUID `first` stands before a row
/// with the UUID `second`.
pub open spec fn precedes(commands: Seq<CommandRecord>, id: Seq<char>, first: Seq<char>, second: Seq<char>) -> bool {
    exists|i: int, j: int|
        0 <= i < j < commands.len() && #[trigger] commands[i].enrollment_id == id
            && #[trigger] commands[j].enrollment_id == id && commands[i].uuid == first
            && commands[j].uuid == second
}

/// Two rows that are kept keep their order.
proof fn lemma_kept_in_order(commands: Seq<CommandRecord>, other: Seq<char>, i: int, j: int)
    requires
        0 <= i < j < commands.len(),
        commands[i].enrollment_id != other,
        commands[j].enrollment_id != other,
    ensures
        exists|a: int, b: int|
            0 <= a < b < without(commands, other).len() && #[trigger] without(commands, other)[a]
                == commands[i] && #[trigger] without(commands, other)[b] == commands[j],
    decreases commands.len(),
{
    let pred = |c: CommandRecord| c.enrollment_id != other;
    reveal(Seq::filter);
    let init = commands.drop_last();
    let last = commands.last();
    let kept = without(init, other);
    assert(init[i] == commands[i]);
    if j == commands.len() - 1 {
        assert(without(commands, other) == kept.push(last));
        lemma_kept_elsewhere(init, other, i);
        let a = choose|a: int| 0 <= a < kept.len() && #[trigger] kept[a] == init[i];
        let b = kept.len() as int;
        assert(without(commands, other)[a] == commands[i]);
        assert(without(commands, other)[b] == commands[j]);
    } else {
        assert(init[j] == commands[j]);
        lemma_kept_in_order(init, other, i, j);
        let (a, b) = choose|a: int, b: int|
            0 <= a < b < kept.len() && #[trigger] kept[a] == init[i] && #[trigger] kept[b]
                == init[j];
        if pred(last) {
            assert(without(commands, other) == kept.push(last));
        } else {
            assert(without(commands, other) == kept);
        }
        assert(without(commands, other)[a] == commands[i]);
        assert(without(commands, other)[b] == commands[j]);
    }
}

/// The order of an enrollment's queue is the order of its enqueues: a new
/// row comes after all rows that are there, and no operation on the store
/// changes the order of two rows that stay.
pub proof fn lemma_order_is_kept(s: StoreState, id: Seq<char>, first: Seq<char>, second: Seq<char>)
    requires
        precedes(s.commands, id, first, second),
    ensures
        forall|other: Seq<char>, u: Seq<char>, c: Seq<u8>, t: i64| #[trigger]
            precedes(s.enqueue(other, u, c, t).commands, id, first, second),
        forall|u: Seq<char>, c: Seq<u8>, t: i64| #[trigger]
            precedes(s.enqueue(id, u, c, t).commands, id, second, u),
        forall|other: Seq<char>| #[trigger]
            precedes(s.after_next_command(other).commands, id, first, second),
        forall|other: Seq<char>, u: Seq<char>, st: CommandStatus, raw: Seq<u8>| #[trigger]
            precedes(s.store_result(other, u, st, raw).commands, id, first, second),
        forall|other: Seq<char>|
            other != id ==> #[trigger] precedes(s.clear_queue(other).commands, id, first, second),
        forall|other: EnrollIdView, topic: Seq<char>, raw: Seq<u8>|
            other.id != id ==> #[trigger] precedes(
                s.store_authenticate(other, topic, raw).commands,
                id,
                first,
                second,
            ),
{
    let (i, j) = choose|i: int, j: int|
        0 <= i < j < s.commands.len() && #[trigger] s.commands[i].enrollment_id == id
            && #[trigger] s.commands[j].enrollment_id == id && s.commands[i].uuid == first
            && s.commands[j].uuid == second;
    assert forall|other: Seq<char>, u: Seq<char>, c: Seq<u8>, t: i64| #[trigger]
        precedes(s.enqueue(other, u, c, t).commands, id, first, second) by {
        let after = s.enqueue(other, u, c, t).commands;
        assert(after[i].enrollment_id == id && after[j].enrollment_id == id);
    }
    assert forall|u: Seq<char>, c: Seq<u8>, t: i64| #[trigger]
        precedes(s.enqueue(id, u, c, t).commands, id, second, u) by {
        let after = s.enqueue(id, u, c, t).commands;
        let n = s.commands.len() as int;
        assert(after[j].enrollment_id == id && after[n].enrollment_id == id);
    }
    assert forall|other: Seq<char>| #[trigger]
        precedes(s.after_next_command(other).commands, id, first, second) by {
        lemma_first_deliverable(s.commands, other);
        let after = s.after_next_command(other).commands;
        assert(after[i].enrollment_id == id && after[j].enrollment_id == id);
    }
    assert forall|other: Seq<char>, u: Seq<char>, st: CommandStatus, raw: Seq<u8>| #[trigger]
        precedes(s.store_result(other, u, st, raw).commands, id, first, second) by {
        let after = s.store_result(other, u, st, raw).commands;
        assert(after[i].enrollment_id == id && after[j].enrollment_id == id);
    }
    assert forall|other: Seq<char>| other != id implies #[trigger] precedes(
        s.clear_queue(other).commands,
        id,
        first,
        second,
    ) by {
        lemma_kept_in_order(s.commands, other, i, j);
        let kept = without(s.commands, other);
        let (a, b) = choose|a: int, b: int|
            0 <= a < b < kept.len() && #[trigger] kept[a] == s.commands[i] && #[trigger] kept[b]
                == s.commands[j];
        assert(kept[a].enrollment_id == id && kept[b].enrollment_id == id);
    }
    assert forall|other: EnrollIdView, topic: Seq<char>, raw: Seq<u8>| other.id != id implies #[trigger]
        precedes(s.store_authenticate(other, topic, raw).commands, id, first, second) by {
        lemma_kept_in_order(s.commands, other.id, i, j);
        let kept = without(s.commands, other.id);
        let (a, b) = choose|a: int, b: int|
            0 <= a < b < kept.len() && #[trigger] kept[a] == s.commands[i] && #[trigger] kept[b]
                == s.commands[j];
        assert(kept[a].enrollment_id == id && kept[b].enrollment_id == id);
    }
}

/// While the older of two rows of an enrollment can still be handed out, a
/// poll does not return the younger: commands are dispatched in the order in
/// which they were queued.
pub proof fn lemma_dispatch_in_order(s: StoreState, id: Seq<char>, i: int, j: int)
    requires
        distinct_uuids(s.commands),
        0 <= i < j < s.commands.len(),
        s.commands[i].enrollment_id == id,
        s.commands[j].enrollment_id == id,
        deliverable(s.commands[i], id),
    ensures
        s.next_command(id) matches Some(q) && q.uuid != s.commands[j].uuid,
{
    lemma_first_deliverable(s.commands, id);
    let f = first_deliverable(s.commands, id);
    if f > i {
        assert(!deliverable(s.commands[i], id));
    }
    assert(s.commands[f].enrollment_id == s.commands[j].enrollment_id);
}

/// Push credentials come from a `TokenUpdate` alone: an enrollment has a
/// push token or a push magic only where a `TokenUpdate` was recorded for it.
pub open spec fn credentials_from_update(s: StoreState) -> bool {
    forall|id: Seq<char>| #[trigger]
        s.enrollments.contains_key(id) && (s.enrollments[id].push_token is Some
            || s.enrollments[id].push_magic is Some) ==> s.enrollments[id].token_update_raw is Some
}

/// The empty store has no credentials, and no lifecycle operation gives an
/// enrollment credentials without a `TokenUpdate`.
pub proof fn lemma_credentials_from_update(s: StoreState)
    requires
        credentials_from_update(s),
    ensures
        credentials_from_update(StoreState::empty()),
        forall|id: EnrollIdView, topic: Seq<char>, raw: Seq<u8>| #[trigger]
            credentials_from_update(s.store_authenticate(id, topic, raw)),
        forall|id: Seq<char>, m: Seq<char>, t: Seq<u8>, raw: Seq<u8>| #[trigger]
            credentials_from_update(s.store_token_update(id, m, t, raw)),
        forall|id: Seq<char>| #[trigger] credentials_from_update(s.disable(id)),
{
    assert forall|id: EnrollIdView, topic: Seq<char>, raw: Seq<u8>| #[trigger]
        credentials_from_update(s.store_authenticate(id, topic, raw)) by {
        let after = s.store_authenticate(id, topic, raw);
        assert forall|k: Seq<char>| #[trigger]
            after.enrollments.contains_key(k) && (after.enrollments[k].push_token is Some
                || after.enrollments[k].push_magic is Some) implies after.enrollments[k].token_update_raw is Some by {
            if k != id.id {
                assert(s.enrollments.contains_key(k));
            } else if s.enrollments.contains_key(k) {
            }
        }
    }
    assert forall|id: Seq<char>, m: Seq<char>, t: Seq<u8>, raw: Seq<u8>| #[trigger]
        credentials_from_update(s.store_token_update(id, m, t, raw)) by {
        let after = s.store_token_update(id, m, t, raw);
        assert forall|k: Seq<char>| #[trigger]
            after.enrollments.contains_key(k) && (after.enrollments[k].push_token is Some
                || after.enrollments[k].push_magic is Some) implies after.enrollments[k].token_update_raw is Some by {
            if k != id {
                assert(s.enrollments.contains_key(k));
            }
        }
    }
    assert forall|id: Seq<char>| #[trigger] credentials_from_update(s.disable(id)) by {
        let after = s.disable(id);
        assert forall|k: Seq<char>| #[trigger]
            after.enrollments.contains_key(k) && (after.enrollments[k].push_token is Some
                || after.enrollments[k].push_magic is Some) implies after.enrollments[k].token_update_raw is Some by {
            assert(s.enrollments.contains_key(k));
        }
    }
}

} // verus!
