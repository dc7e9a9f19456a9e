use vstd::prelude::*;

use crate::types::{
    EurekaEvent, EurekaEventView, EurekaEventWithHeight, Height, MsgAcknowledgementView,
    MsgRecvPacketView, MsgTimeoutView, MsgAcknowledgement, MsgRecvPacket, MsgTimeout, bytes_eq,
    clone_bytes, clone_bytes_list, dup_packet, event_views, views_of,
};

verus! {

/// Whether a send event must be timed out toward `target`: its timeout has
/// elapsed relative to `now` and the packet's source client is `target`.
pub open spec fn timeout_candidate(ev: EurekaEventView, target: Seq<u8>, now: u64) -> bool {
    match ev {
        EurekaEventView::SendPacket(p) => now >= p.timeout_timestamp && p.source_client == target,
        EurekaEventView::WriteAcknowledgement(_, _) => false,
    }
}

/// Whether a send event must be received on `target`: its timeout has not
/// elapsed relative to `now` and the packet's destination client is `target`.
pub open spec fn recv_candidate(ev: EurekaEventView, target: Seq<u8>, now: u64) -> bool {
    match ev {
        EurekaEventView::SendPacket(p) => p.timeout_timestamp > now && p.dest_client == target,
        EurekaEventView::WriteAcknowledgement(_, _) => false,
    }
}

/// Whether an acknowledgement event must be relayed back toward `target`:
/// the packet's source client is `target`.
pub open spec fn ack_candidate(ev: EurekaEventView, target: Seq<u8>) -> bool {
    match ev {
        EurekaEventView::SendPacket(_) => false,
        EurekaEventView::WriteAcknowledgement(p, _) => p.source_client == target,
    }
}

/// The timeout filter as a function value, for use with `Seq::filter`.
pub open spec fn timeout_pred(target: Seq<u8>, now: u64) -> spec_fn(EurekaEventView) -> bool {
    |e: EurekaEventView| timeout_candidate(e, target, now)
}

/// The receive filter as a function value, for use with `Seq::filter`.
pub open spec fn recv_pred(target: Seq<u8>, now: u64) -> spec_fn(EurekaEventView) -> bool {
    |e: EurekaEventView| recv_candidate(e, target, now)
}

/// The acknowledgement filter as a function value, for use with `Seq::filter`.
pub open spec fn ack_pred(target: Seq<u8>) -> spec_fn(EurekaEventView) -> bool {
    |e: EurekaEventView| ack_candidate(e, target)
}

/// The timeout message skeleton built for a send event: provisional proof
/// height, empty proof bytes.
pub open spec fn timeout_msg_of(ev: EurekaEventView, h: Height, signer: Seq<u8>) -> MsgTimeoutView {
    match ev {
        EurekaEventView::SendPacket(p) => (MsgTimeoutView {
            packet: p,
            proof_unreceived: Seq::empty(),
            proof_height: h,
            signer: signer,
        }),
        EurekaEventView::WriteAcknowledgement(_, _) => arbitrary(),
    }
}

/// The receive message skeleton built for a send event.
pub open spec fn recv_msg_of(ev: EurekaEventView, h: Height, signer: Seq<u8>) -> MsgRecvPacketView {
    match ev {
        EurekaEventView::SendPacket(p) => (MsgRecvPacketView {
            packet: p,
            proof_commitment: Seq::empty(),
            proof_height: h,
            signer: signer,
        }),
        EurekaEventView::WriteAcknowledgement(_, _) => arbitrary(),
    }
}

/// The acknowledgement message skeleton built for an acknowledgement event;
/// it carries the event's acknowledgement payloads unchanged.
pub open spec fn ack_msg_of(
    ev: EurekaEventView,
    h: Height,
    signer: Seq<u8>,
) -> MsgAcknowledgementView {
    match ev {
        EurekaEventView::SendPacket(_) => arbitrary(),
        EurekaEventView::WriteAcknowledgement(p, acks) => (MsgAcknowledgementView {
            packet: p,
            acknowledgement: acks,
            proof_acked: Seq::empty(),
            proof_height: h,
            signer: signer,
        }),
    }
}

/// The timeout skeleton builder as a function value, for use with
/// `Seq::map_values`.
pub open spec fn timeout_map(h: Height, signer: Seq<u8>) -> spec_fn(EurekaEventView) -> MsgTimeoutView {
    |e: EurekaEventView| timeout_msg_of(e, h, signer)
}

/// The receive skeleton builder as a function value, for use with
/// `Seq::map_values`.
pub open spec fn recv_map(h: Height, signer: Seq<u8>) -> spec_fn(EurekaEventView) -> MsgRecvPacketView {
    |e: EurekaEventView| recv_msg_of(e, h, signer)
}

/// The acknowledgement skeleton builder as a function value, for use with
/// `Seq::map_values`.
pub open spec fn ack_map(h: Height, signer: Seq<u8>) -> spec_fn(
    EurekaEventView,
) -> MsgAcknowledgementView {
    |e: EurekaEventView| ack_msg_of(e, h, signer)
}

/// The timeout batch: one message per event meeting the timeout conditions,
/// in input order.
pub open spec fn timeout_msgs_spec(
    events: Seq<EurekaEventView>,
    target: Seq<u8>,
    h: Height,
    signer: Seq<u8>,
    now: u64,
) -> Seq<MsgTimeoutView> {
    events.filter(timeout_pred(target, now)).map_values(timeout_map(h, signer))
}

/// The receive batch: one message per event meeting the receive conditions,
/// in input order.
pub open spec fn recv_msgs_spec(
    events: Seq<EurekaEventView>,
    target: Seq<u8>,
    h: Height,
    signer: Seq<u8>,
    now: u64,
) -> Seq<MsgRecvPacketView> {
    events.filter(recv_pred(target, now)).map_values(recv_map(h, signer))
}

/// The acknowledgement batch: one message per acknowledgement event whose
/// source client matches, in input order.
pub open spec fn ack_msgs_spec(
    events: Seq<EurekaEventView>,
    target: Seq<u8>,
    h: Height,
    signer: Seq<u8>,
) -> Seq<MsgAcknowledgementView> {
    events.filter(ack_pred(target)).map_values(ack_map(h, signer))
}

/// Whether `m` is the image under `f` of some element of `s` passing `pred`.
pub open spec fn arises_from<A, B>(
    s: Seq<A>,
    pred: spec_fn(A) -> bool,
    f: spec_fn(A) -> B,
    m: B,
) -> bool {
    exists|e: A| s.contains(e) && #[trigger] pred(e) && m == f(e)
}

/// Appending an element to the input appends its image to the filtered-mapped
/// output exactly when the element passes the filter.
pub proof fn lemma_filter_map_push<A, B>(s: Seq<A>, x: A, pred: spec_fn(A) -> bool, f: spec_fn(A) -> B)
    ensures
        s.push(x).filter(pred).map_values(f) == (if pred(x) {
            s.filter(pred).map_values(f).push(f(x))
        } else {
            s.filter(pred).map_values(f)
        }),
{
    reveal(Seq::filter);
    assert(s.push(x).drop_last() =~= s);
    assert(s.push(x).last() == x);
    if pred(x) {
        assert(s.push(x).filter(pred) == s.filter(pred).push(x));
        assert(s.filter(pred).push(x).map_values(f) =~= s.filter(pred).map_values(f).push(f(x)));
    } else {
        assert(s.push(x).filter(pred) == s.filter(pred));
    }
}

/// Every element passing the filter contributes its image to the output.
pub proof fn lemma_filter_map_complete<A, B>(
    s: Seq<A>,
    pred: spec_fn(A) -> bool,
    f: spec_fn(A) -> B,
    i: int,
)
    requires
        0 <= i < s.len(),
        pred(s[i]),
    ensures
        s.filter(pred).map_values(f).contains(f(s[i])),
{
    s.lemma_filter_contains(pred, i);
    let fs = s.filter(pred);
    let j: int = choose|j: int| 0 <= j < fs.len() && fs[j] == s[i];
    assert(fs.map_values(f)[j] == f(s[i]));
}

/// Every element of the output is the image of some element of the input
/// that passes the filter.
pub proof fn lemma_filter_map_sound<A, B>(s: Seq<A>, pred: spec_fn(A) -> bool, f: spec_fn(A) -> B)
    ensures
        forall|j: int|
            0 <= j < s.filter(pred).map_values(f).len() ==> arises_from(
                s,
                pred,
                f,
                #[trigger] s.filter(pred).map_values(f)[j],
            ),
{
    assert forall|j: int| 0 <= j < s.filter(pred).map_values(f).len() implies arises_from(
        s,
        pred,
        f,
        #[trigger] s.filter(pred).map_values(f)[j],
    ) by {
        s.lemma_filter_pred(pred, j);
        let w = s.filter(pred)[j];
        assert(s.filter(pred).contains(w));
        s.lemma_filter_contains_rev(pred, w);
        assert(s.contains(w) && pred(w) && s.filter(pred).map_values(f)[j] == f(w));
    }
}

/// Each send event whose timeout has elapsed and whose source client matches
/// contributes exactly its timeout message to the batch, and every message of
/// the batch arises from such an event: all other events are excluded.
pub proof fn lemma_timeout_msgs_characterized(
    events: Seq<EurekaEventView>,
    target: Seq<u8>,
    h: Height,
    signer: Seq<u8>,
    now: u64,
)
    ensures
        forall|i: int|
            0 <= i < events.len() && timeout_candidate(events[i], target, now)
                ==> timeout_msgs_spec(events, target, h, signer, now).contains(
                timeout_msg_of(events[i], h, signer),
            ),
        forall|j: int|
            0 <= j < timeout_msgs_spec(events, target, h, signer, now).len() ==> arises_from(
                events,
                timeout_pred(target, now),
                timeout_map(h, signer),
                #[trigger] timeout_msgs_spec(events, target, h, signer, now)[j],
            ),
        timeout_msgs_spec(events, target, h, signer, now).len() == events.filter(
            timeout_pred(target, now),
        ).len(),
{
    let pred = timeout_pred(target, now);
    let f = timeout_map(h, signer);
    assert forall|i: int|
        0 <= i < events.len() && timeout_candidate(events[i], target, now) implies timeout_msgs_spec(
        events,
        target,
        h,
        signer,
        now,
    ).contains(timeout_msg_of(events[i], h, signer)) by {
        assert(pred(events[i]));
        lemma_filter_map_complete(events, pred, f, i);
        assert(f(events[i]) == timeout_msg_of(events[i], h, signer));
    }
    lemma_filter_map_sound(events, pred, f);
}

/// Each send event not yet timed out whose destination client matches
/// contributes exactly its receive message to the batch, and every message of
/// the batch arises from such an event: all other events are excluded.
pub proof fn lemma_recv_msgs_characterized(
    events: Seq<EurekaEventView>,
    target: Seq<u8>,
    h: Height,
    signer: Seq<u8>,
    now: u64,
)
    ensures
        forall|i: int|
            0 <= i < events.len() && recv_candidate(events[i], target, now) ==> recv_msgs_spec(
                events,
                target,
                h,
                signer,
                now,
            ).contains(recv_msg_of(events[i], h, signer)),
        forall|j: int|
            0 <= j < recv_msgs_spec(events, target, h, signer, now).len() ==> arises_from(
                events,
                recv_pred(target, now),
                recv_map(h, signer),
                #[trigger] recv_msgs_spec(events, target, h, signer, now)[j],
            ),
        recv_msgs_spec(events, target, h, signer, now).len() == events.filter(
            recv_pred(target, now),
        ).len(),
{
    let pred = recv_pred(target, now);
    let f = recv_map(h, signer);
    assert forall|i: int|
        0 <= i < events.len() && recv_candidate(events[i], target, now) implies recv_msgs_spec(
        events,
        target,
        h,
        signer,
        now,
    ).contains(recv_msg_of(events[i], h, signer)) by {
        assert(pred(events[i]));
        lemma_filter_map_complete(events, pred, f, i);
        assert(f(events[i]) == recv_msg_of(events[i], h, signer));
    }
    lemma_filter_map_sound(events, pred, f);
}

/// Each acknowledgement event whose source client matches contributes exactly
/// its acknowledgement message to the batch, carrying the event's
/// acknowledgement payloads, and every message of the batch arises from such
/// an event: all other events are excluded.
pub proof fn lemma_ack_msgs_characterized(
    events: Seq<EurekaEventView>,
    target: Seq<u8>,
    h: Height,
    signer: Seq<u8>,
)
    ensures
        forall|i: int|
            0 <= i < events.len() && ack_candidate(events[i], target) ==> ack_msgs_spec(
                events,
                target,
                h,
                signer,
            ).contains(ack_msg_of(events[i], h, signer)),
        forall|j: int|
            0 <= j < ack_msgs_spec(events, target, h, signer).len() ==> arises_from(
                events,
                ack_pred(target),
                ack_map(h, signer),
                #[trigger] ack_msgs_spec(events, target, h, signer)[j],
            ),
        ack_msgs_spec(events, target, h, signer).len() == events.filter(ack_pred(target)).len(),
{
    let pred = ack_pred(target);
    let f = ack_map(h, signer);
    assert forall|i: int|
        0 <= i < events.len() && ack_candidate(events[i], target) implies ack_msgs_spec(
        events,
        target,
        h,
        signer,
    ).contains(ack_msg_of(events[i], h, signer)) by {
        assert(pred(events[i]));
        lemma_filter_map_complete(events, pred, f, i);
        assert(f(events[i]) == ack_msg_of(events[i], h, signer));
    }
    lemma_filter_map_sound(events, pred, f);
}

/// For one target client and one clock reading, no event can qualify both
/// for a timeout message and for a receive message: the timeout condition
/// and the receive condition contradict each other on the timestamp.
pub proof fn lemma_timeout_recv_mutually_exclusive(
    ev: EurekaEventView,
    target: Seq<u8>,
    now: u64,
)
    ensures
        !(timeout_candidate(ev, target, now) && recv_candidate(ev, target, now)),
{
}

/// Converts observed events into the timeout messages owed to `target_client_id`:
/// one message per send event whose timeout has elapsed relative to `now` and
/// whose source client matches, in input order, with empty proof bytes and
/// `target_height` as provisional proof height. All other events are ignored.
pub fn target_events_to_timeout_msgs(
    target_events: &Vec<EurekaEventWithHeight>,
    target_client_id: &Vec<u8>,
    target_height: &Height,
    signer_address: &Vec<u8>,
    now: u64,
) -> (res: Vec<MsgTimeout>)
    ensures
        views_of(res@) == timeout_msgs_spec(
            event_views(target_events@),
            target_client_id@,
            *target_height,
            signer_address@,
            now,
        ),
{
    let ghost evs = event_views(target_events@);
    let ghost pred = timeout_pred(target_client_id@, now);
    let ghost f = timeout_map(*target_height, signer_address@);
    let mut res: Vec<MsgTimeout> = Vec::new();
    #[verifier::loop_isolation(false)]
    for i in 0..target_events.len()
        invariant
            views_of(res@) == evs.take(i as int).filter(pred).map_values(f),
    {
        proof {
            assert(evs.take(i + 1) =~= evs.take(i as int).push(evs[i as int]));
            lemma_filter_map_push(evs.take(i as int), evs[i as int], pred, f);
            assert(evs[i as int] == target_events@[i as int]@.event);
        }
        match &target_events[i].event {
            EurekaEvent::SendPacket(packet) => {
                if now >= packet.timeout_timestamp && bytes_eq(&packet.source_client, target_client_id) {
                    let msg = MsgTimeout {
                        packet: dup_packet(packet),
                        proof_unreceived: Vec::new(),
                        proof_height: *target_height,
                        signer: clone_bytes(signer_address),
                    };
                    res.push(msg);
                    proof {
                        assert(views_of(res@) =~= evs.take(i + 1).filter(pred).map_values(f));
                    }
                } else {
                    proof {
                        assert(views_of(res@) =~= evs.take(i + 1).filter(pred).map_values(f));
                    }
                }
            },
            EurekaEvent::WriteAcknowledgement(_, _) => {
                proof {
                    assert(views_of(res@) =~= evs.take(i + 1).filter(pred).map_values(f));
                }
            },
        }
    }
    proof {
        assert(evs.take(evs.len() as int) =~= evs);
    }
    res
}

/// Converts observed events into the receive and acknowledgement messages
/// owed to `target_client_id`: one receive message per send event not yet
/// timed out relative to `now` whose destination client matches, and one
/// acknowledgement message per acknowledgement event whose source client
/// matches, each batch in input order, with empty proof bytes and
/// `target_height` as provisional proof height.
pub fn src_events_to_recv_and_ack_msgs(
    src_events: &Vec<EurekaEventWithHeight>,
    target_client_id: &Vec<u8>,
    target_height: &Height,
    signer_address: &Vec<u8>,
    now: u64,
) -> (res: (Vec<MsgRecvPacket>, Vec<MsgAcknowledgement>))
    ensures
        views_of(res.0@) == recv_msgs_spec(
            event_views(src_events@),
            target_client_id@,
            *target_height,
            signer_address@,
            now,
        ),
        views_of(res.1@) == ack_msgs_spec(
            event_views(src_events@),
            target_client_id@,
            *target_height,
            signer_address@,
        ),
{
    let ghost evs = event_views(src_events@);
    let ghost rpred = recv_pred(target_client_id@, now);
    let ghost rf = recv_map(*target_height, signer_address@);
    let ghost apred = ack_pred(target_client_id@);
    let ghost af = ack_map(*target_height, signer_address@);
    let mut recv_msgs: Vec<MsgRecvPacket> = Vec::new();
    let mut ack_msgs: Vec<MsgAcknowledgement> = Vec::new();
    #[verifier::loop_isolation(false)]
    for i in 0..src_events.len()
        invariant
            views_of(recv_msgs@) == evs.take(i as int).filter(rpred).map_values(rf),
            views_of(ack_msgs@) == evs.take(i as int).filter(apred).map_values(af),
    {
        proof {
            assert(evs.take(i + 1) =~= evs.take(i as int).push(evs[i as int]));
            lemma_filter_map_push(evs.take(i as int), evs[i as int], rpred, rf);
            lemma_filter_map_push(evs.take(i as int), evs[i as int], apred, af);
            assert(evs[i as int] == src_events@[i as int]@.event);
        }
        match &src_events[i].event {
            EurekaEvent::SendPacket(packet) => {
                if packet.timeout_timestamp > now && bytes_eq(&packet.dest_client, target_client_id) {
                    let msg = MsgRecvPacket {
                        packet: dup_packet(packet),
                        proof_commitment: Vec::new(),
                        proof_height: *target_height,
                        signer: clone_bytes(signer_address),
                    };
                    recv_msgs.push(msg);
                }
            },
            EurekaEvent::WriteAcknowledgement(packet, acks) => {
                if bytes_eq(&packet.source_client, target_client_id) {
                    let msg = MsgAcknowledgement {
                        packet: dup_packet(packet),
                        acknowledgement: clone_bytes_list(acks),
                        proof_acked: Vec::new(),
                        proof_height: *target_height,
                        signer: clone_bytes(signer_address),
                    };
                    ack_msgs.push(msg);
                }
            },
        }
        proof {
            assert(views_of(recv_msgs@) =~= evs.take(i + 1).filter(rpred).map_values(rf));
            assert(views_of(ack_msgs@) =~= evs.take(i + 1).filter(apred).map_values(af));
        }
    }
    proof {
        assert(evs.take(evs.len() as int) =~= evs);
    }
    (recv_msgs, ack_msgs)
}

} // verus!
