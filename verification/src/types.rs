use vstd::prelude::*;

verus! {

/// A chain state snapshot identifier: revision number plus revision height.
/// Every outbound message carries exactly one height at which its proof is valid.
#[derive(Clone, Copy, PartialEq, Eq, Structural, Debug)]
pub struct Height {
    pub revision_number: u64,
    pub revision_height: u64,
}

impl Height {
    /// The zero-value height, used by the mock proof injector.
    pub fn zero() -> (r: Height)
        ensures
            r == (Height { revision_number: 0, revision_height: 0 }),
    {
        Height { revision_number: 0, revision_height: 0 }
    }
}

/// One cross-chain message transfer, identified by its client identifiers,
/// sequence number, payload and timeout timestamp. Client identifiers and the
/// signer are carried as their byte representation.
#[derive(Debug)]
pub struct Packet {
    pub sequence: u64,
    pub source_client: Vec<u8>,
    pub dest_client: Vec<u8>,
    pub timeout_timestamp: u64,
    pub payload: Vec<u8>,
}

/// The mathematical value of a [`Packet`].
pub ghost struct PacketView {
    pub sequence: u64,
    pub source_client: Seq<u8>,
    pub dest_client: Seq<u8>,
    pub timeout_timestamp: u64,
    pub payload: Seq<u8>,
}

impl View for Packet {
    type V = PacketView;

    open spec fn view(&self) -> PacketView {
        PacketView {
            sequence: self.sequence,
            source_client: self.source_client@,
            dest_client: self.dest_client@,
            timeout_timestamp: self.timeout_timestamp,
            payload: self.payload@,
        }
    }
}

/// A packet lifecycle fact observed on a chain: either a packet was sent, or
/// an acknowledgement for it was written, together with the per-app
/// acknowledgement byte strings.
#[derive(Debug)]
pub enum EurekaEvent {
    SendPacket(Packet),
    WriteAcknowledgement(Packet, Vec<Vec<u8>>),
}

/// The mathematical value of a [`EurekaEvent`].
pub ghost enum EurekaEventView {
    SendPacket(PacketView),
    WriteAcknowledgement(PacketView, Seq<Seq<u8>>),
}

impl View for EurekaEvent {
    type V = EurekaEventView;

    open spec fn view(&self) -> EurekaEventView {
        match self {
            EurekaEvent::SendPacket(p) => EurekaEventView::SendPacket(p@),
            EurekaEvent::WriteAcknowledgement(p, acks) => EurekaEventView::WriteAcknowledgement(
                p@,
                acks.deep_view(),
            ),
        }
    }
}

/// An observed event together with the height at which it was observed.
#[derive(Debug)]
pub struct EurekaEventWithHeight {
    pub event: EurekaEvent,
    pub height: Height,
}

/// The mathematical value of a [`EurekaEventWithHeight`].
pub ghost struct EurekaEventWithHeightView {
    pub event: EurekaEventView,
    pub height: Height,
}

impl View for EurekaEventWithHeight {
    type V = EurekaEventWithHeightView;

    open spec fn view(&self) -> EurekaEventWithHeightView {
        EurekaEventWithHeightView { event: self.event@, height: self.height }
    }
}

/// Outbound message asking the counterparty to receive a packet; carries a
/// proof of the packet commitment on the sending chain.
#[derive(Debug)]
pub struct MsgRecvPacket {
    pub packet: Packet,
    pub proof_commitment: Vec<u8>,
    pub proof_height: Height,
    pub signer: Vec<u8>,
}

/// The mathematical value of a [`MsgRecvPacket`].
pub ghost struct MsgRecvPacketView {
    pub packet: PacketView,
    pub proof_commitment: Seq<u8>,
    pub proof_height: Height,
    pub signer: Seq<u8>,
}

impl View for MsgRecvPacket {
    type V = MsgRecvPacketView;

    open spec fn view(&self) -> MsgRecvPacketView {
        MsgRecvPacketView {
            packet: self.packet@,
            proof_commitment: self.proof_commitment@,
            proof_height: self.proof_height,
            signer: self.signer@,
        }
    }
}

/// Outbound message acknowledging a packet toward its source chain; carries
/// the acknowledgement payloads and a proof that they were written.
#[derive(Debug)]
pub struct MsgAcknowledgement {
    pub packet: Packet,
    pub acknowledgement: Vec<Vec<u8>>,
    pub proof_acked: Vec<u8>,
    pub proof_height: Height,
    pub signer: Vec<u8>,
}

/// The mathematical value of a [`MsgAcknowledgement`].
pub ghost struct MsgAcknowledgementView {
    pub packet: PacketView,
    pub acknowledgement: Seq<Seq<u8>>,
    pub proof_acked: Seq<u8>,
    pub proof_height: Height,
    pub signer: Seq<u8>,
}

impl View for MsgAcknowledgement {
    type V = MsgAcknowledgementView;

    open spec fn view(&self) -> MsgAcknowledgementView {
        MsgAcknowledgementView {
            packet: self.packet@,
            acknowledgement: self.acknowledgement.deep_view(),
            proof_acked: self.proof_acked@,
            proof_height: self.proof_height,
            signer: self.signer@,
        }
    }
}

/// Outbound message timing out a packet; carries a proof that the packet was
/// never received on the counterparty chain.
#[derive(Debug)]
pub struct MsgTimeout {
    pub packet: Packet,
    pub proof_unreceived: Vec<u8>,
    pub proof_height: Height,
    pub signer: Vec<u8>,
}

/// The mathematical value of a [`MsgTimeout`].
pub ghost struct MsgTimeoutView {
    pub packet: PacketView,
    pub proof_unreceived: Seq<u8>,
    pub proof_height: Height,
    pub signer: Seq<u8>,
}

impl View for MsgTimeout {
    type V = MsgTimeoutView;

    open spec fn view(&self) -> MsgTimeoutView {
        MsgTimeoutView {
            packet: self.packet@,
            proof_unreceived: self.proof_unreceived@,
            proof_height: self.proof_height,
            signer: self.signer@,
        }
    }
}

/// A receive message with its proof fields filled: proof bytes and proof
/// height are set together, everything else is kept.
pub open spec fn recv_filled(m: MsgRecvPacketView, pf: Seq<u8>, h: Height) -> MsgRecvPacketView {
    MsgRecvPacketView { packet: m.packet, proof_commitment: pf, proof_height: h, signer: m.signer }
}

/// An acknowledgement message with its proof fields filled.
pub open spec fn ack_filled(m: MsgAcknowledgementView, pf: Seq<u8>, h: Height) -> MsgAcknowledgementView {
    MsgAcknowledgementView {
        packet: m.packet,
        acknowledgement: m.acknowledgement,
        proof_acked: pf,
        proof_height: h,
        signer: m.signer,
    }
}

/// A timeout message with its proof fields filled.
pub open spec fn timeout_filled(m: MsgTimeoutView, pf: Seq<u8>, h: Height) -> MsgTimeoutView {
    MsgTimeoutView { packet: m.packet, proof_unreceived: pf, proof_height: h, signer: m.signer }
}

/// The sequence of mathematical values of a sequence of library values.
pub open spec fn views_of<T: View>(s: Seq<T>) -> Seq<T::V> {
    s.map_values(|x: T| x@)
}

/// The mathematical value of a proof-injection result: the three batches'
/// views on success, the error unchanged on failure.
pub open spec fn result_views<E>(
    r: Result<(Vec<MsgRecvPacket>, Vec<MsgAcknowledgement>, Vec<MsgTimeout>), E>,
) -> Result<(Seq<MsgRecvPacketView>, Seq<MsgAcknowledgementView>, Seq<MsgTimeoutView>), E> {
    match r {
        Ok(t) => Ok((views_of(t.0@), views_of(t.1@), views_of(t.2@))),
        Err(e) => Err(e),
    }
}

/// Mapping a pushed sequence pushes the image.
pub proof fn lemma_map_values_push<A, B>(s: Seq<A>, x: A, f: spec_fn(A) -> B)
    ensures
        s.push(x).map_values(f) == s.map_values(f).push(f(x)),
{
    assert(s.push(x).map_values(f) =~= s.map_values(f).push(f(x)));
}

/// Concatenation then push is push into the right part.
pub proof fn lemma_add_push<A>(a: Seq<A>, b: Seq<A>, x: A)
    ensures
        (a + b).push(x) == a + b.push(x),
{
    assert((a + b).push(x) =~= a + b.push(x));
}

/// The observed events of a sequence of events-with-height.
pub open spec fn event_views(s: Seq<EurekaEventWithHeight>) -> Seq<EurekaEventView> {
    s.map_values(|e: EurekaEventWithHeight| e@.event)
}

/// Compares two byte strings.
pub fn bytes_eq(a: &Vec<u8>, b: &Vec<u8>) -> (r: bool)
    ensures
        r == (a@ == b@),
{
    if a.len() != b.len() {
        return false;
    }
    for i in 0..a.len()
        invariant
            a@.len() == b@.len(),
            forall|j: int| 0 <= j < i ==> a@[j] == b@[j],
    {
        if a[i] != b[i] {
            return false;
        }
    }
    proof {
        assert(a@ =~= b@);
    }
    true
}

/// Copies a byte string.
pub fn clone_bytes(v: &Vec<u8>) -> (r: Vec<u8>)
    ensures
        r@ == v@,
{
    let mut r: Vec<u8> = Vec::new();
    for i in 0..v.len()
        invariant
            r@ == v@.take(i as int),
    {
        r.push(v[i]);
        proof {
            assert(v@.take(i + 1) =~= v@.take(i as int).push(v@[i as int]));
        }
    }
    proof {
        assert(v@.take(v@.len() as int) =~= v@);
    }
    r
}

/// Copies a list of byte strings.
pub fn clone_bytes_list(v: &Vec<Vec<u8>>) -> (r: Vec<Vec<u8>>)
    ensures
        r.deep_view() == v.deep_view(),
{
    let mut r: Vec<Vec<u8>> = Vec::new();
    for i in 0..v.len()
        invariant
            r.deep_view() == v.deep_view().take(i as int),
    {
        r.push(clone_bytes(&v[i]));
        proof {
            assert(v.deep_view().take(i + 1) =~= v.deep_view().take(i as int).push(
                v.deep_view()[i as int],
            ));
            assert(r.deep_view() =~= v.deep_view().take(i as int).push(v.deep_view()[i as int]));
        }
    }
    proof {
        assert(v.deep_view().take(v.deep_view().len() as int) =~= v.deep_view());
    }
    r
}

/// Copies a packet.
pub fn dup_packet(p: &Packet) -> (r: Packet)
    ensures
        r@ == p@,
{
    Packet {
        sequence: p.sequence,
        source_client: clone_bytes(&p.source_client),
        dest_client: clone_bytes(&p.dest_client),
        timeout_timestamp: p.timeout_timestamp,
        payload: clone_bytes(&p.payload),
    }
}

} // verus!
