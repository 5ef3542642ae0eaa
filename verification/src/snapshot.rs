use vstd::prelude::*;

use crate::bytes::{
    copy_range, le16_val, le64_val, lemma_u16_le_val, lemma_u64_le_val, push_bytes, read_u16_le,
    read_u64_le, u16_le, u64_le, write_u16_le, write_u64_le,
};
use crate::errors::Error;

verus! {

/// The snapshot of a connection state: everything needed to reconstruct an
/// equivalent state for resumption or duplication. The randoms are held in
/// their canonical 32-byte encoded form, and only the sequence number of the
/// snapshotted epoch is captured.
#[derive(Debug)]
pub struct SerializedState {
    pub local_epoch: u16,
    pub remote_epoch: u16,
    pub local_random: Vec<u8>,
    pub remote_random: Vec<u8>,
    pub cipher_suite_id: u16,
    pub master_secret: Vec<u8>,
    pub sequence_number: u64,
    pub srtp_protection_profile: u16,
    pub peer_certificates: Vec<Vec<u8>>,
    pub is_client: bool,
}

/// The mathematical content of a snapshot, with every buffer as a byte
/// sequence.
#[verifier::ext_equal]
pub ghost struct SnapshotModel {
    pub local_epoch: u16,
    pub remote_epoch: u16,
    pub local_random: Seq<u8>,
    pub remote_random: Seq<u8>,
    pub cipher_suite_id: u16,
    pub master_secret: Seq<u8>,
    pub sequence_number: u64,
    pub srtp_protection_profile: u16,
    pub peer_certificates: Seq<Seq<u8>>,
    pub is_client: bool,
}

/// The certificate list of a snapshot as a sequence of byte sequences.
pub open spec fn certs_view(v: Vec<Vec<u8>>) -> Seq<Seq<u8>> {
    Seq::new(v@.len(), |i: int| v@[i]@)
}

impl SerializedState {
    /// A snapshot is well formed when both encoded randoms are exactly 32
    /// bytes.
    pub open spec fn wf(&self) -> bool {
        &&& self.local_random@.len() == 32
        &&& self.remote_random@.len() == 32
    }

    /// The mathematical content of this snapshot.
    pub open spec fn model(&self) -> SnapshotModel {
        SnapshotModel {
            local_epoch: self.local_epoch,
            remote_epoch: self.remote_epoch,
            local_random: self.local_random@,
            remote_random: self.remote_random@,
            cipher_suite_id: self.cipher_suite_id,
            master_secret: self.master_secret@,
            sequence_number: self.sequence_number,
            srtp_protection_profile: self.srtp_protection_profile,
            peer_certificates: certs_view(self.peer_certificates),
            is_client: self.is_client,
        }
    }
}

impl SnapshotModel {
    /// Bounds under which the model has a binary encoding: the randoms are
    /// exactly 32 bytes and every length fits the 64-bit length fields.
    pub open spec fn wf(self) -> bool {
        &&& self.local_random.len() == 32
        &&& self.remote_random.len() == 32
        &&& self.master_secret.len() <= u64::MAX
        &&& self.peer_certificates.len() <= u64::MAX
        &&& forall|i: int|
            0 <= i < self.peer_certificates.len()
                ==> #[trigger] self.peer_certificates[i].len() <= u64::MAX
    }
}

/// Returns a copy of a certificate list.
pub fn clone_certs(v: &Vec<Vec<u8>>) -> (r: Vec<Vec<u8>>)
    ensures
        certs_view(r) == certs_view(*v),
{
    let mut r: Vec<Vec<u8>> = Vec::new();
    let mut i: usize = 0;
    while i < v.len()
        invariant
            i <= v@.len(),
            r@.len() == i,
            forall|j: int| 0 <= j < i ==> #[trigger] r@[j]@ == v@[j]@,
        decreases v@.len() - i,
    {
        r.push(crate::bytes::clone_bytes(&v[i]));
        i = i + 1;
    }
    proof {
        assert(certs_view(r) =~= certs_view(*v));
    }
    r
}

/// The wire form of a certificate list: each certificate is preceded by its
/// 64-bit little-endian length.
pub open spec fn wire_certs(cs: Seq<Seq<u8>>) -> Seq<u8>
    decreases cs.len(),
{
    if cs.len() == 0 {
        Seq::empty()
    } else {
        u64_le(cs[0].len() as u64) + cs[0] + wire_certs(cs.drop_first())
    }
}

/// The versioned binary form of a snapshot: the fixed-size header (epochs,
/// randoms, cipher-suite id), the length-prefixed master secret, the
/// sequence number, the SRTP profile id, the count-prefixed certificate
/// list, and the role flag as a final byte.
pub open spec fn wire(m: SnapshotModel) -> Seq<u8> {
    u16_le(m.local_epoch) + u16_le(m.remote_epoch) + m.local_random + m.remote_random + u16_le(
        m.cipher_suite_id,
    ) + u64_le(m.master_secret.len() as u64) + m.master_secret + u64_le(m.sequence_number)
        + u16_le(m.srtp_protection_profile) + u64_le(m.peer_certificates.len() as u64)
        + wire_certs(m.peer_certificates) + seq![if m.is_client { 1u8 } else { 0u8 }]
}

/// The 16-bit value encoded little-endian at offset `i` of `d`.
pub open spec fn le16_at(d: Seq<u8>, i: int) -> u16 {
    le16_val(d[i], d[i + 1])
}

/// The 64-bit value encoded little-endian at offset `i` of `d`.
pub open spec fn le64_at(d: Seq<u8>, i: int) -> u64 {
    le64_val(d[i], d[i + 1], d[i + 2], d[i + 3], d[i + 4], d[i + 5], d[i + 6], d[i + 7])
}

/// Parses `count` length-prefixed certificates starting at `pos`, returning
/// them with the offset just past the last one.
pub open spec fn parse_certs(d: Seq<u8>, pos: int, count: nat) -> Option<(Seq<Seq<u8>>, int)>
    decreases count,
{
    if count == 0 {
        Some((Seq::empty(), pos))
    } else if pos + 8 > d.len() {
        None
    } else {
        let len = le64_at(d, pos) as int;
        if pos + 8 + len > d.len() {
            None
        } else {
            let cert = d.subrange(pos + 8, pos + 8 + len);
            match parse_certs(d, pos + 8 + len, (count - 1) as nat) {
                None => None,
                Some((rest, end)) => Some((seq![cert] + rest, end)),
            }
        }
    }
}

/// Prepends already-parsed certificates to the result of parsing the rest.
pub open spec fn compose_certs(head: Seq<Seq<u8>>, r: Option<(Seq<Seq<u8>>, int)>) -> Option<
    (Seq<Seq<u8>>, int),
> {
    match r {
        None => None,
        Some((tail, end)) => Some((head + tail, end)),
    }
}

/// Parses a snapshot from its binary form. The encoding is strict: any
/// deviation, including trailing bytes, yields `None`.
pub open spec fn parse(d: Seq<u8>) -> Option<SnapshotModel> {
    if d.len() < 96 {
        None
    } else {
        let ms_len = le64_at(d, 70) as int;
        if 96 + ms_len > d.len() {
            None
        } else {
            let p1 = 78 + ms_len;
            let count = le64_at(d, p1 + 10) as nat;
            match parse_certs(d, p1 + 18, count) {
                None => None,
                Some((certs, end)) => {
                    if end + 1 == d.len() && (d[end] == 0 || d[end] == 1) {
                        Some(
                            SnapshotModel {
                                local_epoch: le16_at(d, 0),
                                remote_epoch: le16_at(d, 2),
                                local_random: d.subrange(4, 36),
                                remote_random: d.subrange(36, 68),
                                cipher_suite_id: le16_at(d, 68),
                                master_secret: d.subrange(78, 78 + ms_len),
                                sequence_number: le64_at(d, p1),
                                srtp_protection_profile: le16_at(d, p1 + 8),
                                peer_certificates: certs,
                                is_client: d[end] == 1,
                            },
                        )
                    } else {
                        None
                    }
                },
            }
        }
    }
}

/// Appending one certificate to a list appends its wire form.
proof fn lemma_wire_certs_push(cs: Seq<Seq<u8>>, c: Seq<u8>)
    ensures
        wire_certs(cs.push(c)) == wire_certs(cs) + u64_le(c.len() as u64) + c,
    decreases cs.len(),
{
    if cs.len() == 0 {
        assert(cs.push(c)[0] == c);
        assert(cs.push(c).drop_first() =~= Seq::<Seq<u8>>::empty());
        assert(wire_certs(Seq::<Seq<u8>>::empty()) == Seq::<u8>::empty());
        assert(wire_certs(cs.push(c)) =~= wire_certs(cs) + u64_le(c.len() as u64) + c);
    } else {
        assert(cs.push(c).drop_first() =~= cs.drop_first().push(c));
        lemma_wire_certs_push(cs.drop_first(), c);
        assert(cs.push(c)[0] == cs[0]);
        assert(wire_certs(cs.push(c)) =~= wire_certs(cs) + u64_le(c.len() as u64) + c);
    }
}

/// Parsing the wire form of a certificate list yields that list.
proof fn lemma_parse_certs_wire(d: Seq<u8>, pos: int, cs: Seq<Seq<u8>>)
    requires
        0 <= pos,
        pos + wire_certs(cs).len() <= d.len(),
        d.subrange(pos, pos + wire_certs(cs).len() as int) == wire_certs(cs),
        cs.len() <= u64::MAX,
        forall|i: int| 0 <= i < cs.len() ==> #[trigger] cs[i].len() <= u64::MAX,
    ensures
        parse_certs(d, pos, cs.len() as nat) == Some((cs, pos + wire_certs(cs).len())),
    decreases cs.len(),
{
    if cs.len() == 0 {
        assert(cs =~= Seq::<Seq<u8>>::empty());
    } else {
        let c0 = cs[0];
        let rest = cs.drop_first();
        let w = wire_certs(cs);
        let wr = wire_certs(rest);
        let lenb = u64_le(c0.len() as u64);
        assert(w == lenb + c0 + wr);
        assert(w.len() == 8 + c0.len() + wr.len());
        let sub = d.subrange(pos, pos + w.len() as int);
        lemma_u64_le_val(c0.len() as u64);
        assert(sub[0] == lenb[0] && sub[1] == lenb[1] && sub[2] == lenb[2] && sub[3] == lenb[3]
            && sub[4] == lenb[4] && sub[5] == lenb[5] && sub[6] == lenb[6] && sub[7] == lenb[7]);
        assert(le64_at(d, pos) == le64_val(
            sub[0],
            sub[1],
            sub[2],
            sub[3],
            sub[4],
            sub[5],
            sub[6],
            sub[7],
        ));
        assert(le64_at(d, pos) == c0.len() as u64);
        assert((c0.len() as u64) as int == c0.len() as int);
        let len = le64_at(d, pos) as int;
        assert(len == c0.len());
        assert(pos + 8 + len <= d.len());
        assert(d.subrange(pos + 8, pos + 8 + len) =~= sub.subrange(8, 8 + len));
        assert(sub.subrange(8, 8 + len) =~= c0);
        assert(d.subrange(pos + 8, pos + 8 + len) == c0);
        let pos2 = pos + 8 + len;
        assert(d.subrange(pos2, pos2 + wr.len() as int) =~= sub.subrange(8 + len, w.len() as int));
        assert(sub.subrange(8 + len, w.len() as int) =~= wr);
        assert(d.subrange(pos2, pos2 + wr.len() as int) == wr);
        assert(forall|i: int| 0 <= i < rest.len() ==> #[trigger] rest[i].len() <= u64::MAX);
        lemma_parse_certs_wire(d, pos2, rest);
        assert(parse_certs(d, pos2, rest.len() as nat) == Some((rest, pos2 + wr.len())));
        assert((cs.len() as nat - 1) as nat == rest.len() as nat);
        assert(seq![d.subrange(pos + 8, pos + 8 + len)] + rest =~= cs);
        assert(parse_certs(d, pos, cs.len() as nat) == Some((cs, pos + w.len())));
    }
}

/// Round trip at the byte level: parsing the wire form of a well-formed
/// snapshot model yields exactly that model.
pub proof fn lemma_parse_wire(m: SnapshotModel)
    requires
        m.wf(),
    ensures
        parse(wire(m)) == Some(m),
{
    let d = wire(m);
    let ms = m.master_secret;
    let cs = m.peer_certificates;
    let w = wire_certs(cs);
    let head = u16_le(m.local_epoch) + u16_le(m.remote_epoch) + m.local_random + m.remote_random
        + u16_le(m.cipher_suite_id) + u64_le(ms.len() as u64);
    assert(head.len() == 78);
    assert(d.len() == 97 + ms.len() + w.len());
    lemma_u16_le_val(m.local_epoch);
    lemma_u16_le_val(m.remote_epoch);
    lemma_u16_le_val(m.cipher_suite_id);
    lemma_u16_le_val(m.srtp_protection_profile);
    lemma_u64_le_val(ms.len() as u64);
    lemma_u64_le_val(m.sequence_number);
    lemma_u64_le_val(cs.len() as u64);
    assert(le16_at(d, 0) == m.local_epoch);
    assert(le16_at(d, 2) == m.remote_epoch);
    assert(d.subrange(4, 36) =~= m.local_random);
    assert(d.subrange(36, 68) =~= m.remote_random);
    assert(le16_at(d, 68) == m.cipher_suite_id);
    assert(le64_at(d, 70) == ms.len() as u64);
    let ms_len = le64_at(d, 70) as int;
    assert(ms_len == ms.len());
    assert(96 + ms_len <= d.len());
    assert(d.subrange(78, 78 + ms_len) =~= ms);
    let p1 = 78 + ms_len;
    assert(le64_at(d, p1) == m.sequence_number);
    assert(le16_at(d, p1 + 8) == m.srtp_protection_profile);
    assert(le64_at(d, p1 + 10) == cs.len() as u64);
    let count = le64_at(d, p1 + 10) as nat;
    assert(count == cs.len());
    assert(d.subrange(p1 + 18, p1 + 18 + w.len() as int) =~= w);
    lemma_parse_certs_wire(d, p1 + 18, cs);
    let end = p1 + 18 + w.len() as int;
    assert(end + 1 == d.len());
    assert(d[end] == if m.is_client { 1u8 } else { 0u8 });
    assert(parse(d) == Some(
        SnapshotModel {
            local_epoch: le16_at(d, 0),
            remote_epoch: le16_at(d, 2),
            local_random: d.subrange(4, 36),
            remote_random: d.subrange(36, 68),
            cipher_suite_id: le16_at(d, 68),
            master_secret: d.subrange(78, 78 + ms_len),
            sequence_number: le64_at(d, p1),
            srtp_protection_profile: le16_at(d, p1 + 8),
            peer_certificates: cs,
            is_client: d[end] == 1,
        },
    ));
    assert(parse(d).unwrap() =~= m);
}

/// Produces the binary form of a snapshot.
pub fn encode(ss: &SerializedState) -> (out: Vec<u8>)
    ensures
        out@ == wire(ss.model()),
{
    let mut out: Vec<u8> = Vec::new();
    write_u16_le(&mut out, ss.local_epoch);
    write_u16_le(&mut out, ss.remote_epoch);
    push_bytes(&mut out, ss.local_random.as_slice());
    push_bytes(&mut out, ss.remote_random.as_slice());
    write_u16_le(&mut out, ss.cipher_suite_id);
    write_u64_le(&mut out, ss.master_secret.len() as u64);
    push_bytes(&mut out, ss.master_secret.as_slice());
    write_u64_le(&mut out, ss.sequence_number);
    write_u16_le(&mut out, ss.srtp_protection_profile);
    write_u64_le(&mut out, ss.peer_certificates.len() as u64);
    let ghost head = out@;
    let ghost dv = certs_view(ss.peer_certificates);
    let mut i: usize = 0;
    while i < ss.peer_certificates.len()
        invariant
            i <= ss.peer_certificates@.len(),
            dv == certs_view(ss.peer_certificates),
            out@ == head + wire_certs(dv.take(i as int)),
        decreases ss.peer_certificates@.len() - i,
    {
        let cert = &ss.peer_certificates[i];
        write_u64_le(&mut out, cert.len() as u64);
        push_bytes(&mut out, cert.as_slice());
        proof {
            lemma_wire_certs_push(dv.take(i as int), dv[i as int]);
            assert(dv.take(i + 1) =~= dv.take(i as int).push(dv[i as int]));
            assert(out@ =~= head + wire_certs(dv.take(i + 1)));
        }
        i = i + 1;
    }
    proof {
        assert(dv.take(dv.len() as int) =~= dv);
    }
    out.push(if ss.is_client { 1 } else { 0 });
    proof {
        assert(out@ =~= wire(ss.model()));
    }
    out
}

/// Parses the binary form of a snapshot, strictly: exactly the well-formed
/// encodings are accepted, and every malformed input fails with
/// `DecodeError`.
#[verifier::loop_isolation(false)]
pub fn decode(data: &[u8]) -> (r: Result<SerializedState, Error>)
    ensures
        r is Ok <==> parse(data@) is Some,
        parse(data@) is None ==> r == Err::<SerializedState, Error>(Error::DecodeError),
        r is Ok ==> r.unwrap().wf() && r.unwrap().model() == parse(data@).unwrap(),
{
    let n = data.len();
    if n < 96 {
        return Err(Error::DecodeError);
    }
    let local_epoch = read_u16_le(data, 0);
    let remote_epoch = read_u16_le(data, 2);
    let local_random = copy_range(data, 4, 36);
    let remote_random = copy_range(data, 36, 68);
    let cipher_suite_id = read_u16_le(data, 68);
    let ms_len64 = read_u64_le(data, 70);
    if ms_len64 > (n - 96) as u64 {
        assert(96 + le64_at(data@, 70) as int > data@.len());
        return Err(Error::DecodeError);
    }
    let ms_len = ms_len64 as usize;
    let master_secret = copy_range(data, 78, 78 + ms_len);
    let p1 = 78 + ms_len;
    let sequence_number = read_u64_le(data, p1);
    let srtp_protection_profile = read_u16_le(data, p1 + 8);
    let count64 = read_u64_le(data, p1 + 10);
    let ghost count = count64 as nat;
    let ghost pos0 = p1 + 18;
    let mut certs: Vec<Vec<u8>> = Vec::new();
    let mut pos: usize = p1 + 18;
    let mut i: u64 = 0;
    proof {
        assert(certs_view(certs) =~= Seq::<Seq<u8>>::empty());
        assert(compose_certs(certs_view(certs), parse_certs(data@, pos as int, count))
            == parse_certs(data@, pos0 as int, count));
    }
    while i < count64
        invariant
            i <= count64,
            pos <= n,
            n == data@.len(),
            count == count64 as nat,
            certs_view(certs).len() == i,
            parse_certs(data@, pos0 as int, count) == compose_certs(
                certs_view(certs),
                parse_certs(data@, pos as int, (count64 - i) as nat),
            ),
        decreases count64 - i,
    {
        let ghost rem = (count64 - i) as nat;
        if n - pos < 8 {
            assert(parse_certs(data@, pos as int, rem) is None);
            return Err(Error::DecodeError);
        }
        let len64 = read_u64_le(data, pos);
        if len64 > (n - pos - 8) as u64 {
            assert(parse_certs(data@, pos as int, rem) is None);
            return Err(Error::DecodeError);
        }
        let clen = len64 as usize;
        let cert = copy_range(data, pos + 8, pos + 8 + clen);
        let ghost old_cv = certs_view(certs);
        certs.push(cert);
        proof {
            assert(certs_view(certs) =~= old_cv.push(cert@));
            let inner = parse_certs(data@, pos + 8 + clen, (rem - 1) as nat);
            assert(parse_certs(data@, pos as int, rem) == match inner {
                None => None,
                Some((rest, end)) => Some((seq![cert@] + rest, end)),
            });
            if inner is Some {
                let (rest, end) = inner.unwrap();
                assert(old_cv + (seq![cert@] + rest) =~= old_cv.push(cert@) + rest);
            }
            assert(parse_certs(data@, pos0 as int, count) == compose_certs(
                certs_view(certs),
                inner,
            ));
        }
        pos = pos + 8 + clen;
        i = i + 1;
    }
    proof {
        assert(parse_certs(data@, pos as int, (count64 - i) as nat) == Some((
            Seq::<Seq<u8>>::empty(),
            pos as int,
        )));
        assert(certs_view(certs) + Seq::<Seq<u8>>::empty() =~= certs_view(certs));
        assert(parse_certs(data@, pos0 as int, count) == Some((certs_view(certs), pos as int)));
    }
    if n - pos != 1 {
        assert(parse(data@) is None);
        return Err(Error::DecodeError);
    }
    let b = data[pos];
    if b > 1 {
        assert(parse(data@) is None);
        return Err(Error::DecodeError);
    }
    let is_client = b == 1;
    let ss = SerializedState {
        local_epoch,
        remote_epoch,
        local_random,
        remote_random,
        cipher_suite_id,
        master_secret,
        sequence_number,
        srtp_protection_profile,
        peer_certificates: certs,
        is_client,
    };
    proof {
        assert(parse(data@) is Some);
        assert(ss.model() =~= parse(data@).unwrap());
    }
    Ok(ss)
}

} // verus!
