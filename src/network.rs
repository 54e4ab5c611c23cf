//! The solution packet: a fixed-layout wire record that carries a nonce
//! obfuscated with a KangarooTwelve-derived gamma.

use vstd::prelude::*;
use crate::math::{k12_hash, kangaroo_twelve};
use crate::types::{
    bytes_from_words, bytes_to_words, lemma_bytes_words_round_trip, lemma_words_bytes_round_trip,
    words_from_bytes, words_to_bytes, Nonce, Nonce64, PublicKey64, Signature, Version,
};

verus! {

/// Number of bytes of a packet on the wire.
pub const PACKET_SIZE: usize = 200;

/// The three little-endian bytes of the low 24 bits of `n`.
pub open spec fn u24_bytes(n: u64) -> Seq<u8> {
    seq![(n & 0xff) as u8, ((n >> 8) & 0xff) as u8, ((n >> 16) & 0xff) as u8]
}

/// Value of three little-endian bytes.
pub open spec fn u24_value(b: Seq<u8>) -> nat {
    b[0] as nat + 256 * (b[1] as nat) + 65536 * (b[2] as nat)
}

/// The gamming key of a gamming nonce: 32 bytes of KangarooTwelve output of a
/// zero shared key followed by the nonce.
pub open spec fn gamming_key_of(gamming_nonce: Seq<u8>) -> Seq<u8> {
    kangaroo_twelve(Seq::new(32, |i: int| 0u8) + gamming_nonce, 32)
}

/// The gamma of a gamming key: 32 bytes of KangarooTwelve output of the key.
pub open spec fn gamma_of(gamming_key: Seq<u8>) -> Seq<u8> {
    kangaroo_twelve(gamming_key, 32)
}

/// Byte-wise exclusive or.
pub open spec fn xor_bytes(a: Seq<u8>, b: Seq<u8>) -> Seq<u8> {
    Seq::new(a.len(), |i: int| a[i] ^ b[i])
}

proof fn lemma_u24(n: u64)
    ensures
        (n & 0xff) as u8 as nat + 256 * (((n >> 8) & 0xff) as u8 as nat) + 65536 * ((
        (n >> 16) & 0xff) as u8 as nat) == n % 0x100_0000,
{
    assert((n & 0xff) + 256 * ((n >> 8) & 0xff) + 65536 * ((n >> 16) & 0xff) == n % 0x100_0000)
        by (bit_vector);
    assert((n & 0xff) < 256 && ((n >> 8) & 0xff) < 256 && ((n >> 16) & 0xff) < 256)
        by (bit_vector);
}

/// The header of a request or response.
#[derive(Debug, Clone, Copy)]
pub struct RequestResponseHeader {
    size: [u8; 3],
    protocol: u8,
    dejavu: [u8; 3],
    message_type: u8,
}

impl RequestResponseHeader {
    /// The size field.
    pub closed spec fn size_bytes(&self) -> Seq<u8> {
        self.size@
    }

    /// The protocol byte.
    pub closed spec fn protocol_view(&self) -> u8 {
        self.protocol
    }

    /// The dejavu field.
    pub closed spec fn dejavu_bytes(&self) -> Seq<u8> {
        self.dejavu@
    }

    /// The type byte.
    pub closed spec fn type_view(&self) -> u8 {
        self.message_type
    }

    /// The eight header bytes in wire order.
    pub open spec fn bytes(&self) -> Seq<u8> {
        self.size_bytes() + seq![self.protocol_view()] + self.dejavu_bytes() + seq![self.type_view()]
    }

    /// Builds a header of the given type and size, with the minor version
    /// component as protocol and a zero dejavu.
    pub fn new(in_type: &u8, in_size: &usize, version: &Version) -> (r: Self)
        ensures
            r.size_bytes() == u24_bytes(*in_size as u64),
            r.protocol_view() == version@[1],
            r.dejavu_bytes() == seq![0u8, 0u8, 0u8],
            r.type_view() == *in_type,
    {
        let mut header = RequestResponseHeader {
            size: [0u8; 3],
            protocol: 0,
            dejavu: [0u8; 3],
            message_type: 0,
        };
        header.set_size(in_size);
        header.set_protocol(version);
        header.zeroed_dejavu();
        header.set_type(in_type);
        header
    }

    /// The size: the three size bytes read little-endian.
    pub fn get_size(&self) -> (r: usize)
        ensures
            r == u24_value(self.size_bytes()),
    {
        self.size[0] as usize + 256 * (self.size[1] as usize) + 65536 * (self.size[2] as usize)
    }

    /// Stores the low 24 bits of `new_size`, little-endian.
    pub fn set_size(&mut self, new_size: &usize)
        ensures
            final(self).size_bytes() == u24_bytes(*new_size as u64),
            u24_value(final(self).size_bytes()) == *new_size as nat % 0x100_0000,
            final(self).protocol_view() == old(self).protocol_view(),
            final(self).dejavu_bytes() == old(self).dejavu_bytes(),
            final(self).type_view() == old(self).type_view(),
    {
        let n = *new_size as u64;
        self.size = [(n & 0xff) as u8, ((n >> 8) & 0xff) as u8, ((n >> 16) & 0xff) as u8];
        proof {
            lemma_u24(n);
        }
        assert(self.size@ =~= u24_bytes(n));
    }

    /// The protocol byte.
    pub fn get_protocol(&self) -> (r: u8)
        ensures
            r == self.protocol_view(),
    {
        self.protocol
    }

    /// Sets the protocol byte to the minor component of `version`.
    pub fn set_protocol(&mut self, version: &Version)
        ensures
            final(self).protocol_view() == version@[1],
            final(self).size_bytes() == old(self).size_bytes(),
            final(self).dejavu_bytes() == old(self).dejavu_bytes(),
            final(self).type_view() == old(self).type_view(),
    {
        self.protocol = version[1];
    }

    /// Whether every dejavu byte is zero.
    pub fn is_dejavu_zero(&self) -> (r: bool)
        ensures
            r == (self.dejavu_bytes() == seq![0u8, 0u8, 0u8]),
    {
        let r = self.dejavu[0] == 0 && self.dejavu[1] == 0 && self.dejavu[2] == 0;
        assert(r ==> self.dejavu@ =~= seq![0u8, 0u8, 0u8]);
        assert(self.dejavu@ == seq![0u8, 0u8, 0u8] ==> self.dejavu@[0] == 0 && self.dejavu@[1] == 0
            && self.dejavu@[2] == 0);
        r
    }

    /// Zeroes the dejavu field.
    pub fn zeroed_dejavu(&mut self)
        ensures
            final(self).dejavu_bytes() == seq![0u8, 0u8, 0u8],
            final(self).size_bytes() == old(self).size_bytes(),
            final(self).protocol_view() == old(self).protocol_view(),
            final(self).type_view() == old(self).type_view(),
    {
        self.dejavu = [0u8; 3];
        assert(self.dejavu@ =~= seq![0u8, 0u8, 0u8]);
    }

    /// Sets the dejavu field to the three low bytes of `random`, little-endian.
    pub fn randomize_dejavu(&mut self, random: u32)
        ensures
            final(self).dejavu_bytes() == u24_bytes(random as u64),
            final(self).size_bytes() == old(self).size_bytes(),
            final(self).protocol_view() == old(self).protocol_view(),
            final(self).type_view() == old(self).type_view(),
    {
        let n = random as u64;
        self.dejavu = [(n & 0xff) as u8, ((n >> 8) & 0xff) as u8, ((n >> 16) & 0xff) as u8];
        assert(self.dejavu@ =~= u24_bytes(n));
    }

    /// The type byte.
    pub fn get_type(&self) -> (r: u8)
        ensures
            r == self.type_view(),
    {
        self.message_type
    }

    /// Sets the type byte.
    pub fn set_type(&mut self, new_type: &u8)
        ensures
            final(self).type_view() == *new_type,
            final(self).size_bytes() == old(self).size_bytes(),
            final(self).protocol_view() == old(self).protocol_view(),
            final(self).dejavu_bytes() == old(self).dejavu_bytes(),
    {
        self.message_type = *new_type;
    }
}

/// The message part of a packet.
#[derive(Debug, Clone, Copy)]
pub struct Message {
    source_public_key: PublicKey64,
    destination_public_key: PublicKey64,
    gamming_nonce: Nonce64,
}

impl Message {
    /// The source public key.
    pub closed spec fn source_view(&self) -> Seq<u64> {
        self.source_public_key@
    }

    /// The destination public key.
    pub closed spec fn destination_view(&self) -> Seq<u64> {
        self.destination_public_key@
    }

    /// The gamming nonce.
    pub closed spec fn gamming_nonce_view(&self) -> Seq<u64> {
        self.gamming_nonce@
    }

    /// The 96 message bytes in wire order.
    pub open spec fn bytes(&self) -> Seq<u8> {
        words_to_bytes(self.source_view()) + words_to_bytes(self.destination_view())
            + words_to_bytes(self.gamming_nonce_view())
    }

    /// The gamming nonce.
    pub fn get_gamming_nonce(&self) -> (r: Nonce64)
        ensures
            r@ == self.gamming_nonce_view(),
    {
        self.gamming_nonce
    }

    /// The source public key.
    pub fn get_source_public_key(&self) -> (r: PublicKey64)
        ensures
            r@ == self.source_view(),
    {
        self.source_public_key
    }

    /// The destination public key.
    pub fn get_destination_public_key(&self) -> (r: PublicKey64)
        ensures
            r@ == self.destination_view(),
    {
        self.destination_public_key
    }
}

/// Solution nonce carried for `in_nonce` under the gamma of a gamming nonce.
pub open spec fn solution_words(in_nonce: Seq<u64>, gamming_nonce: Seq<u8>) -> Seq<u64> {
    bytes_to_words(xor_bytes(words_to_bytes(in_nonce), gamma_of(gamming_key_of(gamming_nonce))))
}

/// Nonce recovered from a solution nonce and the gamming nonce sent beside it.
pub open spec fn recovered_words(solution_nonce: Seq<u64>, gamming_nonce: Seq<u64>) -> Seq<u64> {
    bytes_to_words(
        xor_bytes(
            words_to_bytes(solution_nonce),
            gamma_of(gamming_key_of(words_to_bytes(gamming_nonce))),
        ),
    )
}

proof fn lemma_xor_twice(a: u8, g: u8)
    by (bit_vector)
    ensures
        (a ^ g) ^ g == a,
{
}

/// Recovering the nonce of a packet with the gamma of its gamming nonce gives
/// the nonce that was put in.
pub proof fn lemma_gamma_involution(in_nonce: Seq<u64>, gamming_nonce: Seq<u8>)
    requires
        in_nonce.len() == 4,
        gamming_nonce.len() == 32,
    ensures
        recovered_words(solution_words(in_nonce, gamming_nonce), bytes_to_words(gamming_nonce))
            == in_nonce,
{
    let g = gamma_of(gamming_key_of(gamming_nonce));
    let x = xor_bytes(words_to_bytes(in_nonce), g);
    lemma_bytes_words_round_trip(gamming_nonce);
    lemma_bytes_words_round_trip(x);
    let y = xor_bytes(x, g);
    assert forall|i: int| 0 <= i < 32 implies #[trigger] y[i] == words_to_bytes(in_nonce)[i] by {
        lemma_xor_twice(words_to_bytes(in_nonce)[i], g[i]);
    }
    assert(y =~= words_to_bytes(in_nonce));
    lemma_words_bytes_round_trip(in_nonce);
}

/// Appends the little-endian bytes of `w`.
fn append_words(out: &mut Vec<u8>, w: &[u64])
    requires
        w@.len() <= 8,
    ensures
        final(out)@ == old(out)@ + words_to_bytes(w@),
{
    let n = w.len() * 8;
    let mut i: usize = 0;
    while i < n
        invariant
            n == 8 * w@.len(),
            i <= n,
            out@ == old(out)@ + words_to_bytes(w@).subrange(0, i as int),
        decreases n - i,
    {
        let k = (i % 8) as u64;
        out.push(((w[i / 8] >> (8 * k)) & 0xff) as u8);
        i = i + 1;
        assert(words_to_bytes(w@).subrange(0, i as int) =~= words_to_bytes(w@).subrange(
            0,
            i - 1,
        ).push(words_to_bytes(w@)[i - 1]));
    }
    assert(words_to_bytes(w@).subrange(0, n as int) =~= words_to_bytes(w@));
}

/// A solution packet: header, message, obfuscated solution nonce and signature slot.
#[derive(Debug, Clone, Copy)]
pub struct Packet {
    header: RequestResponseHeader,
    message: Message,
    solution_nonce: Nonce64,
    signature: Signature,
}

impl Packet {
    /// The header.
    pub closed spec fn header_view(&self) -> RequestResponseHeader {
        self.header
    }

    /// The message.
    pub closed spec fn message_view(&self) -> Message {
        self.message
    }

    /// The obfuscated solution nonce.
    pub closed spec fn solution_nonce_view(&self) -> Seq<u64> {
        self.solution_nonce@
    }

    /// The signature slot.
    pub closed spec fn signature_view(&self) -> Seq<u64> {
        self.signature@
    }

    /// The size field declares `PACKET_SIZE`.
    pub open spec fn wf(&self) -> bool {
        self.header_view().size_bytes() == u24_bytes(PACKET_SIZE as u64)
    }

    /// The packet bytes in wire order, without padding.
    pub open spec fn bytes(&self) -> Seq<u8> {
        self.header_view().bytes() + self.message_view().bytes() + words_to_bytes(
            self.solution_nonce_view(),
        ) + words_to_bytes(self.signature_view())
    }

    /// Builds the packet that reports `in_nonce` for `computor_public_key`.
    ///
    /// `nonce_candidate` is a freshly drawn gamming nonce: its gamming key is
    /// the KangarooTwelve output of a zero shared key followed by it. A
    /// candidate whose key starts with a zero byte is rejected, as is a
    /// `dejavu_random` whose low three bytes are zero; the caller then draws
    /// again. Otherwise the solution nonce is `in_nonce` xor the gamma of the
    /// key, the dejavu is the low three bytes of `dejavu_random`, and
    /// `signature` fills the signature slot.
    pub fn new(
        message_type: &u8,
        version: &Version,
        computor_public_key: &PublicKey64,
        in_nonce: &Nonce64,
        nonce_candidate: &Nonce,
        dejavu_random: u32,
        signature: &Signature,
    ) -> (r: Option<Packet>)
        ensures
            r is None <==> (gamming_key_of(nonce_candidate@)[0] == 0 || dejavu_random & 0xFF_FFFF
                == 0),
            r matches Some(p) ==> {
                &&& p.wf()
                &&& p.header_view().protocol_view() == version@[1]
                &&& p.header_view().dejavu_bytes() == u24_bytes(dejavu_random as u64)
                &&& p.header_view().type_view() == *message_type
                &&& p.message_view().source_view() == seq![0u64, 0u64, 0u64, 0u64]
                &&& p.message_view().destination_view() == computor_public_key@
                &&& p.message_view().gamming_nonce_view() == bytes_to_words(nonce_candidate@)
                &&& p.solution_nonce_view() == solution_words(in_nonce@, nonce_candidate@)
                &&& p.signature_view() == signature@
                &&& gamming_key_of(words_to_bytes(p.message_view().gamming_nonce_view()))[0] != 0
            },
    {
        let mut shared_key_and_gamming_nonce: [u8; 64] = [0u8; 64];
        let mut i: usize = 0;
        while i < 32
            invariant
                i <= 32,
                forall|k: int| 0 <= k < 32 ==> shared_key_and_gamming_nonce@[k] == 0,
                forall|k: int|
                    32 <= k < 32 + i ==> shared_key_and_gamming_nonce@[k] == nonce_candidate@[k
                        - 32],
            decreases 32 - i,
        {
            shared_key_and_gamming_nonce[32 + i] = nonce_candidate[i];
            i = i + 1;
        }
        assert(shared_key_and_gamming_nonce@ =~= Seq::new(32, |i: int| 0u8) + nonce_candidate@);
        let gamming_key = k12_hash(&shared_key_and_gamming_nonce, 32);
        if gamming_key[0] == 0 {
            return None;
        }
        if dejavu_random & 0xFF_FFFF == 0 {
            return None;
        }
        let gamma = k12_hash(gamming_key.as_slice(), 32);
        let in_bytes = bytes_from_words(in_nonce);
        let mut nonce_buffer: [u8; 32] = [0u8; 32];
        let mut i: usize = 0;
        while i < 32
            invariant
                i <= 32,
                gamma@.len() == 32,
                forall|k: int| 0 <= k < i ==> nonce_buffer@[k] == in_bytes@[k] ^ gamma@[k],
            decreases 32 - i,
        {
            nonce_buffer[i] = in_bytes[i] ^ gamma[i];
            i = i + 1;
        }
        assert(nonce_buffer@ =~= xor_bytes(words_to_bytes(in_nonce@), gamma@));
        let solution_nonce = words_from_bytes(&nonce_buffer);
        let gamming_nonce = words_from_bytes(nonce_candidate);
        proof {
            lemma_bytes_words_round_trip(nonce_candidate@);
        }
        let mut header = RequestResponseHeader::new(message_type, &PACKET_SIZE, version);
        header.randomize_dejavu(dejavu_random);
        let message = Message {
            source_public_key: [0u64; 4],
            destination_public_key: *computor_public_key,
            gamming_nonce,
        };
        assert(message.source_public_key@ =~= seq![0u64, 0u64, 0u64, 0u64]);
        Some(Packet { header, message, solution_nonce, signature: *signature })
    }

    /// The header.
    pub fn get_header(&self) -> (r: RequestResponseHeader)
        ensures
            r == self.header_view(),
    {
        self.header
    }

    /// The message.
    pub fn get_message(&self) -> (r: Message)
        ensures
            r == self.message_view(),
    {
        self.message
    }

    /// The obfuscated solution nonce.
    pub fn get_solution_nonce(&self) -> (r: Nonce64)
        ensures
            r@ == self.solution_nonce_view(),
    {
        self.solution_nonce
    }

    /// The signature slot.
    pub fn get_signature(&self) -> (r: Signature)
        ensures
            r@ == self.signature_view(),
    {
        self.signature
    }

    /// Recovers the reported nonce: the solution nonce xor the gamma of the
    /// gamming nonce.
    pub fn recover_solution_nonce(&self) -> (r: Nonce64)
        ensures
            r@ == recovered_words(self.solution_nonce_view(), self.message_view().gamming_nonce_view()),
    {
        let gamming_nonce = bytes_from_words(&self.message.gamming_nonce);
        let mut shared_key_and_gamming_nonce: [u8; 64] = [0u8; 64];
        let mut i: usize = 0;
        while i < 32
            invariant
                i <= 32,
                forall|k: int| 0 <= k < 32 ==> shared_key_and_gamming_nonce@[k] == 0,
                forall|k: int|
                    32 <= k < 32 + i ==> shared_key_and_gamming_nonce@[k] == gamming_nonce@[k - 32],
            decreases 32 - i,
        {
            shared_key_and_gamming_nonce[32 + i] = gamming_nonce[i];
            i = i + 1;
        }
        assert(shared_key_and_gamming_nonce@ =~= Seq::new(32, |i: int| 0u8) + gamming_nonce@);
        let gamming_key = k12_hash(&shared_key_and_gamming_nonce, 32);
        let gamma = k12_hash(gamming_key.as_slice(), 32);
        let solution_bytes = bytes_from_words(&self.solution_nonce);
        let mut nonce_buffer: [u8; 32] = [0u8; 32];
        let mut i: usize = 0;
        while i < 32
            invariant
                i <= 32,
                gamma@.len() == 32,
                forall|k: int| 0 <= k < i ==> nonce_buffer@[k] == solution_bytes@[k] ^ gamma@[k],
            decreases 32 - i,
        {
            nonce_buffer[i] = solution_bytes[i] ^ gamma[i];
            i = i + 1;
        }
        assert(nonce_buffer@ =~= xor_bytes(solution_bytes@, gamma@));
        words_from_bytes(&nonce_buffer)
    }

    /// Serialises the packet field by field, in wire order.
    pub fn to_bytes(&self) -> (r: Vec<u8>)
        ensures
            r@ == self.bytes(),
            r@.len() == PACKET_SIZE,
    {
        let mut out: Vec<u8> = Vec::new();
        out.push(self.header.size[0]);
        out.push(self.header.size[1]);
        out.push(self.header.size[2]);
        out.push(self.header.protocol);
        out.push(self.header.dejavu[0]);
        out.push(self.header.dejavu[1]);
        out.push(self.header.dejavu[2]);
        out.push(self.header.message_type);
        assert(out@ =~= self.header.bytes());
        append_words(&mut out, &self.message.source_public_key);
        append_words(&mut out, &self.message.destination_public_key);
        append_words(&mut out, &self.message.gamming_nonce);
        append_words(&mut out, &self.solution_nonce);
        append_words(&mut out, &self.signature);
        assert(out@ =~= self.bytes());
        out
    }
}

/// The bytes of a packet are as many as its size field declares.
pub proof fn lemma_packet_size(packet: Packet)
    requires
        packet.wf(),
    ensures
        packet.bytes().len() == PACKET_SIZE,
        u24_value(packet.bytes().subrange(0, 3)) == PACKET_SIZE,
{
    let b = packet.bytes();
    let s = packet.header_view().size_bytes();
    assert(b.subrange(0, 3) =~= s);
    lemma_u24(PACKET_SIZE as u64);
}

} // verus!
