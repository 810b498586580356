//! Client side of the binary query protocol.
//!
//! A session greets the server with a fixed magic preamble, validates the
//! eight-byte protocol tag the server answers with, sends the four-byte
//! query-players command frame, and then walks the response stream frame
//! by frame — `[len_hi, len_lo, cmd0, cmd1]` headers followed by `len`
//! payload bytes — discarding frames whose command code does not match,
//! until the query-players response arrives and the player count can be
//! decoded from byte-pair index 1 of its payload.
//!
//! The session itself performs no I/O: the caller reads from the socket
//! and feeds each block of bytes in, and every decision about those bytes
//! is made (and verified) here.

use vstd::prelude::*;
use vstd::slice::slice_to_vec;

verus! {

/// First byte of the query-players command code (ASCII 'q').
pub const QUERY_PLAYERS_0: u8 = 113;

/// Second byte of the query-players command code (ASCII 'p').
pub const QUERY_PLAYERS_1: u8 = 112;

/// The eight-byte protocol/version tag the server must answer with:
/// ASCII "BZFS0221".
pub open spec fn protocol_tag() -> Seq<u8> {
    seq![66u8, 90u8, 70u8, 83u8, 48u8, 50u8, 50u8, 49u8]
}

/// The ten-byte magic preamble the client sends on connecting:
/// ASCII "BZFLAG" followed by CRLF CRLF.
pub open spec fn magic_preamble() -> Seq<u8> {
    seq![66u8, 90u8, 70u8, 76u8, 65u8, 71u8, 13u8, 10u8, 13u8, 10u8]
}

/// The four-byte query-players command frame: a zero length field (the
/// command carries no payload) followed by the two-byte command code.
pub open spec fn command_frame() -> Seq<u8> {
    seq![0u8, 0u8, QUERY_PLAYERS_0, QUERY_PLAYERS_1]
}

/// The protocol's two-byte unpacking rule over the byte pair at `index`:
/// the high byte is shifted right by eight — which always yields zero for
/// a byte-width value — and or-ed with the low byte. The degenerate shift
/// is deliberate: it is the rule the protocol peers actually use.
pub open spec fn spec_unpack_u16(s: Seq<u8>, index: int) -> u16 {
    ((s[2 * index] as u16) >> 8) | (s[2 * index + 1] as u16)
}

/// Unpack the two-byte field at byte-pair `index` of `bytes`.
pub fn unpack_u16(bytes: &[u8], index: usize) -> (r: u16)
    requires
        2 * index + 2 <= bytes@.len(),
    ensures
        r == spec_unpack_u16(bytes@, index as int),
{
    let n = bytes.len();
    proof {
        // n is a usize, so the pair's indices fit in usize too
        assert(2 * index + 2 <= n);
    }
    ((bytes[2 * index] as u16) >> 8) | (bytes[2 * index + 1] as u16)
}

/// The unpacking rule discards the high byte entirely: the result is
/// always the low byte of the pair, never a genuine big-endian read.
pub proof fn lemma_unpack_discards_high(s: Seq<u8>, index: int)
    requires
        0 <= index,
        2 * index + 2 <= s.len(),
    ensures
        spec_unpack_u16(s, index) == s[2 * index + 1] as u16,
{
    let hi = s[2 * index] as u16;
    let lo = s[2 * index + 1] as u16;
    assert((hi >> 8) | lo == lo) by (bit_vector)
        requires hi < 256;
}

/// Why a query failed, short of the socket itself failing.
#[derive(Debug)]
pub enum QueryError {
    /// The server's greeting did not carry the expected tag; the raw
    /// bytes received are kept for diagnostics.
    ProtocolVersionMismatch { received: Vec<u8> },
    /// A frame implied more bytes than the stream supplied, or a
    /// query-players payload was too short to hold the count.
    BufferTooShort,
}

/// Spec-level image of `QueryError`.
pub enum ErrorModel {
    ProtocolVersionMismatch { received: Seq<u8> },
    BufferTooShort,
}

impl View for QueryError {
    type V = ErrorModel;

    open spec fn view(&self) -> ErrorModel {
        match self {
            QueryError::ProtocolVersionMismatch { received } => (
                ErrorModel::ProtocolVersionMismatch { received: received@ }
            ),
            QueryError::BufferTooShort => ErrorModel::BufferTooShort,
        }
    }
}

/// Where a query session stands between two reads.
#[derive(Debug)]
pub enum SessionState {
    /// Waiting for the server's greeting block.
    ExpectHandshake,
    /// Waiting for the next four-byte frame header.
    ExpectHeader,
    /// Waiting for `len` payload bytes; `code_match` records whether the
    /// header carried the query-players response code.
    ExpectPayload { len: u16, code_match: bool },
    /// The count was decoded; the session is over.
    Done { count: u16 },
    /// The session failed; the state never changes again.
    Failed { error: QueryError },
}

/// Spec-level image of `SessionState`.
pub enum StateModel {
    ExpectHandshake,
    ExpectHeader,
    ExpectPayload { len: u16, code_match: bool },
    Done { count: u16 },
    Failed { error: ErrorModel },
}

impl View for SessionState {
    type V = StateModel;

    open spec fn view(&self) -> StateModel {
        match self {
            SessionState::ExpectHandshake => StateModel::ExpectHandshake,
            SessionState::ExpectHeader => StateModel::ExpectHeader,
            SessionState::ExpectPayload { len, code_match } => (
                StateModel::ExpectPayload { len: *len, code_match: *code_match }
            ),
            SessionState::Done { count } => (StateModel::Done { count: *count }),
            SessionState::Failed { error } => (StateModel::Failed { error: error@ }),
        }
    }
}

/// The session's transition on one block of bytes handed in by the
/// reader. The greeting must carry the tag as a literal eight-byte
/// constant at the start; a header must be exactly four bytes; a payload
/// must be exactly as long as its header announced; a matching payload
/// shorter than four bytes cannot hold the count at byte-pair index 1 and
/// aborts the session rather than truncating.
pub open spec fn spec_step(s: StateModel, input: Seq<u8>) -> StateModel {
    match s {
        StateModel::ExpectHandshake => (
            if input.len() >= 8 && input.subrange(0, 8) == protocol_tag() {
                StateModel::ExpectHeader
            } else {
                StateModel::Failed {
                    error: ErrorModel::ProtocolVersionMismatch { received: input },
                }
            }
        ),
        StateModel::ExpectHeader => (
            if input.len() != 4 {
                StateModel::Failed { error: ErrorModel::BufferTooShort }
            } else {
                StateModel::ExpectPayload {
                    len: spec_unpack_u16(input, 0),
                    code_match: input[2] == QUERY_PLAYERS_0 && input[3] == QUERY_PLAYERS_1,
                }
            }
        ),
        StateModel::ExpectPayload { len, code_match } => (
            if input.len() != len as nat {
                StateModel::Failed { error: ErrorModel::BufferTooShort }
            } else if !code_match {
                StateModel::ExpectHeader
            } else if input.len() < 4 {
                StateModel::Failed { error: ErrorModel::BufferTooShort }
            } else {
                StateModel::Done { count: spec_unpack_u16(input, 1) }
            }
        ),
        StateModel::Done { .. } => s,
        StateModel::Failed { .. } => s,
    }
}

/// The session's state after feeding each block of `inputs` in turn.
pub open spec fn spec_run(s: StateModel, inputs: Seq<Seq<u8>>) -> StateModel
    decreases inputs.len(),
{
    if inputs.len() == 0 {
        s
    } else {
        spec_run(spec_step(s, inputs.first()), inputs.drop_first())
    }
}

/// What the reading loop should hand the session next.
#[derive(Clone, Copy, Debug, PartialEq, Eq, Structural)]
pub enum ReadWant {
    /// One block of whatever the server sends first (the greeting).
    Greeting,
    /// Exactly `n` bytes.
    Exact { n: u16 },
    /// Nothing: the session is done or failed.
    Nothing,
}

fn tag_byte(i: usize) -> (r: u8)
    requires
        i < 8,
    ensures
        r == protocol_tag()[i as int],
{
    match i {
        0 => 66,
        1 => 90,
        2 => 70,
        3 => 83,
        4 => 48,
        5 => 50,
        6 => 50,
        _ => 49,
    }
}

fn handshake_matches(input: &[u8]) -> (r: bool)
    ensures
        r <==> (input@.len() >= 8 && input@.subrange(0, 8) == protocol_tag()),
{
    if input.len() < 8 {
        return false;
    }
    let mut i: usize = 0;
    while i < 8
        invariant
            i <= 8,
            input@.len() >= 8,
            forall|j: int| 0 <= j < i ==> input@[j] == protocol_tag()[j],
        decreases 8 - i,
    {
        if input[i] != tag_byte(i) {
            proof {
                assert(input@.subrange(0, 8)[i as int] == input@[i as int]);
            }
            return false;
        }
        i += 1;
    }
    proof {
        assert(input@.subrange(0, 8) =~= protocol_tag());
    }
    true
}

/// One query of one server: feed it what the socket yields, in the blocks
/// it asks for, until it is done or failed.
pub struct QuerySession {
    pub state: SessionState,
}

impl QuerySession {
    /// A fresh session, waiting for the server's greeting.
    pub fn new() -> (s: Self)
        ensures
            s.state@ == StateModel::ExpectHandshake,
    {
        QuerySession { state: SessionState::ExpectHandshake }
    }

    /// How many bytes the caller should read before the next `feed`.
    pub fn wanted(&self) -> (r: ReadWant)
        ensures
            r == (match self.state@ {
                StateModel::ExpectHandshake => ReadWant::Greeting,
                StateModel::ExpectHeader => (ReadWant::Exact { n: 4u16 }),
                StateModel::ExpectPayload { len, .. } => (ReadWant::Exact { n: len }),
                StateModel::Done { .. } => ReadWant::Nothing,
                StateModel::Failed { .. } => ReadWant::Nothing,
            }),
    {
        match &self.state {
            SessionState::ExpectHandshake => ReadWant::Greeting,
            SessionState::ExpectHeader => ReadWant::Exact { n: 4 },
            SessionState::ExpectPayload { len, .. } => ReadWant::Exact { n: *len },
            SessionState::Done { .. } => ReadWant::Nothing,
            SessionState::Failed { .. } => ReadWant::Nothing,
        }
    }

    /// Advance the session on one block of bytes from the socket.
    pub fn feed(&mut self, input: &[u8])
        ensures
            final(self).state@ == spec_step(old(self).state@, input@),
    {
        let next: SessionState = match &self.state {
            SessionState::Done { .. } => {
                return;
            }
            SessionState::Failed { .. } => {
                return;
            }
            SessionState::ExpectHandshake => {
                if handshake_matches(input) {
                    SessionState::ExpectHeader
                } else {
                    SessionState::Failed {
                        error: QueryError::ProtocolVersionMismatch {
                            received: slice_to_vec(input),
                        },
                    }
                }
            }
            SessionState::ExpectHeader => {
                if input.len() != 4 {
                    SessionState::Failed { error: QueryError::BufferTooShort }
                } else {
                    let len = unpack_u16(input, 0);
                    let code_match = input[2] == QUERY_PLAYERS_0 && input[3] == QUERY_PLAYERS_1;
                    SessionState::ExpectPayload { len, code_match }
                }
            }
            SessionState::ExpectPayload { len, code_match } => {
                let len: u16 = *len;
                let code_match: bool = *code_match;
                if input.len() != len as usize {
                    SessionState::Failed { error: QueryError::BufferTooShort }
                } else if !code_match {
                    SessionState::ExpectHeader
                } else if input.len() < 4 {
                    SessionState::Failed { error: QueryError::BufferTooShort }
                } else {
                    SessionState::Done { count: unpack_u16(input, 1) }
                }
            }
        };
        self.state = next;
    }

    /// The decoded player count, once the session is done.
    pub fn player_count(&self) -> (r: Option<u16>)
        ensures
            r == (match self.state@ {
                StateModel::Done { count } => Some(count),
                _ => None::<u16>,
            }),
    {
        match &self.state {
            SessionState::Done { count } => Some(*count),
            _ => None,
        }
    }
}

/// The magic preamble as bytes to send.
pub fn encode_preamble() -> (r: Vec<u8>)
    ensures
        r@ == magic_preamble(),
{
    let mut v: Vec<u8> = Vec::new();
    v.push(66);
    v.push(90);
    v.push(70);
    v.push(76);
    v.push(65);
    v.push(71);
    v.push(13);
    v.push(10);
    v.push(13);
    v.push(10);
    proof {
        assert(v@ =~= magic_preamble());
    }
    v
}

/// The query-players command frame as bytes to send.
pub fn encode_command_frame() -> (r: Vec<u8>)
    ensures
        r@ == command_frame(),
{
    let mut v: Vec<u8> = Vec::new();
    v.push(0);
    v.push(0);
    v.push(QUERY_PLAYERS_0);
    v.push(QUERY_PLAYERS_1);
    proof {
        assert(v@ =~= command_frame());
    }
    v
}

/// A header/payload pair the session must discard: a four-byte header
/// whose code is not query-players, and a payload exactly as long as the
/// header announced.
pub open spec fn skipped_frame(header: Seq<u8>, payload: Seq<u8>) -> bool {
    &&& header.len() == 4
    &&& !(header[2] == QUERY_PLAYERS_0 && header[3] == QUERY_PLAYERS_1)
    &&& payload.len() == spec_unpack_u16(header, 0) as nat
}

/// A header/payload pair the session must accept: the query-players code
/// with a payload long enough to hold the count.
pub open spec fn matching_frame(header: Seq<u8>, payload: Seq<u8>) -> bool {
    &&& header.len() == 4
    &&& header[2] == QUERY_PLAYERS_0
    &&& header[3] == QUERY_PLAYERS_1
    &&& payload.len() == spec_unpack_u16(header, 0) as nat
    &&& payload.len() >= 4
}

/// Frame skipping: a session that awaits a header and is fed any number
/// of non-matching frames followed by one matching frame consumes exactly
/// those headers and payloads and ends done, with the count decoded from
/// the matching frame's payload.
pub proof fn lemma_frame_skipping(chunks: Seq<Seq<u8>>, header: Seq<u8>, payload: Seq<u8>)
    requires
        chunks.len() % 2 == 0,
        forall|j: int|
            0 <= j && j + 1 < chunks.len() && j % 2 == 0 ==> skipped_frame(
                #[trigger] chunks[j],
                chunks[j + 1],
            ),
        matching_frame(header, payload),
    ensures
        spec_run(StateModel::ExpectHeader, chunks + seq![header, payload]) == (StateModel::Done {
            count: spec_unpack_u16(payload, 1),
        }),
    decreases chunks.len(),
{
    let all = chunks + seq![header, payload];
    if chunks.len() == 0 {
        assert(all =~= seq![header, payload]);
        let s1 = spec_step(StateModel::ExpectHeader, header);
        assert(s1 == (StateModel::ExpectPayload {
            len: spec_unpack_u16(header, 0),
            code_match: true,
        }));
        let s2 = spec_step(s1, payload);
        assert(s2 == (StateModel::Done { count: spec_unpack_u16(payload, 1) }));
        assert(all.first() == header);
        assert(all.drop_first() =~= seq![payload]);
        assert(spec_run(StateModel::ExpectHeader, all) == spec_run(s1, all.drop_first()));
        assert(all.drop_first().drop_first() =~= Seq::<Seq<u8>>::empty());
        assert(spec_run(s1, all.drop_first()) == spec_run(s2, all.drop_first().drop_first()));
        assert(spec_run(s2, Seq::<Seq<u8>>::empty()) == s2);
    } else {
        assert(skipped_frame(chunks[0], chunks[1]));
        let h0 = chunks[0];
        let p0 = chunks[1];
        assert(all.first() == h0);
        let s1 = spec_step(StateModel::ExpectHeader, h0);
        assert(s1 == (StateModel::ExpectPayload {
            len: spec_unpack_u16(h0, 0),
            code_match: false,
        }));
        let s2 = spec_step(s1, p0);
        assert(s2 == StateModel::ExpectHeader);
        let rest = chunks.subrange(2, chunks.len() as int);
        assert forall|j: int|
            0 <= j && j + 1 < rest.len() && j % 2 == 0 implies skipped_frame(
            #[trigger] rest[j],
            rest[j + 1],
        ) by {
            assert(rest[j] == chunks[j + 2]);
            assert(rest[j + 1] == chunks[j + 3]);
            assert((j + 2) % 2 == 0);
            assert(skipped_frame(chunks[j + 2], chunks[j + 3]));
        }
        lemma_frame_skipping(rest, header, payload);
        assert(all.drop_first().first() == p0);
        assert(all.drop_first().drop_first() =~= rest + seq![header, payload]);
        assert(spec_run(StateModel::ExpectHeader, all) == spec_run(s1, all.drop_first()));
        assert(spec_run(s1, all.drop_first()) == spec_run(s2, all.drop_first().drop_first()));
    }
}

/// A complete successful query: fed a greeting that carries the tag, any
/// number of non-matching frames and then the query-players response, a
/// fresh session ends done with the count from the matching payload.
pub proof fn lemma_query_run(
    greeting: Seq<u8>,
    chunks: Seq<Seq<u8>>,
    header: Seq<u8>,
    payload: Seq<u8>,
)
    requires
        greeting.len() >= 8,
        greeting.subrange(0, 8) == protocol_tag(),
        chunks.len() % 2 == 0,
        forall|j: int|
            0 <= j && j + 1 < chunks.len() && j % 2 == 0 ==> skipped_frame(
                #[trigger] chunks[j],
                chunks[j + 1],
            ),
        matching_frame(header, payload),
    ensures
        spec_run(
            StateModel::ExpectHandshake,
            seq![greeting] + chunks + seq![header, payload],
        ) == (StateModel::Done { count: spec_unpack_u16(payload, 1) }),
{
    let tail = chunks + seq![header, payload];
    let all = seq![greeting] + tail;
    assert(all.first() == greeting);
    assert(spec_step(StateModel::ExpectHandshake, greeting) == StateModel::ExpectHeader);
    assert(all.drop_first() =~= tail);
    lemma_frame_skipping(chunks, header, payload);
    assert(spec_run(StateModel::ExpectHandshake, all) == spec_run(
        StateModel::ExpectHeader,
        tail,
    ));
    assert(seq![greeting] + chunks + seq![header, payload] =~= all);
}

} // verus!
