//! The socket-table decoder: one record per data line of the kernel's
//! per-protocol connection table, after a header line that is always skipped.
//! Addresses arrive as eight hex digits whose four bytes are reversed
//! relative to conventional octet order; ports, queue depths and timer
//! values are hexadecimal; slot, uid and inode are decimal.

use vstd::prelude::*;
use vstd::string::StringSliceAdditionalSpecFns;
use crate::DecodeError;
use crate::numbers::{
    all_digits, all_hex_digits, dec_digits, dec_u8_of, dec_u32_of, dec_u64_of, dec_val, hex_digits,
    hex_digits_w, hex_digit_val, hex_u16_of, hex_u64_of, hex_val, is_digit, is_hex_digit,
    lemma_dec_digits_val, lemma_digits_clean, lemma_hex_clean, lemma_hex_digits_val,
    lemma_hex_digits_w_val, parse_u8_dec, parse_u16_hex, parse_u32_dec, parse_u64_dec,
    parse_u64_hex, pow16, u64_to_dec, u64_to_hex, u64_to_hex_w,
};
use crate::scan::{
    colon_free, fields_of, is_space, join_bytes, lemma_fields_pair, lemma_fields_whole,
    lemma_nl_join_lines, lemma_sp_join_clean, lemma_sp_join_tokens, line_clean, lines_of, nl_join,
    push_all, sp_join, split_fields, split_lines, split_tokens, token_clean, tokens_of, views_of,
    COLON, CR, NL, SP,
};

verus! {

/// A connection's state, decoded from a one-byte code in the range 1 through 11.
#[derive(Clone, Debug, PartialEq, Eq, Hash)]
pub enum SocketState {
    Established,
    SynSent,
    SynRecv,
    FinWait1,
    FinWait2,
    TimeWait,
    Close,
    CloseWait,
    LastAck,
    Listen,
    Closing,
}

/// A socket's retransmission/keepalive timer, reduced to inactive or active
/// with the pending expiry value.
#[derive(Clone, Debug, PartialEq)]
pub enum SocketTimerState {
    Inactive,
    Active(u64),
}

/// One row of a connection table.
#[verifier::ext_equal]
#[derive(Clone, Debug, PartialEq)]
pub struct Socket {
    /// The row index as printed by the kernel; not necessarily sequential.
    pub sl: u64,
    /// IPv4 octets in conventional order.
    pub local_address: [u8; 4],
    pub local_port: u16,
    pub remote_address: [u8; 4],
    pub remote_port: u16,
    pub state: SocketState,
    pub tx_queue: u64,
    pub rx_queue: u64,
    pub timer: SocketTimerState,
    pub uid: u32,
    /// Kernel socket object id; zero or repeated values are valid.
    pub inode: u64,
}

/// The code the kernel prints for a state.
pub open spec fn state_code(s: SocketState) -> u8 {
    match s {
        SocketState::Established => 1,
        SocketState::SynSent => 2,
        SocketState::SynRecv => 3,
        SocketState::FinWait1 => 4,
        SocketState::FinWait2 => 5,
        SocketState::TimeWait => 6,
        SocketState::Close => 7,
        SocketState::CloseWait => 8,
        SocketState::LastAck => 9,
        SocketState::Listen => 10,
        SocketState::Closing => 11,
    }
}

/// The state a code denotes, if any: codes 1 through 11 are valid.
pub open spec fn state_of_code(c: u8) -> Option<SocketState> {
    if c == 1 {
        Some(SocketState::Established)
    } else if c == 2 {
        Some(SocketState::SynSent)
    } else if c == 3 {
        Some(SocketState::SynRecv)
    } else if c == 4 {
        Some(SocketState::FinWait1)
    } else if c == 5 {
        Some(SocketState::FinWait2)
    } else if c == 6 {
        Some(SocketState::TimeWait)
    } else if c == 7 {
        Some(SocketState::Close)
    } else if c == 8 {
        Some(SocketState::CloseWait)
    } else if c == 9 {
        Some(SocketState::LastAck)
    } else if c == 10 {
        Some(SocketState::Listen)
    } else if c == 11 {
        Some(SocketState::Closing)
    } else {
        None
    }
}

impl SocketState {
    /// The fallible conversion from a raw state code.
    pub fn from_code(c: u8) -> (r: Option<SocketState>)
        ensures
            r == state_of_code(c),
    {
        match c {
            1 => Some(SocketState::Established),
            2 => Some(SocketState::SynSent),
            3 => Some(SocketState::SynRecv),
            4 => Some(SocketState::FinWait1),
            5 => Some(SocketState::FinWait2),
            6 => Some(SocketState::TimeWait),
            7 => Some(SocketState::Close),
            8 => Some(SocketState::CloseWait),
            9 => Some(SocketState::LastAck),
            10 => Some(SocketState::Listen),
            11 => Some(SocketState::Closing),
            _ => None,
        }
    }
}

/// Every state's code maps back to that state.
pub proof fn lemma_state_code_round_trip(s: SocketState)
    ensures
        state_of_code(state_code(s)) == Some(s),
{
}

// ---------------------------------------------------------------------------
// Hex strings to bytes, through the outside hex crate.
// ---------------------------------------------------------------------------

/// A string of hex digit pairs: even length, every byte a hex digit.
pub open spec fn hex_pairs_ok(s: Seq<u8>) -> bool {
    s.len() % 2 == 0 && all_hex_digits(s)
}

/// The bytes a string of hex digit pairs denotes, most significant digit
/// of each pair first.
pub open spec fn hex_bytes_of(s: Seq<u8>) -> Seq<u8> {
    Seq::new((s.len() / 2) as nat, |i: int| (hex_digit_val(s[2 * i]) * 16 + hex_digit_val(s[2 * i + 1])) as u8)
}

#[verifier::external_type_specification]
#[verifier::external_body]
pub struct ExFromHexError(hex::FromHexError);

/// Relies on hex::decode: each pair of hex digits (either letter case)
/// becomes one byte, most significant digit first; input of odd length or
/// with a non-hex byte is refused.
#[verifier::external_body]
fn hex_decode(t: &[u8]) -> (r: Result<Vec<u8>, hex::FromHexError>)
    ensures
        r is Ok <==> hex_pairs_ok(t@),
        r matches Ok(bs) ==> bs@ == hex_bytes_of(t@),
{
    hex::decode(t)
}

/// What decoding a hex address field yields: the four decoded bytes in
/// reversed order, as conventional IPv4 octets.
pub open spec fn ipaddr_of(t: Seq<u8>) -> Result<[u8; 4], DecodeError> {
    if !hex_pairs_ok(t) {
        Err(DecodeError::BadHex)
    } else if hex_bytes_of(t).len() < 4 {
        Err(DecodeError::BadAddress)
    } else {
        Ok([hex_bytes_of(t)[3], hex_bytes_of(t)[2], hex_bytes_of(t)[1], hex_bytes_of(t)[0]])
    }
}

/// Decode a hex address field into IPv4 octets, reversing the byte order.
pub fn to_ipaddr(t: &[u8]) -> (r: Result<[u8; 4], DecodeError>)
    ensures
        r == ipaddr_of(t@),
{
    match hex_decode(t) {
        Ok(bytes) => {
            if bytes.len() < 4 {
                Err(DecodeError::BadAddress)
            } else {
                Ok([bytes[3], bytes[2], bytes[1], bytes[0]])
            }
        },
        Err(_) => Err(DecodeError::BadHex),
    }
}

// ---------------------------------------------------------------------------
// One row.
// ---------------------------------------------------------------------------

/// What decoding an `addr:port` column yields.
pub open spec fn endpoint_of(t: Seq<u8>) -> Result<([u8; 4], u16), DecodeError> {
    let fs = fields_of(t);
    if fs.len() < 2 {
        Err(DecodeError::MissingField)
    } else {
        match ipaddr_of(fs[0]) {
            Err(e) => Err(e),
            Ok(a) => match hex_u16_of(fs[1]) {
                Err(e) => Err(e),
                Ok(p) => Ok((a, p)),
            },
        }
    }
}

fn parse_endpoint(t: &[u8]) -> (r: Result<([u8; 4], u16), DecodeError>)
    ensures
        r == endpoint_of(t@),
{
    let fs = split_fields(t);
    if fs.len() < 2 {
        return Err(DecodeError::MissingField);
    }
    let a = match to_ipaddr(fs[0].as_slice()) {
        Ok(a) => a,
        Err(e) => {
            return Err(e);
        },
    };
    match parse_u16_hex(fs[1].as_slice()) {
        Ok(p) => Ok((a, p)),
        Err(e) => Err(e),
    }
}

/// What decoding the state column yields: one hex byte, mapped through the
/// state table; codes outside 1 through 11 are refused.
pub open spec fn state_field_of(t: Seq<u8>) -> Result<SocketState, DecodeError> {
    if t.len() == 0 || !hex_pairs_ok(t) {
        Err(DecodeError::BadHex)
    } else {
        match state_of_code(hex_bytes_of(t)[0]) {
            Some(s) => Ok(s),
            None => Err(DecodeError::BadStateCode),
        }
    }
}

fn parse_state(t: &[u8]) -> (r: Result<SocketState, DecodeError>)
    ensures
        r == state_field_of(t@),
{
    if t.len() == 0 {
        return Err(DecodeError::BadHex);
    }
    match hex_decode(t) {
        Ok(bs) => {
            assert(bs@.len() >= 1);
            match SocketState::from_code(bs[0]) {
                Some(s) => Ok(s),
                None => Err(DecodeError::BadStateCode),
            }
        },
        Err(_) => Err(DecodeError::BadHex),
    }
}

/// What decoding the `tx:rx` queue column yields.
pub open spec fn queues_of(t: Seq<u8>) -> Result<(u64, u64), DecodeError> {
    let fs = fields_of(t);
    if fs.len() < 2 {
        Err(DecodeError::MissingField)
    } else {
        match hex_u64_of(fs[0]) {
            Err(e) => Err(e),
            Ok(tx) => match hex_u64_of(fs[1]) {
                Err(e) => Err(e),
                Ok(rx) => Ok((tx, rx)),
            },
        }
    }
}

fn parse_queues(t: &[u8]) -> (r: Result<(u64, u64), DecodeError>)
    ensures
        r == queues_of(t@),
{
    let fs = split_fields(t);
    if fs.len() < 2 {
        return Err(DecodeError::MissingField);
    }
    let tx = match parse_u64_hex(fs[0].as_slice()) {
        Ok(v) => v,
        Err(e) => {
            return Err(e);
        },
    };
    match parse_u64_hex(fs[1].as_slice()) {
        Ok(rx) => Ok((tx, rx)),
        Err(e) => Err(e),
    }
}

/// What decoding the `kind:value` timer column yields: kind zero is the
/// inactive timer, any other kind an active timer with the hex value.
pub open spec fn timer_of(t: Seq<u8>) -> Result<SocketTimerState, DecodeError> {
    let fs = fields_of(t);
    match dec_u8_of(fs[0]) {
        Err(e) => Err(e),
        Ok(k) => if k == 0 {
            Ok(SocketTimerState::Inactive)
        } else if fs.len() < 2 {
            Err(DecodeError::MissingField)
        } else {
            match hex_u64_of(fs[1]) {
                Err(e) => Err(e),
                Ok(v) => Ok(SocketTimerState::Active(v)),
            }
        },
    }
}

fn parse_timer(t: &[u8]) -> (r: Result<SocketTimerState, DecodeError>)
    ensures
        r == timer_of(t@),
{
    let fs = split_fields(t);
    let k = match parse_u8_dec(fs[0].as_slice()) {
        Ok(k) => k,
        Err(e) => {
            return Err(e);
        },
    };
    if k == 0 {
        Ok(SocketTimerState::Inactive)
    } else if fs.len() < 2 {
        Err(DecodeError::MissingField)
    } else {
        match parse_u64_hex(fs[1].as_slice()) {
            Ok(v) => Ok(SocketTimerState::Active(v)),
            Err(e) => Err(e),
        }
    }
}

/// What decoding one data row yields. Columns, in order: slot, local
/// endpoint, remote endpoint, state, queues, timer, retransmit counter
/// (ignored), owner uid, timeout (ignored), inode; later columns are not
/// read. A row with fewer than ten columns is refused.
pub open spec fn socket_of_line(line: Seq<u8>) -> Result<Socket, DecodeError> {
    let toks = tokens_of(line);
    if toks.len() < 10 {
        Err(DecodeError::MissingField)
    } else {
        match dec_u64_of(fields_of(toks[0])[0]) {
            Err(e) => Err(e),
            Ok(sl) => match endpoint_of(toks[1]) {
                Err(e) => Err(e),
                Ok(local) => match endpoint_of(toks[2]) {
                    Err(e) => Err(e),
                    Ok(remote) => match state_field_of(toks[3]) {
                        Err(e) => Err(e),
                        Ok(state) => match queues_of(toks[4]) {
                            Err(e) => Err(e),
                            Ok(q) => match timer_of(toks[5]) {
                                Err(e) => Err(e),
                                Ok(timer) => match dec_u32_of(toks[7]) {
                                    Err(e) => Err(e),
                                    Ok(uid) => match dec_u64_of(toks[9]) {
                                        Err(e) => Err(e),
                                        Ok(inode) => Ok(
                                            Socket {
                                                sl,
                                                local_address: local.0,
                                                local_port: local.1,
                                                remote_address: remote.0,
                                                remote_port: remote.1,
                                                state,
                                                tx_queue: q.0,
                                                rx_queue: q.1,
                                                timer,
                                                uid,
                                                inode,
                                            },
                                        ),
                                    },
                                },
                            },
                        },
                    },
                },
            },
        }
    }
}

/// Decode one data row of a connection table.
pub fn to_net_socket(line: &[u8]) -> (r: Result<Socket, DecodeError>)
    ensures
        r == socket_of_line(line@),
{
    let toks = split_tokens(line);
    if toks.len() < 10 {
        return Err(DecodeError::MissingField);
    }
    let sl_fields = split_fields(toks[0].as_slice());
    let sl = match parse_u64_dec(sl_fields[0].as_slice()) {
        Ok(v) => v,
        Err(e) => {
            return Err(e);
        },
    };
    let local = match parse_endpoint(toks[1].as_slice()) {
        Ok(v) => v,
        Err(e) => {
            return Err(e);
        },
    };
    let remote = match parse_endpoint(toks[2].as_slice()) {
        Ok(v) => v,
        Err(e) => {
            return Err(e);
        },
    };
    let state = match parse_state(toks[3].as_slice()) {
        Ok(v) => v,
        Err(e) => {
            return Err(e);
        },
    };
    let q = match parse_queues(toks[4].as_slice()) {
        Ok(v) => v,
        Err(e) => {
            return Err(e);
        },
    };
    let timer = match parse_timer(toks[5].as_slice()) {
        Ok(v) => v,
        Err(e) => {
            return Err(e);
        },
    };
    let uid = match parse_u32_dec(toks[7].as_slice()) {
        Ok(v) => v,
        Err(e) => {
            return Err(e);
        },
    };
    let inode = match parse_u64_dec(toks[9].as_slice()) {
        Ok(v) => v,
        Err(e) => {
            return Err(e);
        },
    };
    Ok(
        Socket {
            sl,
            local_address: local.0,
            local_port: local.1,
            remote_address: remote.0,
            remote_port: remote.1,
            state,
            tx_queue: q.0,
            rx_queue: q.1,
            timer,
            uid,
            inode,
        },
    )
}

// ---------------------------------------------------------------------------
// The whole table.
// ---------------------------------------------------------------------------

pub open spec fn table_go(rows: Seq<Seq<u8>>, acc: Seq<Socket>) -> Result<Seq<Socket>, DecodeError>
    decreases rows.len(),
{
    if rows.len() == 0 {
        Ok(acc)
    } else {
        match socket_of_line(rows[0]) {
            Err(e) => Err(e),
            Ok(s) => table_go(rows.drop_first(), acc.push(s)),
        }
    }
}

/// What decoding a whole table text yields: the first line is the header and
/// is always skipped; rows decode in document order; the first bad row fails
/// the whole table, leaving no partial result.
pub open spec fn spec_net(text: Seq<u8>) -> Result<Seq<Socket>, DecodeError> {
    let ls = lines_of(text);
    if ls.len() == 0 {
        Ok(Seq::empty())
    } else {
        table_go(ls.drop_first(), Seq::empty())
    }
}

/// The view of a decoded table.
pub open spec fn socks_view(r: Result<Vec<Socket>, DecodeError>) -> Result<Seq<Socket>, DecodeError> {
    match r {
        Ok(v) => Ok(v@),
        Err(e) => Err(e),
    }
}

/// Decode a connection table from its text, given as bytes.
pub fn net_bytes(text: &[u8]) -> (r: Result<Vec<Socket>, DecodeError>)
    ensures
        socks_view(r) == spec_net(text@),
{
    let lines = split_lines(text);
    if lines.len() == 0 {
        let out: Vec<Socket> = Vec::new();
        proof {
            assert(out@ =~= Seq::<Socket>::empty());
        }
        return Ok(out);
    }
    let ghost rows = lines_of(text@).drop_first();
    let mut out: Vec<Socket> = Vec::new();
    let mut i: usize = 1;
    proof {
        assert(rows.skip(0) =~= rows);
        assert(out@ =~= Seq::<Socket>::empty());
    }
    while i < lines.len()
        invariant
            1 <= i <= lines@.len(),
            views_of(lines@) == lines_of(text@),
            lines_of(text@).len() == lines@.len(),
            rows == lines_of(text@).drop_first(),
            table_go(rows, Seq::empty()) == table_go(rows.skip(i - 1), out@),
        decreases lines@.len() - i,
    {
        proof {
            assert(rows.skip(i - 1)[0] == rows[i - 1]);
            assert(rows[i - 1] == views_of(lines@)[i as int]);
            assert(views_of(lines@)[i as int] == lines@[i as int]@);
            assert(rows.skip(i - 1).drop_first() =~= rows.skip(i as int));
        }
        match to_net_socket(lines[i].as_slice()) {
            Ok(s) => {
                out.push(s);
            },
            Err(e) => {
                return Err(e);
            },
        }
        i = i + 1;
    }
    proof {
        assert(rows.skip(i - 1) =~= Seq::<Seq<u8>>::empty());
    }
    Ok(out)
}

/// Decode a connection table from its text.
pub fn net(text: &str) -> (r: Result<Vec<Socket>, DecodeError>)
    ensures
        socks_view(r) == spec_net(text.spec_bytes()),
{
    net_bytes(text.as_bytes())
}

/// Decoding an empty input yields the empty table, never a failure.
pub proof fn lemma_net_empty(text: Seq<u8>)
    requires
        text.len() == 0,
    ensures
        spec_net(text) == Ok::<Seq<Socket>, DecodeError>(Seq::empty()),
{
    assert(text =~= Seq::<u8>::empty());
    assert(lines_of(text).len() == 0);
}

// ---------------------------------------------------------------------------
// Canonical text, and the round trip back through the decoder.
// ---------------------------------------------------------------------------

/// One byte as two upper-case hex digits.
pub open spec fn byte_hex(b: u8) -> Seq<u8> {
    hex_digits_w(b as nat, 2)
}

/// An address as the kernel prints it: the four octets in reversed order,
/// two hex digits each.
pub open spec fn addr_hex(a: [u8; 4]) -> Seq<u8> {
    byte_hex(a[3]) + byte_hex(a[2]) + byte_hex(a[1]) + byte_hex(a[0])
}

/// An `addr:port` column.
pub open spec fn ep_tok(a: [u8; 4], p: u16) -> Seq<u8> {
    addr_hex(a) + seq![COLON] + hex_digits_w(p as nat, 4)
}

/// A `tx:rx` queue column.
pub open spec fn queues_tok(tx: u64, rx: u64) -> Seq<u8> {
    hex_digits(tx as nat) + seq![COLON] + hex_digits(rx as nat)
}

/// A `kind:value` timer column.
pub open spec fn timer_tok(t: SocketTimerState) -> Seq<u8> {
    match t {
        SocketTimerState::Inactive => seq!['0' as u8, COLON, '0' as u8],
        SocketTimerState::Active(v) => seq!['1' as u8, COLON] + hex_digits(v as nat),
    }
}

pub open spec fn zero_tok() -> Seq<u8> {
    seq!['0' as u8]
}

/// The ten columns of a canonical row.
pub open spec fn row_tokens(s: Socket) -> Seq<Seq<u8>> {
    seq![
        dec_digits(s.sl as nat),
        ep_tok(s.local_address, s.local_port),
        ep_tok(s.remote_address, s.remote_port),
        byte_hex(state_code(s.state)),
        queues_tok(s.tx_queue, s.rx_queue),
        timer_tok(s.timer),
        zero_tok(),
        dec_digits(s.uid as nat),
        zero_tok(),
        dec_digits(s.inode as nat),
    ]
}

pub open spec fn canon_row(s: Socket) -> Seq<u8> {
    sp_join(row_tokens(s))
}

/// The header line of a canonical table; it is always skipped.
pub open spec fn header_line() -> Seq<u8> {
    seq!['s' as u8, 'l' as u8]
}

/// The canonical text of a table: the header line, then one row per record.
pub open spec fn canon_net(socks: Seq<Socket>) -> Seq<u8> {
    nl_join(seq![header_line()] + socks.map_values(|s: Socket| canon_row(s)))
}

proof fn lemma_pair_val(t: Seq<u8>)
    requires
        t.len() == 2,
    ensures
        hex_val(t) == hex_digit_val(t[0]) * 16 + hex_digit_val(t[1]),
{
    assert(t.drop_last() =~= t.take(1));
    assert(t.take(1).drop_last() =~= Seq::<u8>::empty());
    assert(hex_val(Seq::<u8>::empty()) == 0);
    assert(t.take(1).last() == t[0]);
    assert(hex_val(t.take(1)) == hex_digit_val(t[0]));
}

proof fn lemma_byte_hex(b: u8)
    ensures
        byte_hex(b).len() == 2,
        all_hex_digits(byte_hex(b)),
        hex_val(byte_hex(b)) == b,
        hex_digit_val(byte_hex(b)[0]) * 16 + hex_digit_val(byte_hex(b)[1]) == b,
{
    assert(pow16(0) == 1);
    assert(pow16(1) == 16);
    assert(pow16(2) == 256);
    lemma_hex_digits_w_val(b as nat, 2);
    lemma_pair_val(byte_hex(b));
}

proof fn lemma_addr_round(a: [u8; 4])
    ensures
        addr_hex(a).len() == 8,
        all_hex_digits(addr_hex(a)),
        hex_pairs_ok(addr_hex(a)),
        ipaddr_of(addr_hex(a)) == Ok::<[u8; 4], DecodeError>(a),
{
    lemma_byte_hex(a[3]);
    lemma_byte_hex(a[2]);
    lemma_byte_hex(a[1]);
    lemma_byte_hex(a[0]);
    let t = addr_hex(a);
    assert forall|k: int| 0 <= k < t.len() implies is_hex_digit(#[trigger] t[k]) by {
        if k < 2 {
            assert(t[k] == byte_hex(a[3])[k]);
        } else if k < 4 {
            assert(t[k] == byte_hex(a[2])[k - 2]);
        } else if k < 6 {
            assert(t[k] == byte_hex(a[1])[k - 4]);
        } else {
            assert(t[k] == byte_hex(a[0])[k - 6]);
        }
    }
    let hb = hex_bytes_of(t);
    assert(hb.len() == 4);
    assert(t[0] == byte_hex(a[3])[0] && t[1] == byte_hex(a[3])[1]);
    assert(t[2] == byte_hex(a[2])[0] && t[3] == byte_hex(a[2])[1]);
    assert(t[4] == byte_hex(a[1])[0] && t[5] == byte_hex(a[1])[1]);
    assert(t[6] == byte_hex(a[0])[0] && t[7] == byte_hex(a[0])[1]);
    assert(hb[0] == a[3]);
    assert(hb[1] == a[2]);
    assert(hb[2] == a[1]);
    assert(hb[3] == a[0]);
    assert([hb[3], hb[2], hb[1], hb[0]] =~= a);
}

proof fn lemma_ep_round(a: [u8; 4], p: u16)
    ensures
        token_clean(ep_tok(a, p)),
        endpoint_of(ep_tok(a, p)) == Ok::<([u8; 4], u16), DecodeError>((a, p)),
{
    lemma_addr_round(a);
    assert(pow16(0) == 1);
    assert(pow16(1) == 16);
    assert(pow16(2) == 256);
    assert(pow16(3) == 4096);
    assert(pow16(4) == 65536);
    lemma_hex_digits_w_val(p as nat, 4);
    let ah = addr_hex(a);
    let ph = hex_digits_w(p as nat, 4);
    lemma_hex_clean(ah);
    lemma_hex_clean(ph);
    let t = ep_tok(a, p);
    assert forall|k: int| 0 <= k < t.len() implies !is_space(#[trigger] t[k]) && t[k] != NL && t[k]
        != CR by {
        if k < 8 {
            assert(t[k] == ah[k]);
        } else if k == 8 {
            assert(t[k] == COLON);
        } else {
            assert(t[k] == ph[k - 9]);
        }
    }
    lemma_fields_pair(ah, ph);
    lemma_fields_whole(ph);
    assert(fields_of(t) =~= seq![ah, ph]);
    assert(hex_u16_of(ph) == Ok::<u16, DecodeError>(p));
}

proof fn lemma_state_tok(st: SocketState)
    ensures
        token_clean(byte_hex(state_code(st))),
        state_field_of(byte_hex(state_code(st))) == Ok::<SocketState, DecodeError>(st),
{
    let c = state_code(st);
    lemma_byte_hex(c);
    lemma_hex_clean(byte_hex(c));
    assert(hex_bytes_of(byte_hex(c))[0] == c);
    lemma_state_code_round_trip(st);
}

proof fn lemma_queues_round(tx: u64, rx: u64)
    ensures
        token_clean(queues_tok(tx, rx)),
        queues_of(queues_tok(tx, rx)) == Ok::<(u64, u64), DecodeError>((tx, rx)),
{
    lemma_hex_digits_val(tx as nat);
    lemma_hex_digits_val(rx as nat);
    let xh = hex_digits(tx as nat);
    let rh = hex_digits(rx as nat);
    lemma_hex_clean(xh);
    lemma_hex_clean(rh);
    let t = queues_tok(tx, rx);
    assert forall|k: int| 0 <= k < t.len() implies !is_space(#[trigger] t[k]) && t[k] != NL && t[k]
        != CR by {
        if k < xh.len() {
            assert(t[k] == xh[k]);
        } else if k == xh.len() {
            assert(t[k] == COLON);
        } else {
            assert(t[k] == rh[k - xh.len() - 1]);
        }
    }
    lemma_fields_pair(xh, rh);
    lemma_fields_whole(rh);
    assert(fields_of(t) =~= seq![xh, rh]);
    assert(hex_u64_of(xh) == Ok::<u64, DecodeError>(tx));
    assert(hex_u64_of(rh) == Ok::<u64, DecodeError>(rx));
}

proof fn lemma_timer_round(tm: SocketTimerState)
    ensures
        token_clean(timer_tok(tm)),
        timer_of(timer_tok(tm)) == Ok::<SocketTimerState, DecodeError>(tm),
{
    match tm {
        SocketTimerState::Inactive => {
            let t = timer_tok(tm);
            let z = zero_tok();
            assert(t =~= z + seq![COLON] + z);
            assert(all_digits(z));
            lemma_digits_clean(z);
            lemma_fields_pair(z, z);
            lemma_fields_whole(z);
            assert(fields_of(t) =~= seq![z, z]);
            assert(z.drop_last() =~= Seq::<u8>::empty());
            assert(dec_val(Seq::<u8>::empty()) == 0);
            assert(dec_val(z) == 0);
            assert(dec_u8_of(z) == Ok::<u8, DecodeError>(0));
            assert forall|k: int| 0 <= k < t.len() implies !is_space(#[trigger] t[k]) && t[k] != NL
                && t[k] != CR by {}
        },
        SocketTimerState::Active(v) => {
            let one = seq!['1' as u8];
            let vh = hex_digits(v as nat);
            let t = timer_tok(tm);
            assert(t =~= one + seq![COLON] + vh);
            lemma_hex_digits_val(v as nat);
            lemma_hex_clean(vh);
            assert(all_digits(one));
            lemma_digits_clean(one);
            lemma_fields_pair(one, vh);
            lemma_fields_whole(vh);
            assert(fields_of(t) =~= seq![one, vh]);
            assert(one.drop_last() =~= Seq::<u8>::empty());
            assert(dec_val(Seq::<u8>::empty()) == 0);
            assert(dec_val(one) == 1);
            assert(dec_u8_of(one) == Ok::<u8, DecodeError>(1));
            assert(hex_u64_of(vh) == Ok::<u64, DecodeError>(v));
            assert forall|k: int| 0 <= k < t.len() implies !is_space(#[trigger] t[k]) && t[k] != NL
                && t[k] != CR by {
                if k < 2 {
                    assert(t[k] == (one + seq![COLON])[k]);
                } else {
                    assert(t[k] == vh[k - 2]);
                }
            }
        },
    }
}

proof fn lemma_dec_tok(v: u64)
    ensures
        token_clean(dec_digits(v as nat)),
        fields_of(dec_digits(v as nat)) == seq![dec_digits(v as nat)],
        dec_u64_of(dec_digits(v as nat)) == Ok::<u64, DecodeError>(v),
{
    lemma_dec_digits_val(v as nat);
    lemma_digits_clean(dec_digits(v as nat));
    lemma_fields_whole(dec_digits(v as nat));
}

/// A canonical row decodes to its record exactly.
proof fn lemma_row_round(s: Socket)
    ensures
        line_clean(canon_row(s)),
        socket_of_line(canon_row(s)) == Ok::<Socket, DecodeError>(s),
{
    let ts = row_tokens(s);
    lemma_dec_tok(s.sl);
    lemma_ep_round(s.local_address, s.local_port);
    lemma_ep_round(s.remote_address, s.remote_port);
    lemma_state_tok(s.state);
    lemma_queues_round(s.tx_queue, s.rx_queue);
    lemma_timer_round(s.timer);
    lemma_dec_tok(s.uid as u64);
    lemma_dec_tok(s.inode);
    assert(all_digits(zero_tok()));
    lemma_digits_clean(zero_tok());
    assert forall|i: int| 0 <= i < ts.len() implies token_clean(#[trigger] ts[i]) by {}
    lemma_sp_join_tokens(ts);
    lemma_sp_join_clean(ts);
    let line = canon_row(s);
    assert(tokens_of(line) == ts);
    assert(ts.len() == 10);
    assert(dec_u64_of(fields_of(ts[0])[0]) == Ok::<u64, DecodeError>(s.sl));
    assert(endpoint_of(ts[1]) == Ok::<([u8; 4], u16), DecodeError>(
        (s.local_address, s.local_port),
    ));
    assert(endpoint_of(ts[2]) == Ok::<([u8; 4], u16), DecodeError>(
        (s.remote_address, s.remote_port),
    ));
    assert(state_field_of(ts[3]) == Ok::<SocketState, DecodeError>(s.state));
    assert(queues_of(ts[4]) == Ok::<(u64, u64), DecodeError>((s.tx_queue, s.rx_queue)));
    assert(timer_of(ts[5]) == Ok::<SocketTimerState, DecodeError>(s.timer));
    assert((s.uid as u64) as nat == s.uid as nat);
    assert(dec_val(dec_digits(s.uid as nat)) == s.uid as nat);
    assert(dec_u32_of(ts[7]) == Ok::<u32, DecodeError>(s.uid));
    assert(dec_u64_of(fields_of(ts[9])[0]) == Ok::<u64, DecodeError>(s.inode));
    assert(dec_u64_of(ts[9]) == Ok::<u64, DecodeError>(s.inode));
    match socket_of_line(line) {
        Ok(d) => {
            assert(d =~= s);
        },
        Err(_) => {
            assert(false);
        },
    }
}

#[verifier::rlimit(100)]
#[verifier::spinoff_prover]
proof fn lemma_rows_fold(socks: Seq<Socket>, acc: Seq<Socket>)
    ensures
        table_go(socks.map_values(|s: Socket| canon_row(s)), acc) == Ok::<
            Seq<Socket>,
            DecodeError,
        >(acc + socks),
    decreases socks.len(),
{
    let rows = socks.map_values(|s: Socket| canon_row(s));
    if socks.len() == 0 {
        assert(rows.len() == 0);
        assert(acc + socks =~= acc);
    } else {
        assert(rows[0] == canon_row(socks[0]));
        lemma_row_round(socks[0]);
        assert(rows.drop_first() =~= socks.drop_first().map_values(|s: Socket| canon_row(s)));
        lemma_rows_fold(socks.drop_first(), acc.push(socks[0]));
        assert(acc.push(socks[0]) + socks.drop_first() =~= acc + socks);
    }
}

/// Decoding the canonical text of any table recovers every record exactly,
/// in order.
pub proof fn lemma_net_round_trip(socks: Seq<Socket>)
    ensures
        spec_net(canon_net(socks)) == Ok::<Seq<Socket>, DecodeError>(socks),
{
    let rows = socks.map_values(|s: Socket| canon_row(s));
    let ls = seq![header_line()] + rows;
    assert(line_clean(header_line()));
    assert forall|i: int| 0 <= i < ls.len() implies line_clean(#[trigger] ls[i]) by {
        if i >= 1 {
            assert(ls[i] == rows[i - 1]);
            assert(rows[i - 1] == canon_row(socks[i - 1]));
            lemma_row_round(socks[i - 1]);
        }
    }
    lemma_nl_join_lines(ls);
    assert(lines_of(canon_net(socks)) == ls);
    assert(ls.len() >= 1);
    assert(ls.drop_first() =~= rows);
    lemma_rows_fold(socks, Seq::empty());
    assert(Seq::<Socket>::empty() + socks =~= socks);
}

// ---------------------------------------------------------------------------
// Rendering the canonical text.
// ---------------------------------------------------------------------------

fn state_to_code(s: &SocketState) -> (c: u8)
    ensures
        c == state_code(*s),
{
    match s {
        SocketState::Established => 1,
        SocketState::SynSent => 2,
        SocketState::SynRecv => 3,
        SocketState::FinWait1 => 4,
        SocketState::FinWait2 => 5,
        SocketState::TimeWait => 6,
        SocketState::Close => 7,
        SocketState::CloseWait => 8,
        SocketState::LastAck => 9,
        SocketState::Listen => 10,
        SocketState::Closing => 11,
    }
}

fn ep_vec(a: &[u8; 4], p: u16) -> (r: Vec<u8>)
    ensures
        r@ == ep_tok(*a, p),
{
    let mut out = u64_to_hex_w(a[3] as u64, 2);
    let b2 = u64_to_hex_w(a[2] as u64, 2);
    push_all(&mut out, b2.as_slice());
    let b1 = u64_to_hex_w(a[1] as u64, 2);
    push_all(&mut out, b1.as_slice());
    let b0 = u64_to_hex_w(a[0] as u64, 2);
    push_all(&mut out, b0.as_slice());
    out.push(COLON);
    let ph = u64_to_hex_w(p as u64, 4);
    push_all(&mut out, ph.as_slice());
    proof {
        assert(out@ =~= ep_tok(*a, p));
    }
    out
}

fn queues_vec(tx: u64, rx: u64) -> (r: Vec<u8>)
    ensures
        r@ == queues_tok(tx, rx),
{
    let mut out = u64_to_hex(tx);
    out.push(COLON);
    let rh = u64_to_hex(rx);
    push_all(&mut out, rh.as_slice());
    proof {
        assert(out@ =~= queues_tok(tx, rx));
    }
    out
}

fn timer_vec(t: &SocketTimerState) -> (r: Vec<u8>)
    ensures
        r@ == timer_tok(*t),
{
    match t {
        SocketTimerState::Inactive => {
            let mut out: Vec<u8> = Vec::new();
            out.push('0' as u8);
            out.push(COLON);
            out.push('0' as u8);
            proof {
                assert(out@ =~= timer_tok(*t));
            }
            out
        },
        SocketTimerState::Active(v) => {
            let mut out: Vec<u8> = Vec::new();
            out.push('1' as u8);
            out.push(COLON);
            let vh = u64_to_hex(*v);
            push_all(&mut out, vh.as_slice());
            proof {
                assert(out@ =~= timer_tok(*t));
            }
            out
        },
    }
}

/// Render one record as a canonical table row.
fn row_vec(s: &Socket) -> (r: Vec<u8>)
    ensures
        r@ == canon_row(*s),
{
    let mut parts: Vec<Vec<u8>> = Vec::new();
    parts.push(u64_to_dec(s.sl));
    parts.push(ep_vec(&s.local_address, s.local_port));
    parts.push(ep_vec(&s.remote_address, s.remote_port));
    parts.push(u64_to_hex_w(state_to_code(&s.state) as u64, 2));
    parts.push(queues_vec(s.tx_queue, s.rx_queue));
    parts.push(timer_vec(&s.timer));
    let mut z1: Vec<u8> = Vec::new();
    z1.push('0' as u8);
    proof {
        assert(z1@ =~= zero_tok());
    }
    parts.push(z1);
    parts.push(u64_to_dec(s.uid as u64));
    let mut z2: Vec<u8> = Vec::new();
    z2.push('0' as u8);
    proof {
        assert(z2@ =~= zero_tok());
    }
    parts.push(z2);
    parts.push(u64_to_dec(s.inode));
    proof {
        assert((s.uid as u64) as nat == s.uid as nat);
        assert(views_of(parts@) =~= row_tokens(*s));
    }
    join_bytes(&parts, SP)
}

/// Render the canonical text of a whole table.
pub fn net_text(socks: &Vec<Socket>) -> (r: Vec<u8>)
    ensures
        r@ == canon_net(socks@),
{
    let mut lines: Vec<Vec<u8>> = Vec::new();
    let mut hd: Vec<u8> = Vec::new();
    hd.push('s' as u8);
    hd.push('l' as u8);
    proof {
        assert(hd@ =~= header_line());
    }
    lines.push(hd);
    let mut i: usize = 0;
    proof {
        assert(views_of(lines@) =~= seq![header_line()] + socks@.take(0).map_values(
            |s: Socket| canon_row(s),
        ));
    }
    while i < socks.len()
        invariant
            0 <= i <= socks@.len(),
            views_of(lines@) == seq![header_line()] + socks@.take(i as int).map_values(
                |s: Socket| canon_row(s),
            ),
        decreases socks@.len() - i,
    {
        let ghost before = views_of(lines@);
        lines.push(row_vec(&socks[i]));
        proof {
            assert(views_of(lines@) =~= before.push(canon_row(socks@[i as int])));
            assert(socks@.take(i as int + 1).map_values(|s: Socket| canon_row(s)) =~= socks@.take(
                i as int,
            ).map_values(|s: Socket| canon_row(s)).push(canon_row(socks@[i as int])));
            assert(views_of(lines@) =~= seq![header_line()] + socks@.take(i as int + 1).map_values(
                |s: Socket| canon_row(s),
            ));
        }
        i = i + 1;
    }
    proof {
        assert(socks@.take(socks@.len() as int) =~= socks@);
    }
    join_bytes(&lines, NL)
}

} // verus!
