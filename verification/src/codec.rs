//! Wire codec: a fixed, version-free binary layout for requests and
//! responses, understood identically by both ends.
//!
//! A request is a single command tag byte.  A response is three fields in
//! order: optional path, message, optional data blob.  An optional field is a
//! presence byte (0 or 1) followed, when present, by the field; a byte field
//! is its length as eight little-endian bytes followed by the bytes
//! themselves.  Decoding accepts exactly the encodings of values and nothing
//! else, so encoding is deterministic and decode inverts encode.

use vstd::prelude::*;

use crate::model::{opt_view, Request, Response, ResponseModel, ServerCommand};

verus! {

/// Error for wire bytes that are truncated, malformed, or carry an unknown
/// discriminant.
#[derive(Debug, Clone, Copy, PartialEq, Eq, Structural)]
pub enum DecodeError {
    Malformed,
}

/// 256 to the power `k`.
pub open spec fn pow256(k: nat) -> nat
    decreases k,
{
    if k == 0 {
        1
    } else {
        256 * pow256((k - 1) as nat)
    }
}

/// `n` written as `k` little-endian base-256 digits (low byte first).
pub open spec fn enc_le(n: nat, k: nat) -> Seq<u8>
    decreases k,
{
    if k == 0 {
        Seq::empty()
    } else {
        seq![(n % 256) as u8] + enc_le(n / 256, (k - 1) as nat)
    }
}

/// The number a little-endian byte sequence stands for.
pub open spec fn dec_le(s: Seq<u8>) -> nat
    decreases s.len(),
{
    if s.len() == 0 {
        0
    } else {
        s[0] as nat + 256 * dec_le(s.drop_first())
    }
}

/// A length field: eight little-endian bytes.
pub open spec fn enc_len(n: nat) -> Seq<u8> {
    enc_le(n, 8)
}

/// A byte field: its length, then its bytes.
pub open spec fn enc_bytes(s: Seq<u8>) -> Seq<u8> {
    enc_len(s.len()) + s
}

/// An optional byte field: a presence byte, then the field when present.
pub open spec fn enc_opt(s: Option<Seq<u8>>) -> Seq<u8> {
    match s {
        None => seq![0u8],
        Some(b) => seq![1u8] + enc_bytes(b),
    }
}

/// The tag byte of each command.
pub open spec fn spec_command_tag(c: ServerCommand) -> u8 {
    match c {
        ServerCommand::Prev => 0,
        ServerCommand::Next => 1,
        ServerCommand::Fullscreen => 2,
        ServerCommand::Rotate => 3,
        ServerCommand::Pageant => 4,
        ServerCommand::Fetch => 5,
    }
}

/// The command a tag byte stands for, for tags below 6.
pub open spec fn spec_command_of_tag(t: u8) -> ServerCommand {
    if t == 0 {
        ServerCommand::Prev
    } else if t == 1 {
        ServerCommand::Next
    } else if t == 2 {
        ServerCommand::Fullscreen
    } else if t == 3 {
        ServerCommand::Rotate
    } else if t == 4 {
        ServerCommand::Pageant
    } else {
        ServerCommand::Fetch
    }
}

/// The bytes a request encodes to.
pub open spec fn spec_encode_request(c: ServerCommand) -> Seq<u8> {
    seq![spec_command_tag(c)]
}

/// The bytes a response encodes to.
pub open spec fn spec_encode_response(m: ResponseModel) -> Seq<u8> {
    enc_opt(m.path) + enc_bytes(m.message) + enc_opt(m.bytes)
}

/// Read a length field at `i`: the number, and the index after it.
pub open spec fn sp_read_len(b: Seq<u8>, i: int) -> Option<(nat, int)> {
    if 0 <= i && i + 8 <= b.len() {
        Some((dec_le(b.subrange(i, i + 8)), i + 8))
    } else {
        None
    }
}

/// Read a byte field at `i`: the bytes, and the index after them.
pub open spec fn sp_read_bytes(b: Seq<u8>, i: int) -> Option<(Seq<u8>, int)> {
    match sp_read_len(b, i) {
        Some((n, j)) => if j + n <= b.len() {
            Some((b.subrange(j, j + n), j + n))
        } else {
            None
        },
        None => None,
    }
}

/// Read an optional byte field at `i`.
pub open spec fn sp_read_opt(b: Seq<u8>, i: int) -> Option<(Option<Seq<u8>>, int)> {
    if 0 <= i && i < b.len() {
        if b[i] == 0 {
            Some((None, i + 1))
        } else if b[i] == 1 {
            match sp_read_bytes(b, i + 1) {
                Some((s, j)) => Some((Some(s), j)),
                None => None,
            }
        } else {
            None
        }
    } else {
        None
    }
}

/// The request a byte sequence decodes to, if it is exactly the encoding of
/// one.
pub open spec fn spec_decode_request(b: Seq<u8>) -> Option<ServerCommand> {
    if b.len() == 1 && b[0] < 6 {
        Some(spec_command_of_tag(b[0]))
    } else {
        None
    }
}

/// The response a byte sequence decodes to, if it is exactly the encoding of
/// one.
pub open spec fn spec_decode_response(b: Seq<u8>) -> Option<ResponseModel> {
    match sp_read_opt(b, 0) {
        Some((path, i1)) => match sp_read_bytes(b, i1) {
            Some((message, i2)) => match sp_read_opt(b, i2) {
                Some((bytes, i3)) => if i3 == b.len() {
                    Some(ResponseModel { path, message, bytes })
                } else {
                    None
                },
                None => None,
            },
            None => None,
        },
        None => None,
    }
}

/// A response value whose fields are short enough for their length fields.
pub open spec fn fits_wire(m: ResponseModel) -> bool {
    &&& m.message.len() < pow256(8)
    &&& (m.path matches Some(p) ==> p.len() < pow256(8))
    &&& (m.bytes matches Some(d) ==> d.len() < pow256(8))
}

proof fn lemma_pow256_8()
    ensures
        pow256(8) == 0x1_0000_0000_0000_0000,
{
    reveal_with_fuel(pow256, 9);
}

proof fn lemma_enc_le_len(n: nat, k: nat)
    ensures
        enc_le(n, k).len() == k,
    decreases k,
{
    if k > 0 {
        lemma_enc_le_len(n / 256, (k - 1) as nat);
    }
}

proof fn lemma_dec_enc(n: nat, k: nat)
    requires
        n < pow256(k),
    ensures
        dec_le(enc_le(n, k)) == n,
    decreases k,
{
    if k > 0 {
        let e = enc_le(n, k);
        lemma_enc_le_len(n / 256, (k - 1) as nat);
        assert(e.drop_first() =~= enc_le(n / 256, (k - 1) as nat));
        assert(n / 256 < pow256((k - 1) as nat)) by {
            assert(n < 256 * pow256((k - 1) as nat));
        };
        lemma_dec_enc(n / 256, (k - 1) as nat);
        assert(dec_le(e) == n % 256 + 256 * (n / 256));
    }
}

proof fn lemma_pow256_le(a: nat, b: nat)
    requires
        a <= b,
    ensures
        pow256(a) <= pow256(b),
    decreases b,
{
    if a < b && b > 0 {
        lemma_pow256_le(a, (b - 1) as nat);
    }
}

proof fn lemma_dec_le_bound(s: Seq<u8>)
    ensures
        dec_le(s) < pow256(s.len()),
    decreases s.len(),
{
    if s.len() > 0 {
        lemma_dec_le_bound(s.drop_first());
    }
}

/// Reading a length field out of a buffer that holds `enc_len(n)` at `i`.
proof fn lemma_read_len_at(b: Seq<u8>, i: int, n: nat)
    requires
        n < pow256(8),
        0 <= i,
        i + 8 <= b.len(),
        b.subrange(i, i + 8) == enc_len(n),
    ensures
        sp_read_len(b, i) == Some((n, i + 8)),
{
    lemma_dec_enc(n, 8);
}

/// Reading a byte field out of a buffer that holds `enc_bytes(s)` at `i`.
proof fn lemma_read_bytes_at(b: Seq<u8>, i: int, s: Seq<u8>)
    requires
        s.len() < pow256(8),
        0 <= i,
        i + 8 + s.len() <= b.len(),
        b.subrange(i, i + 8 + s.len()) == enc_bytes(s),
    ensures
        sp_read_bytes(b, i) == Some((s, i + 8 + s.len())),
{
    lemma_enc_le_len(s.len(), 8);
    let piece = b.subrange(i, i + 8 + s.len());
    assert(b.subrange(i, i + 8) =~= piece.subrange(0, 8));
    assert(piece.subrange(0, 8) =~= enc_len(s.len()));
    lemma_read_len_at(b, i, s.len());
    assert(b.subrange(i + 8, i + 8 + s.len()) =~= piece.subrange(8, 8 + s.len() as int));
    assert(piece.subrange(8, 8 + s.len() as int) =~= s);
}

/// Reading an optional field out of a buffer that holds `enc_opt(s)` at `i`.
proof fn lemma_read_opt_at(b: Seq<u8>, i: int, s: Option<Seq<u8>>)
    requires
        s matches Some(x) ==> x.len() < pow256(8),
        0 <= i,
        i + enc_opt(s).len() <= b.len(),
        b.subrange(i, i + enc_opt(s).len()) == enc_opt(s),
    ensures
        sp_read_opt(b, i) == Some((s, i + enc_opt(s).len())),
{
    let e = enc_opt(s);
    match s {
        None => {
            assert(b[i] == e[0]);
        },
        Some(x) => {
            lemma_enc_le_len(x.len(), 8);
            assert(b[i] == e[0]);
            assert(b.subrange(i + 1, i + 1 + 8 + x.len()) =~= e.subrange(1, e.len() as int));
            assert(e.subrange(1, e.len() as int) =~= enc_bytes(x));
            lemma_read_bytes_at(b, i + 1, x);
        },
    }
}

/// Decoding inverts encoding: for every response value that fits the wire,
/// decoding its encoding gives back exactly that value.
pub proof fn lemma_response_round_trip(m: ResponseModel)
    requires
        fits_wire(m),
    ensures
        spec_decode_response(spec_encode_response(m)) == Some(m),
{
    let b = spec_encode_response(m);
    let e1 = enc_opt(m.path);
    let e2 = enc_bytes(m.message);
    let e3 = enc_opt(m.bytes);
    lemma_enc_le_len(m.message.len(), 8);
    if let Some(p) = m.path {
        lemma_enc_le_len(p.len(), 8);
    }
    if let Some(d) = m.bytes {
        lemma_enc_le_len(d.len(), 8);
    }
    let n1 = e1.len() as int;
    let n2 = e2.len() as int;
    let n3 = e3.len() as int;
    assert(b.len() == n1 + n2 + n3);
    assert(b.subrange(0, n1) =~= e1);
    lemma_read_opt_at(b, 0, m.path);
    assert(b.subrange(n1, n1 + n2) =~= e2);
    lemma_read_bytes_at(b, n1, m.message);
    assert(b.subrange(n1 + n2, n1 + n2 + n3) =~= e3);
    lemma_read_opt_at(b, n1 + n2, m.bytes);
}

/// Decoding inverts encoding for requests.
pub proof fn lemma_request_round_trip(c: ServerCommand)
    ensures
        spec_decode_request(spec_encode_request(c)) == Some(c),
{
}

fn command_tag(c: ServerCommand) -> (r: u8)
    ensures
        r == spec_command_tag(c),
{
    match c {
        ServerCommand::Prev => 0,
        ServerCommand::Next => 1,
        ServerCommand::Fullscreen => 2,
        ServerCommand::Rotate => 3,
        ServerCommand::Pageant => 4,
        ServerCommand::Fetch => 5,
    }
}

/// Append `enc_len(n)` to `out`.
fn push_len(out: &mut Vec<u8>, n: usize)
    ensures
        final(out)@ == old(out)@ + enc_len(n as nat),
{
    let ghost base = out@;
    let mut m: u64 = n as u64;
    let mut k: usize = 0;
    while k < 8
        invariant
            k <= 8,
            out@.len() == base.len() + k,
            out@.subrange(0, base.len() as int) == base,
            enc_le(n as nat, 8) == out@.subrange(base.len() as int, out@.len() as int) + enc_le(
                m as nat,
                (8 - k) as nat,
            ),
        decreases 8 - k,
    {
        let ghost pre = out@;
        out.push((m % 256) as u8);
        proof {
            assert(out@.subrange(0, base.len() as int) =~= base);
            assert(enc_le(m as nat, (8 - k) as nat) == seq![(m as nat % 256) as u8] + enc_le(
                m as nat / 256,
                (8 - k - 1) as nat,
            ));
            assert(out@.subrange(base.len() as int, out@.len() as int) =~= pre.subrange(
                base.len() as int,
                pre.len() as int,
            ) + seq![(m as nat % 256) as u8]);
        }
        m = m / 256;
        k = k + 1;
    }
    proof {
        assert(out@ =~= out@.subrange(0, base.len() as int) + out@.subrange(
            base.len() as int,
            out@.len() as int,
        ));
    }
}

/// Append `enc_bytes(s)` to `out`.
fn push_bytes(out: &mut Vec<u8>, s: &Vec<u8>)
    ensures
        final(out)@ == old(out)@ + enc_bytes(s@),
{
    let ghost base = out@;
    push_len(out, s.len());
    let ghost mid = out@;
    let mut t: usize = 0;
    while t < s.len()
        invariant
            t <= s.len(),
            out@ == mid + s@.subrange(0, t as int),
        decreases s.len() - t,
    {
        let ghost pre = out@;
        out.push(s[t]);
        proof {
            assert(pre + seq![s@[t as int]] =~= mid + s@.subrange(0, t + 1));
        }
        t = t + 1;
    }
    proof {
        assert(s@.subrange(0, s@.len() as int) =~= s@);
        assert(mid + s@ =~= base + enc_bytes(s@));
    }
}

/// Append `enc_opt` of the field to `out`.
fn push_opt(out: &mut Vec<u8>, s: &Option<Vec<u8>>)
    ensures
        final(out)@ == old(out)@ + enc_opt(opt_view(*s)),
{
    let ghost base = out@;
    match s {
        None => {
            out.push(0u8);
            proof {
                assert(out@ =~= base + enc_opt(opt_view(*s)));
            }
        },
        Some(x) => {
            out.push(1u8);
            let ghost mid = out@;
            push_bytes(out, x);
            proof {
                assert(mid =~= base + seq![1u8]);
                assert(base + seq![1u8] + enc_bytes(x@) =~= base + enc_opt(opt_view(*s)));
            }
        },
    }
}

/// Read a length field at `i`.
fn read_len(b: &Vec<u8>, i: usize) -> (r: Option<(u64, usize)>)
    ensures
        match r {
            Some(p) => sp_read_len(b@, i as int) == Some((p.0 as nat, p.1 as int)),
            None => sp_read_len(b@, i as int) is None,
        },
{
    if i > b.len() || b.len() - i < 8 {
        return None;
    }
    let ghost s = b@.subrange(i as int, i + 8);
    proof {
        lemma_pow256_8();
        lemma_dec_le_bound(s);
    }
    let mut n: u64 = 0;
    let mut k: usize = 8;
    while k > 0
        invariant
            k <= 8,
            i + 8 <= b@.len(),
            b@.len() <= usize::MAX,
            s == b@.subrange(i as int, i + 8),
            n as nat == dec_le(s.subrange(k as int, 8)),
            (n as nat) < pow256((8 - k) as nat),
        decreases k,
    {
        k = k - 1;
        proof {
            assert(s.subrange(k as int, 8).drop_first() =~= s.subrange(k + 1, 8));
            assert(s.subrange(k as int, 8)[0] == b@[i + k]);
            assert(pow256((8 - k) as nat) == 256 * pow256((7 - k) as nat));
            lemma_pow256_le((8 - k) as nat, 8);
            lemma_pow256_8();
            assert((n as nat) * 256 + 255 < pow256((8 - k) as nat));
        }
        n = n * 256 + (b[i + k] as u64);
    }
    proof {
        assert(s.subrange(0, 8) =~= s);
    }
    Some((n, i + 8))
}

/// Read a byte field at `i`.
fn read_bytes(b: &Vec<u8>, i: usize) -> (r: Option<(Vec<u8>, usize)>)
    ensures
        match r {
            Some(p) => sp_read_bytes(b@, i as int) == Some((p.0@, p.1 as int)),
            None => sp_read_bytes(b@, i as int) is None,
        },
{
    let (n, j) = match read_len(b, i) {
        Some(p) => p,
        None => {
            return None;
        },
    };
    if n > (b.len() - j) as u64 {
        return None;
    }
    let count = n as usize;
    proof {
        assert(count as nat == n as nat);
    }
    let mut s: Vec<u8> = Vec::new();
    let mut t: usize = 0;
    while t < count
        invariant
            t <= count,
            j + count <= b@.len(),
            b@.len() <= usize::MAX,
            s@ == b@.subrange(j as int, j + t),
        decreases count - t,
    {
        let ghost pre = s@;
        s.push(b[j + t]);
        proof {
            assert(pre + seq![b@[j + t]] =~= b@.subrange(j as int, j + t + 1));
        }
        t = t + 1;
    }
    Some((s, j + count))
}

/// Read an optional byte field at `i`.
fn read_opt(b: &Vec<u8>, i: usize) -> (r: Option<(Option<Vec<u8>>, usize)>)
    ensures
        match r {
            Some(p) => sp_read_opt(b@, i as int) == Some((opt_view(p.0), p.1 as int)),
            None => sp_read_opt(b@, i as int) is None,
        },
{
    if i >= b.len() {
        return None;
    }
    let tag = b[i];
    if tag == 0 {
        Some((None, i + 1))
    } else if tag == 1 {
        match read_bytes(b, i + 1) {
            Some((s, j)) => Some((Some(s), j)),
            None => None,
        }
    } else {
        None
    }
}

impl Request {
    /// Encode the request for the wire.
    pub fn to_bytes(&self) -> (r: Vec<u8>)
        ensures
            r@ == spec_encode_request(self.spec_command()),
    {
        let mut out: Vec<u8> = Vec::new();
        out.push(command_tag(self.command()));
        proof {
            assert(out@ =~= spec_encode_request(self.spec_command()));
        }
        out
    }

    /// Decode a request from wire bytes; fails on anything that is not
    /// exactly the encoding of one.
    pub fn from_bytes(b: &Vec<u8>) -> (r: Result<Request, DecodeError>)
        ensures
            match r {
                Ok(req) => spec_decode_request(b@) == Some(req.spec_command()),
                Err(_) => spec_decode_request(b@) is None,
            },
    {
        if b.len() != 1 {
            return Err(DecodeError::Malformed);
        }
        let t = b[0];
        if t >= 6 {
            return Err(DecodeError::Malformed);
        }
        let c = if t == 0 {
            ServerCommand::Prev
        } else if t == 1 {
            ServerCommand::Next
        } else if t == 2 {
            ServerCommand::Fullscreen
        } else if t == 3 {
            ServerCommand::Rotate
        } else if t == 4 {
            ServerCommand::Pageant
        } else {
            ServerCommand::Fetch
        };
        Ok(Request::from_command(c))
    }
}

impl Response {
    /// Encode the response for the wire.
    pub fn to_bytes(&self) -> (r: Vec<u8>)
        ensures
            r@ == spec_encode_response(self@),
    {
        let mut out: Vec<u8> = Vec::new();
        push_opt(&mut out, &self.path);
        push_bytes(&mut out, &self.message);
        push_opt(&mut out, &self.bytes);
        out
    }

    /// Decode a response from wire bytes; fails on anything that is not
    /// exactly the encoding of one.
    pub fn from_bytes(b: &Vec<u8>) -> (r: Result<Response, DecodeError>)
        ensures
            match r {
                Ok(resp) => spec_decode_response(b@) == Some(resp@),
                Err(_) => spec_decode_response(b@) is None,
            },
    {
        let (path, i1) = match read_opt(b, 0) {
            Some(p) => p,
            None => {
                return Err(DecodeError::Malformed);
            },
        };
        let (message, i2) = match read_bytes(b, i1) {
            Some(p) => p,
            None => {
                return Err(DecodeError::Malformed);
            },
        };
        let (bytes, i3) = match read_opt(b, i2) {
            Some(p) => p,
            None => {
                return Err(DecodeError::Malformed);
            },
        };
        if i3 != b.len() {
            return Err(DecodeError::Malformed);
        }
        Ok(Response::new(path, bytes, message))
    }
}

} // verus!
