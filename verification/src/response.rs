//! The prepared response a handler builds through the `response_*` host
//! calls, and its materialization as HTTP bytes.
//!
//! Headers preserve insertion order and allow duplicates.  A response is
//! complete iff `status_code` and `body` are both set; the gateway writes it
//! onto the client socket only after the handler returns.

use vstd::prelude::*;

verus! {

use vstd::string::StringSliceAdditionalSpecFns;

/// The accumulating HTTP response of one session.
pub struct PreparedResponse {
    pub status_code: Option<u16>,
    pub reason: Option<Vec<u8>>,
    pub headers: Vec<(Vec<u8>, Vec<u8>)>,
    pub body: Option<Vec<u8>>,
}

/// Mathematical image of a `PreparedResponse`.
#[verifier::ext_equal]
pub ghost struct RespV {
    pub status_code: Option<u16>,
    pub reason: Option<Seq<u8>>,
    pub headers: Seq<(Seq<u8>, Seq<u8>)>,
    pub body: Option<Seq<u8>>,
}

impl View for PreparedResponse {
    type V = RespV;

    open spec fn view(&self) -> RespV {
        RespV {
            status_code: self.status_code,
            reason: match self.reason {
                Some(r) => Some(r@),
                None => None,
            },
            headers: self.headers@.map_values(|h: (Vec<u8>, Vec<u8>)| (h.0@, h.1@)),
            body: match self.body {
                Some(b) => Some(b@),
                None => None,
            },
        }
    }
}

impl RespV {
    /// Fresh responses start empty; `reason` is set exactly when
    /// `status_code` is, because the ABI sets them through one call.
    pub open spec fn wf(self) -> bool {
        self.status_code is Some <==> self.reason is Some
    }

    /// A response is complete iff status and body are both set.
    pub open spec fn complete(self) -> bool {
        self.status_code is Some && self.body is Some
    }
}

impl PreparedResponse {
    pub fn new() -> (r: PreparedResponse)
        ensures
            r@ == (RespV {
                status_code: None,
                reason: None,
                headers: Seq::<(Seq<u8>, Seq<u8>)>::empty(),
                body: None,
            }),
    {
        let r = PreparedResponse { status_code: None, reason: None, headers: Vec::new(), body: None };
        proof {
            assert(r@.headers =~= Seq::<(Seq<u8>, Seq<u8>)>::empty());
        }
        r
    }

    pub fn is_complete(&self) -> (b: bool)
        ensures
            b == self@.complete(),
    {
        self.status_code.is_some() && self.body.is_some()
    }
}

/// Decimal digits of `n`, most significant first.
pub open spec fn dec_seq(n: nat) -> Seq<u8>
    decreases n,
{
    if n < 10 {
        seq![(48 + n) as u8]
    } else {
        dec_seq(n / 10).push((48 + n % 10) as u8)
    }
}

/// `\r\n`.
pub open spec fn crlf() -> Seq<u8> {
    "\r\n".spec_bytes()
}

/// One header line: `name: value\r\n`.
pub open spec fn header_line(name: Seq<u8>, value: Seq<u8>) -> Seq<u8> {
    name + ": ".spec_bytes() + value + crlf()
}

/// All header lines in insertion order.
pub open spec fn header_block(headers: Seq<(Seq<u8>, Seq<u8>)>) -> Seq<u8>
    decreases headers.len(),
{
    if headers.len() == 0 {
        Seq::<u8>::empty()
    } else {
        header_line(headers[0].0, headers[0].1) + header_block(headers.drop_first())
    }
}

/// An optional byte string, empty when unset.
pub open spec fn opt_bytes(o: Option<Seq<u8>>) -> Seq<u8> {
    match o {
        Some(b) => b,
        None => Seq::<u8>::empty(),
    }
}

/// An optional status, zero when unset.
pub open spec fn opt_status(o: Option<u16>) -> nat {
    match o {
        Some(s) => s as nat,
        None => 0,
    }
}

/// The whole wire image of a response: status line, header lines, blank
/// line, body.  Callers send it only once the response is complete.
pub open spec fn render_spec(r: RespV) -> Seq<u8> {
    "HTTP/1.1 ".spec_bytes() + dec_seq(opt_status(r.status_code)) + " ".spec_bytes()
        + opt_bytes(r.reason) + crlf() + header_block(r.headers) + crlf() + opt_bytes(r.body)
}

/// Append every byte of `src` to `dst`.
pub fn push_bytes(dst: &mut Vec<u8>, src: &[u8])
    ensures
        final(dst)@ == old(dst)@ + src@,
{
    let ghost orig = dst@;
    let n = src.len();
    let mut i: usize = 0;
    while i < n
        invariant
            i <= n,
            n == src@.len(),
            dst@ == orig + src@.subrange(0, i as int),
        decreases n - i,
    {
        dst.push(src[i]);
        assert(dst@ =~= orig + src@.subrange(0, i + 1));
        i = i + 1;
    }
    proof {
        assert(src@.subrange(0, n as int) =~= src@);
    }
}

/// Decimal digits of `n` as ASCII bytes, most significant first.
pub fn dec_bytes(n: u16) -> (r: Vec<u8>)
    ensures
        r@ == dec_seq(n as nat),
    decreases n,
{
    if n < 10 {
        let mut v: Vec<u8> = Vec::new();
        v.push(48 + n as u8);
        proof {
            assert(v@ =~= seq![(48 + n) as u8]);
        }
        v
    } else {
        let mut v = dec_bytes(n / 10);
        v.push(48 + (n % 10) as u8);
        v
    }
}

/// Materialize a complete response as the bytes that go onto the client
/// socket.
pub fn render(r: &PreparedResponse) -> (out: Vec<u8>)
    ensures
        out@ == render_spec(r@),
{
    let mut out: Vec<u8> = Vec::new();
    push_bytes(&mut out, "HTTP/1.1 ".as_bytes());
    let status = match &r.status_code {
        Some(s) => *s,
        None => 0,
    };
    let digits = dec_bytes(status);
    push_bytes(&mut out, digits.as_slice());
    push_bytes(&mut out, " ".as_bytes());
    match &r.reason {
        Some(reason) => push_bytes(&mut out, reason.as_slice()),
        None => (),
    }
    push_bytes(&mut out, "\r\n".as_bytes());
    let n = r.headers.len();
    let mut i: usize = 0;
    while i < n
        invariant
            i <= n,
            n == r.headers@.len(),
            r@.headers.len() == n,
            forall|j: int| 0 <= j < n ==> r@.headers[j] == (r.headers@[j].0@, r.headers@[j].1@),
            out@ == "HTTP/1.1 ".spec_bytes() + dec_seq(opt_status(r@.status_code))
                + " ".spec_bytes() + opt_bytes(r@.reason) + crlf()
                + header_block(r@.headers.subrange(0, i as int)),
        decreases n - i,
    {
        let ghost before = out@;
        push_bytes(&mut out, r.headers[i].0.as_slice());
        push_bytes(&mut out, ": ".as_bytes());
        push_bytes(&mut out, r.headers[i].1.as_slice());
        push_bytes(&mut out, "\r\n".as_bytes());
        proof {
            let hs = r@.headers;
            lemma_header_block_snoc(hs, i as int);
            assert(out@ =~= before + header_line(hs[i as int].0, hs[i as int].1));
        }
        i = i + 1;
    }
    proof {
        assert(r@.headers.subrange(0, n as int) =~= r@.headers);
    }
    push_bytes(&mut out, "\r\n".as_bytes());
    match &r.body {
        Some(body) => push_bytes(&mut out, body.as_slice()),
        None => (),
    }
    out
}

/// Appending one more header to a prefix extends the header block by one
/// line.
proof fn lemma_header_block_snoc(hs: Seq<(Seq<u8>, Seq<u8>)>, i: int)
    requires
        0 <= i < hs.len(),
    ensures
        header_block(hs.subrange(0, i + 1)) == header_block(hs.subrange(0, i))
            + header_line(hs[i].0, hs[i].1),
    decreases i,
{
    if i == 0 {
        assert(hs.subrange(0, 1).drop_first() =~= hs.subrange(0, 0));
        assert(header_block(hs.subrange(0, 0)) =~= Seq::<u8>::empty());
        assert(header_block(hs.subrange(0, 1)) =~= header_line(hs[0].0, hs[0].1));
    } else {
        lemma_header_block_snoc(hs.drop_first(), i - 1);
        assert(hs.subrange(0, i + 1).drop_first() =~= hs.drop_first().subrange(0, i));
        assert(hs.subrange(0, i).drop_first() =~= hs.drop_first().subrange(0, i - 1));
        assert(header_block(hs.subrange(0, i + 1)) =~= header_line(hs[0].0, hs[0].1)
            + header_block(hs.drop_first().subrange(0, i)));
        assert(header_block(hs.subrange(0, i)) =~= header_line(hs[0].0, hs[0].1)
            + header_block(hs.drop_first().subrange(0, i - 1)));
        assert(header_block(hs.subrange(0, i + 1)) =~= header_block(hs.subrange(0, i))
            + header_line(hs[i].0, hs[i].1));
    }
}

} // verus!
