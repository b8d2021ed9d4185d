use vstd::prelude::*;
use vstd::utf8::*;
use crate::context::{Entry, UpgradeAssistantContext, entries_view};
use crate::types::{PendingOp, PendingOperation, ns_view};

verus! {

broadcast use {encode_utf8_valid_utf8, encode_utf8_decode_utf8, vstd::array::group_array_axioms};

// ---------------------------------------------------------------------------
// The byte layout of a context
//
//   context := count:u64 entry*            (the empty byte string is the empty context)
//   entry   := text(key) op
//   op      := 0 bytes(origin) opt_text(namespace) app[32]
//            | 1 bytes(origin) opt_text(namespace) delegate_key[32] code_hash[32]
//   opt_text := 0 | 1 text
//   text    := bytes(UTF-8 of the characters)
//   bytes   := length:u64 the bytes
//
// Integers are eight bytes, most significant first.
// ---------------------------------------------------------------------------

pub open spec fn be8(n: u64) -> Seq<u8> {
    seq![
        (n >> 56u64) as u8,
        (n >> 48u64) as u8,
        (n >> 40u64) as u8,
        (n >> 32u64) as u8,
        (n >> 24u64) as u8,
        (n >> 16u64) as u8,
        (n >> 8u64) as u8,
        n as u8,
    ]
}

pub open spec fn from_be8(b0: u8, b1: u8, b2: u8, b3: u8, b4: u8, b5: u8, b6: u8, b7: u8) -> u64 {
    ((b0 as u64) << 56u64) | ((b1 as u64) << 48u64) | ((b2 as u64) << 40u64) | ((b3 as u64)
        << 32u64) | ((b4 as u64) << 24u64) | ((b5 as u64) << 16u64) | ((b6 as u64) << 8u64) | (
    b7 as u64)
}

pub open spec fn enc_bytes(v: Seq<u8>) -> Seq<u8> {
    be8(v.len() as u64) + v
}

pub open spec fn enc_text(s: Seq<char>) -> Seq<u8> {
    enc_bytes(encode_utf8(s))
}

pub open spec fn enc_opt_text(o: Option<Seq<char>>) -> Seq<u8> {
    match o {
        None => seq![0u8],
        Some(s) => seq![1u8] + enc_text(s),
    }
}

pub open spec fn enc_op(op: PendingOp) -> Seq<u8> {
    match op {
        PendingOp::GetPreviousKey { origin, namespace, app } => seq![0u8] + enc_bytes(origin)
            + enc_opt_text(namespace) + app@,
        PendingOp::SetCurrentKey { origin, namespace, delegate_key, code_hash } => seq![1u8]
            + enc_bytes(origin) + enc_opt_text(namespace) + delegate_key@ + code_hash@,
    }
}

pub open spec fn enc_entry(e: Entry) -> Seq<u8> {
    enc_text(e.0) + enc_op(e.1)
}

pub open spec fn enc_entries(s: Seq<Entry>) -> Seq<u8>
    decreases s.len(),
{
    if s.len() == 0 {
        Seq::empty()
    } else {
        enc_entries(s.drop_last()) + enc_entry(s.last())
    }
}

/// The bytes that carry a context.
pub open spec fn context_bytes(s: Seq<Entry>) -> Seq<u8> {
    be8(s.len() as u64) + enc_entries(s)
}

// ---------------------------------------------------------------------------
// Reading, from a position; each result is the value and the position after it
// ---------------------------------------------------------------------------

pub open spec fn parse_u64(b: Seq<u8>, pos: int) -> Option<(u64, int)> {
    if 0 <= pos && pos + 8 <= b.len() {
        Some(
            (
                from_be8(b[pos], b[pos + 1], b[pos + 2], b[pos + 3], b[pos + 4], b[pos + 5], b[pos + 6], b[pos + 7]),
                pos + 8,
            ),
        )
    } else {
        None
    }
}

pub open spec fn parse_bytes(b: Seq<u8>, pos: int) -> Option<(Seq<u8>, int)> {
    match parse_u64(b, pos) {
        Some((n, p)) => if p + n <= b.len() {
            Some((b.subrange(p, p + n), p + n))
        } else {
            None
        },
        None => None,
    }
}

pub open spec fn parse_text(b: Seq<u8>, pos: int) -> Option<(Seq<char>, int)> {
    match parse_bytes(b, pos) {
        Some((v, p)) => if valid_utf8(v) {
            Some((decode_utf8(v), p))
        } else {
            None
        },
        None => None,
    }
}

pub open spec fn parse_opt_text(b: Seq<u8>, pos: int) -> Option<(Option<Seq<char>>, int)> {
    if 0 <= pos < b.len() {
        if b[pos] == 0 {
            Some((None, pos + 1))
        } else if b[pos] == 1 {
            match parse_text(b, pos + 1) {
                Some((s, p)) => Some((Some(s), p)),
                None => None,
            }
        } else {
            None
        }
    } else {
        None
    }
}

pub open spec fn parse_array(b: Seq<u8>, pos: int) -> Option<([u8; 32], int)> {
    if 0 <= pos && pos + 32 <= b.len() {
        Some((choose|a: [u8; 32]| a@ == b.subrange(pos, pos + 32), pos + 32))
    } else {
        None
    }
}

pub open spec fn parse_op(b: Seq<u8>, pos: int) -> Option<(PendingOp, int)> {
    if 0 <= pos < b.len() && (b[pos] == 0 || b[pos] == 1) {
        match parse_bytes(b, pos + 1) {
            Some((origin, p1)) => match parse_opt_text(b, p1) {
                Some((namespace, p2)) => match parse_array(b, p2) {
                    Some((a1, p3)) => if b[pos] == 0 {
                        Some((PendingOp::GetPreviousKey { origin, namespace, app: a1 }, p3))
                    } else {
                        match parse_array(b, p3) {
                            Some((a2, p4)) => Some(
                                (
                                    PendingOp::SetCurrentKey {
                                        origin,
                                        namespace,
                                        delegate_key: a1,
                                        code_hash: a2,
                                    },
                                    p4,
                                ),
                            ),
                            None => None,
                        }
                    },
                    None => None,
                },
                None => None,
            },
            None => None,
        }
    } else {
        None
    }
}

pub open spec fn parse_entry(b: Seq<u8>, pos: int) -> Option<(Entry, int)> {
    match parse_text(b, pos) {
        Some((key, p)) => match parse_op(b, p) {
            Some((op, q)) => Some(((key, op), q)),
            None => None,
        },
        None => None,
    }
}

pub open spec fn parse_entries(b: Seq<u8>, pos: int, count: nat) -> Option<(Seq<Entry>, int)>
    decreases count,
{
    if count == 0 {
        Some((Seq::empty(), pos))
    } else {
        match parse_entries(b, pos, (count - 1) as nat) {
            Some((es, p)) => match parse_entry(b, p) {
                Some((e, q)) => Some((es.push(e), q)),
                None => None,
            },
            None => None,
        }
    }
}

/// The context that bytes carry, if they carry one; no bytes at all carry the
/// empty context of a fresh exchange.
pub open spec fn parse_context(b: Seq<u8>) -> Option<Seq<Entry>> {
    if b.len() == 0 {
        Some(Seq::empty())
    } else {
        match parse_u64(b, 0) {
            Some((n, p)) => match parse_entries(b, p, n as nat) {
                Some((es, q)) => if q == b.len() {
                    Some(es)
                } else {
                    None
                },
                None => None,
            },
            None => None,
        }
    }
}

// ---------------------------------------------------------------------------
// Reading back what was written
// ---------------------------------------------------------------------------

/// `x` stands in `b` from `pos` on.
pub open spec fn stands_at(b: Seq<u8>, pos: int, x: Seq<u8>) -> bool {
    0 <= pos && pos + x.len() <= b.len() && b.subrange(pos, pos + x.len()) == x
}

pub open spec fn text_fits(s: Seq<char>) -> bool {
    encode_utf8(s).len() <= u64::MAX
}

pub open spec fn opt_text_fits(o: Option<Seq<char>>) -> bool {
    match o {
        Some(s) => text_fits(s),
        None => true,
    }
}

pub open spec fn op_fits(op: PendingOp) -> bool {
    match op {
        PendingOp::GetPreviousKey { origin, namespace, .. } => origin.len() <= u64::MAX
            && opt_text_fits(namespace),
        PendingOp::SetCurrentKey { origin, namespace, .. } => origin.len() <= u64::MAX
            && opt_text_fits(namespace),
    }
}

/// Every length in the context fits the eight bytes that carry it, as the
/// length of anything held in memory does.
pub open spec fn entries_fit(s: Seq<Entry>) -> bool {
    &&& s.len() <= u64::MAX
    &&& forall|i: int| 0 <= i < s.len() ==> text_fits(#[trigger] s[i].0) && op_fits(s[i].1)
}

proof fn lemma_stands_split(b: Seq<u8>, pos: int, x: Seq<u8>, y: Seq<u8>)
    requires
        stands_at(b, pos, x + y),
    ensures
        stands_at(b, pos, x),
        stands_at(b, pos + x.len(), y),
{
    assert(b.subrange(pos, pos + x.len()) =~= (x + y).subrange(0, x.len() as int));
    assert(b.subrange(pos + x.len(), pos + x.len() + y.len()) =~= (x + y).subrange(
        x.len() as int,
        (x + y).len() as int,
    ));
    assert((x + y).subrange(0, x.len() as int) =~= x);
    assert((x + y).subrange(x.len() as int, (x + y).len() as int) =~= y);
}

proof fn lemma_be8_round_trip(n: u64)
    ensures
        from_be8(
            (n >> 56u64) as u8,
            (n >> 48u64) as u8,
            (n >> 40u64) as u8,
            (n >> 32u64) as u8,
            (n >> 24u64) as u8,
            (n >> 16u64) as u8,
            (n >> 8u64) as u8,
            n as u8,
        ) == n,
{
    assert(((((n >> 56u64) as u8) as u64) << 56u64) | ((((n >> 48u64) as u8) as u64) << 48u64)
        | ((((n >> 40u64) as u8) as u64) << 40u64) | ((((n >> 32u64) as u8) as u64) << 32u64) | ((((
    n >> 24u64) as u8) as u64) << 24u64) | ((((n >> 16u64) as u8) as u64) << 16u64) | ((((n
        >> 8u64) as u8) as u64) << 8u64) | ((n as u8) as u64) == n) by (bit_vector);
}

proof fn lemma_u64_round_trip(b: Seq<u8>, pos: int, n: u64)
    requires
        stands_at(b, pos, be8(n)),
    ensures
        parse_u64(b, pos) == Some((n, pos + 8)),
{
    let sub = b.subrange(pos, pos + 8);
    assert(forall|i: int| 0 <= i < 8 ==> b[pos + i] == #[trigger] sub[i]);
    assert(b[pos] == sub[0] && b[pos + 1] == sub[1] && b[pos + 2] == sub[2] && b[pos + 3]
        == sub[3]);
    assert(b[pos + 4] == sub[4] && b[pos + 5] == sub[5] && b[pos + 6] == sub[6] && b[pos + 7]
        == sub[7]);
    lemma_be8_round_trip(n);
}

proof fn lemma_bytes_round_trip(b: Seq<u8>, pos: int, v: Seq<u8>)
    requires
        stands_at(b, pos, enc_bytes(v)),
        v.len() <= u64::MAX,
    ensures
        parse_bytes(b, pos) == Some((v, pos + enc_bytes(v).len())),
{
    lemma_stands_split(b, pos, be8(v.len() as u64), v);
    lemma_u64_round_trip(b, pos, v.len() as u64);
}

proof fn lemma_text_round_trip(b: Seq<u8>, pos: int, s: Seq<char>)
    requires
        stands_at(b, pos, enc_text(s)),
        text_fits(s),
    ensures
        parse_text(b, pos) == Some((s, pos + enc_text(s).len())),
{
    lemma_bytes_round_trip(b, pos, encode_utf8(s));
}

proof fn lemma_opt_text_round_trip(b: Seq<u8>, pos: int, o: Option<Seq<char>>)
    requires
        stands_at(b, pos, enc_opt_text(o)),
        opt_text_fits(o),
    ensures
        parse_opt_text(b, pos) == Some((o, pos + enc_opt_text(o).len())),
{
    assert(b[pos] == b.subrange(pos, pos + enc_opt_text(o).len())[0]);
    if let Some(s) = o {
        lemma_stands_split(b, pos, seq![1u8], enc_text(s));
        lemma_text_round_trip(b, pos + 1, s);
    }
}

proof fn lemma_array_round_trip(b: Seq<u8>, pos: int, a: [u8; 32])
    requires
        stands_at(b, pos, a@),
    ensures
        parse_array(b, pos) == Some((a, pos + 32)),
{
    let c = choose|c: [u8; 32]| c@ == b.subrange(pos, pos + 32);
    assert(c@ == a@);
    assert(c =~= a);
}

proof fn lemma_op_round_trip(b: Seq<u8>, pos: int, op: PendingOp)
    requires
        stands_at(b, pos, enc_op(op)),
        op_fits(op),
    ensures
        parse_op(b, pos) == Some((op, pos + enc_op(op).len())),
{
    assert(b[pos] == b.subrange(pos, pos + enc_op(op).len())[0]);
    match op {
        PendingOp::GetPreviousKey { origin, namespace, app } => {
            let t = seq![0u8];
            let x = enc_bytes(origin);
            let y = enc_opt_text(namespace);
            assert(enc_op(op) == t + x + y + app@);
            lemma_stands_split(b, pos, t + x + y, app@);
            lemma_stands_split(b, pos, t + x, y);
            lemma_stands_split(b, pos, t, x);
            lemma_bytes_round_trip(b, pos + 1, origin);
            lemma_opt_text_round_trip(b, pos + 1 + x.len(), namespace);
            lemma_array_round_trip(b, pos + 1 + x.len() + y.len(), app);
        },
        PendingOp::SetCurrentKey { origin, namespace, delegate_key, code_hash } => {
            let t = seq![1u8];
            let x = enc_bytes(origin);
            let y = enc_opt_text(namespace);
            assert(enc_op(op) == t + x + y + delegate_key@ + code_hash@);
            lemma_stands_split(b, pos, t + x + y + delegate_key@, code_hash@);
            lemma_stands_split(b, pos, t + x + y, delegate_key@);
            lemma_stands_split(b, pos, t + x, y);
            lemma_stands_split(b, pos, t, x);
            lemma_bytes_round_trip(b, pos + 1, origin);
            lemma_opt_text_round_trip(b, pos + 1 + x.len(), namespace);
            lemma_array_round_trip(b, pos + 1 + x.len() + y.len(), delegate_key);
            lemma_array_round_trip(b, pos + 1 + x.len() + y.len() + 32, code_hash);
        },
    }
}

proof fn lemma_entries_round_trip(b: Seq<u8>, pos: int, s: Seq<Entry>)
    requires
        stands_at(b, pos, enc_entries(s)),
        entries_fit(s),
    ensures
        parse_entries(b, pos, s.len()) == Some((s, pos + enc_entries(s).len())),
    decreases s.len(),
{
    if s.len() > 0 {
        let init = s.drop_last();
        let e = s.last();
        assert(entries_fit(init)) by {
            assert forall|i: int| 0 <= i < init.len() implies text_fits(#[trigger] init[i].0)
                && op_fits(init[i].1) by {
                assert(init[i] == s[i]);
            }
        }
        assert(text_fits(s[s.len() - 1].0) && op_fits(s[s.len() - 1].1));
        lemma_stands_split(b, pos, enc_entries(init), enc_entry(e));
        lemma_entries_round_trip(b, pos, init);
        let p = pos + enc_entries(init).len();
        lemma_stands_split(b, p, enc_text(e.0), enc_op(e.1));
        lemma_text_round_trip(b, p, e.0);
        lemma_op_round_trip(b, p + enc_text(e.0).len(), e.1);
        assert(init.push(e) =~= s);
    }
}

/// Reading the bytes of a context gives back that context.
pub proof fn lemma_context_round_trip(s: Seq<Entry>)
    requires
        entries_fit(s),
    ensures
        parse_context(context_bytes(s)) == Some(s),
{
    let b = context_bytes(s);
    assert(b.subrange(0, b.len() as int) =~= b);
    lemma_stands_split(b, 0, be8(s.len() as u64), enc_entries(s));
    lemma_u64_round_trip(b, 0, s.len() as u64);
    lemma_entries_round_trip(b, 8, s);
}

// ---------------------------------------------------------------------------
// Writing
// ---------------------------------------------------------------------------

fn write_u64(out: &mut Vec<u8>, n: u64)
    ensures
        final(out)@ == old(out)@ + be8(n),
{
    out.push((n >> 56u64) as u8);
    out.push((n >> 48u64) as u8);
    out.push((n >> 40u64) as u8);
    out.push((n >> 32u64) as u8);
    out.push((n >> 24u64) as u8);
    out.push((n >> 16u64) as u8);
    out.push((n >> 8u64) as u8);
    out.push(n as u8);
    assert(final(out)@ =~= old(out)@ + be8(n));
}

fn write_raw(out: &mut Vec<u8>, v: &[u8])
    ensures
        final(out)@ == old(out)@ + v@,
{
    let mut j: usize = 0;
    while j < v.len()
        invariant
            0 <= j <= v@.len(),
            out@ == old(out)@ + v@.subrange(0, j as int),
        decreases v@.len() - j,
    {
        out.push(v[j]);
        assert(v@.subrange(0, j as int + 1) =~= v@.subrange(0, j as int).push(v@[j as int]));
        j += 1;
    }
    assert(v@.subrange(0, v@.len() as int) =~= v@);
}

fn write_bytes(out: &mut Vec<u8>, v: &[u8])
    ensures
        final(out)@ == old(out)@ + enc_bytes(v@),
{
    write_u64(out, v.len() as u64);
    write_raw(out, v);
    assert(final(out)@ =~= old(out)@ + enc_bytes(v@));
}

fn write_text(out: &mut Vec<u8>, s: &String)
    ensures
        final(out)@ == old(out)@ + enc_text(s@),
        text_fits(s@),
{
    let bytes = s.as_str().as_bytes();
    write_bytes(out, bytes);
    assert(bytes@.len() == bytes.len());
}

fn write_opt_text(out: &mut Vec<u8>, o: &Option<String>)
    ensures
        final(out)@ == old(out)@ + enc_opt_text(ns_view(*o)),
        opt_text_fits(ns_view(*o)),
{
    match o {
        None => {
            out.push(0u8);
            assert(final(out)@ =~= old(out)@ + enc_opt_text(ns_view(*o)));
        },
        Some(s) => {
            out.push(1u8);
            write_text(out, s);
            assert(final(out)@ =~= old(out)@ + enc_opt_text(ns_view(*o)));
        },
    }
}

fn write_op(out: &mut Vec<u8>, op: &PendingOperation)
    ensures
        final(out)@ == old(out)@ + enc_op(op@),
        op_fits(op@),
{
    match op {
        PendingOperation::GetPreviousKey { origin, namespace, app } => {
            out.push(0u8);
            write_bytes(out, origin.as_slice());
            write_opt_text(out, namespace);
            write_raw(out, app.as_slice());
            assert(origin@.len() == origin.len());
        },
        PendingOperation::SetCurrentKey { origin, namespace, delegate_key, code_hash } => {
            out.push(1u8);
            write_bytes(out, origin.as_slice());
            write_opt_text(out, namespace);
            write_raw(out, delegate_key.as_slice());
            write_raw(out, code_hash.as_slice());
            assert(origin@.len() == origin.len());
        },
    }
    assert(final(out)@ =~= old(out)@ + enc_op(op@));
}

fn write_entry(out: &mut Vec<u8>, entry: &(String, PendingOperation))
    ensures
        final(out)@ == old(out)@ + enc_entry((entry.0@, entry.1@)),
        text_fits(entry.0@),
        op_fits(entry.1@),
{
    write_text(out, &entry.0);
    write_op(out, &entry.1);
    assert(final(out)@ =~= old(out)@ + enc_entry((entry.0@, entry.1@)));
}

proof fn lemma_enc_entries_step(s: Seq<Entry>, i: int)
    requires
        0 <= i < s.len(),
    ensures
        enc_entries(s.subrange(0, i + 1)) == enc_entries(s.subrange(0, i)) + enc_entry(s[i]),
{
    let prefix = s.subrange(0, i + 1);
    assert(prefix.drop_last() =~= s.subrange(0, i));
    assert(prefix.last() == s[i]);
}

/// Encodes a context into the bytes that travel with every message.
pub fn encode_context(ctx: &UpgradeAssistantContext) -> (r: Vec<u8>)
    ensures
        r@ == context_bytes(ctx@),
        entries_fit(ctx@),
{
    let ghost all = ctx@;
    let mut body: Vec<u8> = Vec::new();
    let mut i: usize = 0;
    while i < ctx.pending_ops.len()
        invariant
            0 <= i <= ctx.pending_ops@.len(),
            all == ctx@,
            all.len() == ctx.pending_ops@.len(),
            body@ == enc_entries(all.subrange(0, i as int)),
            forall|j: int| 0 <= j < i ==> text_fits(#[trigger] all[j].0) && op_fits(all[j].1),
        decreases ctx.pending_ops@.len() - i,
    {
        let entry = &ctx.pending_ops[i];
        write_entry(&mut body, entry);
        proof {
            assert(all[i as int] == (entry.0@, entry.1@));
            lemma_enc_entries_step(all, i as int);
        }
        i += 1;
    }
    assert(all.subrange(0, all.len() as int) =~= all);
    assert(ctx.pending_ops@.len() == ctx.pending_ops.len());
    let mut out: Vec<u8> = Vec::new();
    write_u64(&mut out, ctx.pending_ops.len() as u64);
    write_raw(&mut out, body.as_slice());
    assert(out@ =~= context_bytes(ctx@));
    out
}

// ---------------------------------------------------------------------------
// Reading
// ---------------------------------------------------------------------------

/// Relies on `String::from_utf8`: it succeeds exactly on valid UTF-8, and the
/// string then holds the characters that the bytes encode.
#[verifier::external_body]
fn string_from_utf8(bytes: Vec<u8>) -> (r: Option<String>)
    ensures
        r is Some <==> valid_utf8(bytes@),
        r matches Some(s) ==> s@ == decode_utf8(bytes@),
{
    String::from_utf8(bytes).ok()
}

fn read_u64(b: &Vec<u8>, pos: usize) -> (r: Option<(u64, usize)>)
    ensures
        match r {
            Some((n, p)) => parse_u64(b@, pos as int) == Some((n, p as int)),
            None => parse_u64(b@, pos as int) is None,
        },
{
    if pos <= b.len() && b.len() - pos >= 8 {
        let n = ((b[pos] as u64) << 56u64) | ((b[pos + 1] as u64) << 48u64) | ((b[pos + 2] as u64)
            << 40u64) | ((b[pos + 3] as u64) << 32u64) | ((b[pos + 4] as u64) << 24u64) | ((b[pos
            + 5] as u64) << 16u64) | ((b[pos + 6] as u64) << 8u64) | (b[pos + 7] as u64);
        Some((n, pos + 8))
    } else {
        None
    }
}

fn read_bytes(b: &Vec<u8>, pos: usize) -> (r: Option<(Vec<u8>, usize)>)
    ensures
        match r {
            Some((v, p)) => parse_bytes(b@, pos as int) == Some((v@, p as int)),
            None => parse_bytes(b@, pos as int) is None,
        },
{
    match read_u64(b, pos) {
        None => None,
        Some((n, p)) => {
            if n > (b.len() - p) as u64 {
                return None;
            }
            let end = p + n as usize;
            let mut v: Vec<u8> = Vec::new();
            let mut j: usize = p;
            while j < end
                invariant
                    p <= j <= end <= b@.len(),
                    v@ == b@.subrange(p as int, j as int),
                decreases end - j,
            {
                v.push(b[j]);
                assert(b@.subrange(p as int, j as int + 1) =~= b@.subrange(p as int, j as int).push(
                    b@[j as int],
                ));
                j += 1;
            }
            Some((v, end))
        },
    }
}

fn read_text(b: &Vec<u8>, pos: usize) -> (r: Option<(String, usize)>)
    ensures
        match r {
            Some((s, p)) => parse_text(b@, pos as int) == Some((s@, p as int)),
            None => parse_text(b@, pos as int) is None,
        },
{
    match read_bytes(b, pos) {
        None => None,
        Some((v, p)) => match string_from_utf8(v) {
            Some(s) => Some((s, p)),
            None => None,
        },
    }
}

fn read_opt_text(b: &Vec<u8>, pos: usize) -> (r: Option<(Option<String>, usize)>)
    ensures
        match r {
            Some((o, p)) => parse_opt_text(b@, pos as int) == Some((ns_view(o), p as int)),
            None => parse_opt_text(b@, pos as int) is None,
        },
{
    if pos >= b.len() {
        None
    } else if b[pos] == 0 {
        Some((None, pos + 1))
    } else if b[pos] == 1 {
        match read_text(b, pos + 1) {
            Some((s, p)) => Some((Some(s), p)),
            None => None,
        }
    } else {
        None
    }
}

fn read_array(b: &Vec<u8>, pos: usize) -> (r: Option<([u8; 32], usize)>)
    ensures
        match r {
            Some((a, p)) => parse_array(b@, pos as int) == Some((a, p as int)),
            None => parse_array(b@, pos as int) is None,
        },
{
    if pos > b.len() || b.len() - pos < 32 {
        return None;
    }
    let mut a: [u8; 32] = [0u8; 32];
    let mut j: usize = 0;
    while j < 32
        invariant
            0 <= j <= 32,
            pos + 32 <= b.len(),
            forall|k: int| 0 <= k < j ==> #[trigger] a@[k] == b@[pos + k],
        decreases 32 - j,
    {
        a.set(j, b[pos + j]);
        j += 1;
    }
    proof {
        let sub = b@.subrange(pos as int, pos as int + 32);
        assert(a@ =~= sub);
        let c = choose|c: [u8; 32]| c@ == sub;
        assert(c =~= a);
    }
    Some((a, pos + 32))
}

fn read_op(b: &Vec<u8>, pos: usize) -> (r: Option<(PendingOperation, usize)>)
    ensures
        match r {
            Some((op, p)) => parse_op(b@, pos as int) == Some((op@, p as int)),
            None => parse_op(b@, pos as int) is None,
        },
{
    if pos >= b.len() || (b[pos] != 0 && b[pos] != 1) {
        return None;
    }
    let tag = b[pos];
    let (origin, p1) = match read_bytes(b, pos + 1) {
        Some(x) => x,
        None => return None,
    };
    let (namespace, p2) = match read_opt_text(b, p1) {
        Some(x) => x,
        None => return None,
    };
    let (a1, p3) = match read_array(b, p2) {
        Some(x) => x,
        None => return None,
    };
    if tag == 0 {
        Some((PendingOperation::GetPreviousKey { origin, namespace, app: a1 }, p3))
    } else {
        let (a2, p4) = match read_array(b, p3) {
            Some(x) => x,
            None => return None,
        };
        Some(
            (
                PendingOperation::SetCurrentKey {
                    origin,
                    namespace,
                    delegate_key: a1,
                    code_hash: a2,
                },
                p4,
            ),
        )
    }
}

fn read_entry(b: &Vec<u8>, pos: usize) -> (r: Option<((String, PendingOperation), usize)>)
    ensures
        match r {
            Some((e, p)) => parse_entry(b@, pos as int) == Some(((e.0@, e.1@), p as int)),
            None => parse_entry(b@, pos as int) is None,
        },
{
    let (key, p) = match read_text(b, pos) {
        Some(x) => x,
        None => return None,
    };
    match read_op(b, p) {
        Some((op, q)) => Some(((key, op), q)),
        None => None,
    }
}

proof fn lemma_parse_entries_stays_none(b: Seq<u8>, pos: int, n: nat, m: nat)
    requires
        parse_entries(b, pos, n) is None,
        n <= m,
    ensures
        parse_entries(b, pos, m) is None,
    decreases m,
{
    if n < m {
        lemma_parse_entries_stays_none(b, pos, n, (m - 1) as nat);
    }
}

/// Decodes the context that travels with a message; no bytes at all give the
/// empty context of a fresh exchange, and bytes that carry no context give `None`.
pub fn decode_context(b: &Vec<u8>) -> (r: Option<UpgradeAssistantContext>)
    ensures
        match r {
            Some(ctx) => parse_context(b@) == Some(ctx@),
            None => parse_context(b@) is None,
        },
{
    if b.len() == 0 {
        return Some(UpgradeAssistantContext::new());
    }
    let (count, start) = match read_u64(b, 0) {
        Some(x) => x,
        None => return None,
    };
    let mut pending_ops: Vec<(String, PendingOperation)> = Vec::new();
    let mut pos: usize = start;
    let mut i: u64 = 0;
    while i < count
        invariant
            start == 8,
            parse_u64(b@, 0) == Some((count, 8int)),
            b@.len() > 0,
            0 <= i <= count,
            parse_entries(b@, 8, i as nat) == Some((entries_view(pending_ops@), pos as int)),
        decreases count - i,
    {
        match read_entry(b, pos) {
            Some((e, q)) => {
                let ghost before = pending_ops@;
                pending_ops.push(e);
                assert(entries_view(pending_ops@) =~= entries_view(before).push((e.0@, e.1@)));
                pos = q;
            },
            None => {
                proof {
                    assert(parse_entries(b@, 8, (i + 1) as nat) is None);
                    lemma_parse_entries_stays_none(b@, 8, (i + 1) as nat, count as nat);
                }
                return None;
            },
        }
        i += 1;
    }
    if pos == b.len() {
        Some(UpgradeAssistantContext { pending_ops })
    } else {
        None
    }
}

} // verus!
