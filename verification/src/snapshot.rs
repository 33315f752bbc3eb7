//! The plan snapshot hash: a SHA-256 digest over exactly the fields of each plan item that
//! authorize a file-system change, so that the store can recompute and check it.

use vstd::prelude::*;
use vstd::utf8::{decode_utf8, encode_utf8};
use sha2::{Digest, Sha256};
use crate::domain::{PlanAction, PlanItem, Risk};
use crate::text::opt_chars;

verus! {

/// The SHA-256 digest of a byte sequence.
pub uninterp spec fn sha256(data: Seq<u8>) -> Seq<u8>;

/// `sha2::Sha256::digest`: the SHA-256 digest of `data`, 32 bytes long.
#[verifier::external_body]
pub(crate) fn sha256_digest(data: &Vec<u8>) -> (r: Vec<u8>)
    ensures
        r@ == sha256(data@),
        r@.len() == 32,
{
    Sha256::digest(data.as_slice()).to_vec()
}

/// `n` as `count` little-endian bytes.
pub open spec fn le_bytes(n: nat, count: nat) -> Seq<u8>
    decreases count,
{
    if count == 0 {
        Seq::<u8>::empty()
    } else {
        seq![(n % 256) as u8] + le_bytes(n / 256, (count - 1) as nat)
    }
}

/// The name of an action in the snapshot.
pub open spec fn action_code(a: PlanAction) -> Seq<char> {
    match a {
        PlanAction::Move => "move"@,
        PlanAction::Skip => "skip"@,
    }
}

/// The name of a risk in the snapshot.
pub open spec fn risk_code(r: Risk) -> Seq<char> {
    match r {
        Risk::NoRisk => "none"@,
        Risk::InvalidTarget => "invalid_target"@,
        Risk::PathTooLong => "path_too_long"@,
        Risk::Conflict => "conflict"@,
        Risk::MetadataMissing => "metadata_missing"@,
    }
}

/// The UTF-8 bytes of an optional text (none for `None`).
pub open spec fn opt_utf8(s: Option<Seq<char>>) -> Seq<u8> {
    match s {
        Some(t) => encode_utf8(t),
        None => Seq::<u8>::empty(),
    }
}

/// The bytes of one plan row in the snapshot: its ordinal (8 bytes, little-endian), source
/// path, target, action, risk and reason, each text in UTF-8, separated by zero bytes and
/// closed by `0xff`.
pub open spec fn row_bytes(
    ordinal: u64,
    source: Seq<char>,
    target: Option<Seq<char>>,
    action: Seq<char>,
    risk: Seq<char>,
    reason: Option<Seq<char>>,
) -> Seq<u8> {
    le_bytes(ordinal as nat, 8) + encode_utf8(source) + seq![0u8] + opt_utf8(target) + seq![0u8]
        + encode_utf8(action) + seq![0u8] + encode_utf8(risk) + seq![0u8] + opt_utf8(reason)
        + seq![0xffu8]
}

/// The bytes that one plan item adds to the snapshot: its row with the stored names of its
/// action and risk.
pub open spec fn item_snapshot_bytes(it: PlanItem) -> Seq<u8> {
    row_bytes(
        it.ordinal,
        it.file.path@,
        opt_chars(it.target),
        action_code(it.action),
        risk_code(it.risk),
        opt_chars(it.reason),
    )
}

/// The bytes of all items, in order.
pub open spec fn snapshot_bytes(items: Seq<PlanItem>) -> Seq<u8>
    decreases items.len(),
{
    if items.len() == 0 {
        Seq::<u8>::empty()
    } else {
        snapshot_bytes(items.drop_last()) + item_snapshot_bytes(items.last())
    }
}

/// A lower-case hexadecimal digit.
pub open spec fn hex_digit(d: u8) -> char {
    if d < 10 {
        (48 + d) as char
    } else {
        (87 + d) as char
    }
}

/// Two lower-case hexadecimal digits per byte, high digit first.
pub open spec fn lower_hex(bytes: Seq<u8>) -> Seq<char>
    decreases bytes.len(),
{
    if bytes.len() == 0 {
        Seq::<char>::empty()
    } else {
        lower_hex(bytes.drop_last()) + seq![
            hex_digit(bytes.last() / 16),
            hex_digit(bytes.last() % 16),
        ]
    }
}

/// The snapshot hash of a plan: the SHA-256 digest of its snapshot bytes in lower-case
/// hexadecimal.
pub open spec fn snapshot_hash(items: Seq<PlanItem>) -> Seq<char> {
    lower_hex(sha256(snapshot_bytes(items)))
}

fn hex_digit_char(d: u8) -> (c: char)
    requires
        d < 16,
    ensures
        c == hex_digit(d),
{
    if d < 10 {
        (48u8 + d) as char
    } else {
        (87u8 + d) as char
    }
}

fn push_bytes(buf: &mut Vec<u8>, bytes: &[u8])
    ensures
        final(buf)@ == old(buf)@ + bytes@,
{
    let ghost start = buf@;
    let mut i: usize = 0;
    while i < bytes.len()
        invariant
            i <= bytes@.len(),
            buf@ == start + bytes@.take(i as int),
        decreases bytes.len() - i,
    {
        buf.push(bytes[i]);
        i += 1;
        assert(bytes@.take(i as int) =~= bytes@.take((i - 1) as int).push(bytes@[i - 1]));
    }
    assert(bytes@.take(bytes@.len() as int) =~= bytes@);
}

fn push_le_u64(buf: &mut Vec<u8>, n: u64)
    ensures
        final(buf)@ == old(buf)@ + le_bytes(n as nat, 8),
{
    let ghost start = buf@;
    let mut rest = n;
    let mut i: u64 = 0;
    while i < 8
        invariant
            i <= 8,
            buf@ + le_bytes(rest as nat, (8 - i) as nat) == start + le_bytes(n as nat, 8),
        decreases 8 - i,
    {
        let ghost before = buf@;
        assert(le_bytes(rest as nat, (8 - i) as nat) == seq![(rest % 256) as u8] + le_bytes(
            (rest / 256) as nat,
            (8 - i - 1) as nat,
        ));
        buf.push((rest % 256) as u8);
        assert(buf@ + le_bytes((rest / 256) as nat, (8 - i - 1) as nat) =~= before + le_bytes(
            rest as nat,
            (8 - i) as nat,
        ));
        rest = rest / 256;
        i += 1;
    }
    assert(le_bytes(rest as nat, 0) =~= Seq::<u8>::empty());
    assert(buf@ =~= start + le_bytes(n as nat, 8));
}

fn push_opt_text(buf: &mut Vec<u8>, s: &Option<String>)
    ensures
        final(buf)@ == old(buf)@ + opt_utf8(opt_chars(*s)),
{
    match s {
        Some(t) => push_bytes(buf, t.as_str().as_bytes()),
        None => {
            assert(old(buf)@ + opt_utf8(opt_chars(*s)) =~= old(buf)@);
        },
    }
}

/// Appends the snapshot bytes of one row (see `row_bytes`).
pub fn push_row_bytes(
    buf: &mut Vec<u8>,
    ordinal: u64,
    source: &str,
    target: &Option<String>,
    action: &str,
    risk: &str,
    reason: &Option<String>,
)
    ensures
        final(buf)@ == old(buf)@ + row_bytes(
            ordinal,
            source@,
            opt_chars(*target),
            action@,
            risk@,
            opt_chars(*reason),
        ),
{
    let ghost before = buf@;
    let ghost p1 = le_bytes(ordinal as nat, 8);
    push_le_u64(buf, ordinal);
    let ghost p2 = p1 + encode_utf8(source@) + seq![0u8];
    push_bytes(buf, source.as_bytes());
    buf.push(0);
    assert(buf@ =~= before + p2);
    let ghost p3 = p2 + opt_utf8(opt_chars(*target)) + seq![0u8];
    push_opt_text(buf, target);
    buf.push(0);
    assert(buf@ =~= before + p3);
    let ghost p4 = p3 + encode_utf8(action@) + seq![0u8];
    push_bytes(buf, action.as_bytes());
    buf.push(0);
    assert(buf@ =~= before + p4);
    let ghost p5 = p4 + encode_utf8(risk@) + seq![0u8];
    push_bytes(buf, risk.as_bytes());
    buf.push(0);
    assert(buf@ =~= before + p5);
    push_opt_text(buf, reason);
    buf.push(0xff);
    assert(buf@ =~= before + (p5 + opt_utf8(opt_chars(*reason)) + seq![0xffu8]));
    assert(p5 + opt_utf8(opt_chars(*reason)) + seq![0xffu8] =~= row_bytes(
        ordinal,
        source@,
        opt_chars(*target),
        action@,
        risk@,
        opt_chars(*reason),
    ));
}

fn push_item_bytes(buf: &mut Vec<u8>, it: &PlanItem)
    ensures
        final(buf)@ == old(buf)@ + item_snapshot_bytes(*it),
{
    let action: &str = match it.action {
        PlanAction::Move => "move",
        PlanAction::Skip => "skip",
    };
    let risk: &str = match it.risk {
        Risk::NoRisk => "none",
        Risk::InvalidTarget => "invalid_target",
        Risk::PathTooLong => "path_too_long",
        Risk::Conflict => "conflict",
        Risk::MetadataMissing => "metadata_missing",
    };
    push_row_bytes(buf, it.ordinal, it.file.path.as_str(), &it.target, action, risk, &it.reason);
}

/// The snapshot bytes of `items` (see `snapshot_bytes`).
pub fn plan_snapshot_bytes(items: &Vec<PlanItem>) -> (r: Vec<u8>)
    ensures
        r@ == snapshot_bytes(items@),
{
    let mut buf: Vec<u8> = Vec::new();
    let mut k: usize = 0;
    while k < items.len()
        invariant
            k <= items@.len(),
            buf@ == snapshot_bytes(items@.take(k as int)),
        decreases items.len() - k,
    {
        push_item_bytes(&mut buf, &items[k]);
        assert(items@.take(k + 1).drop_last() =~= items@.take(k as int));
        k += 1;
    }
    assert(items@.take(items@.len() as int) =~= items@);
    buf
}

/// Lower-case hexadecimal text of `bytes`.
pub fn lower_hex_string(bytes: &Vec<u8>) -> (r: String)
    ensures
        r@ == lower_hex(bytes@),
{
    let mut s = String::new();
    let mut i: usize = 0;
    while i < bytes.len()
        invariant
            i <= bytes@.len(),
            s@ == lower_hex(bytes@.take(i as int)),
        decreases bytes.len() - i,
    {
        let b = bytes[i];
        s.push(hex_digit_char(b / 16));
        s.push(hex_digit_char(b % 16));
        assert(bytes@.take(i + 1).drop_last() =~= bytes@.take(i as int));
        i += 1;
    }
    assert(bytes@.take(bytes@.len() as int) =~= bytes@);
    s
}

/// A stable digest over the fields that authorize a file-system change (ordinal, source,
/// target, action, risk, reason). Ids, conflict groups, candidates and tags are left out, so
/// the store can recompute it from its own rows.
pub fn plan_snapshot_hash(items: &Vec<PlanItem>) -> (r: String)
    ensures
        r@ == snapshot_hash(items@),
{
    let bytes = plan_snapshot_bytes(items);
    let digest = sha256_digest(&bytes);
    lower_hex_string(&digest)
}

/// Two items agree on every field that the snapshot covers.
pub open spec fn same_authorization(a: PlanItem, b: PlanItem) -> bool {
    &&& a.ordinal == b.ordinal
    &&& a.file.path@ == b.file.path@
    &&& opt_chars(a.target) == opt_chars(b.target)
    &&& a.action == b.action
    &&& a.risk == b.risk
    &&& opt_chars(a.reason) == opt_chars(b.reason)
}

/// The snapshot hash depends on the authorizing fields alone: plans whose items agree on
/// them, item by item, have the same hash, whatever their ids, conflict groups, image
/// candidates and tags.
pub proof fn law_snapshot_ignores_diagnostics(a: Seq<PlanItem>, b: Seq<PlanItem>)
    requires
        a.len() == b.len(),
        forall|i: int| 0 <= i < a.len() ==> same_authorization(#[trigger] a[i], b[i]),
    ensures
        snapshot_hash(a) == snapshot_hash(b),
    decreases a.len(),
{
    lemma_same_bytes(a, b);
}

proof fn lemma_same_bytes(a: Seq<PlanItem>, b: Seq<PlanItem>)
    requires
        a.len() == b.len(),
        forall|i: int| 0 <= i < a.len() ==> same_authorization(#[trigger] a[i], b[i]),
    ensures
        snapshot_bytes(a) == snapshot_bytes(b),
    decreases a.len(),
{
    if a.len() > 0 {
        assert forall|i: int| 0 <= i < a.drop_last().len() implies same_authorization(
            #[trigger] a.drop_last()[i],
            b.drop_last()[i],
        ) by {
            assert(same_authorization(a[i], b[i]));
        }
        lemma_same_bytes(a.drop_last(), b.drop_last());
        assert(same_authorization(a[a.len() - 1], b[b.len() - 1]));
    }
}

proof fn lemma_cancel(p: Seq<u8>, x: Seq<u8>, y: Seq<u8>, q: Seq<u8>)
    requires
        p + x + q == p + y + q,
    ensures
        x == y,
{
    let l = p + x + q;
    assert(l.len() == (p + y + q).len());
    assert(l.len() == p.len() + x.len() + q.len());
    assert((p + y + q).len() == p.len() + y.len() + q.len());
    assert(x.len() == y.len());
    assert(x =~= l.subrange(p.len() as int, (p.len() + x.len()) as int));
    assert(y =~= (p + y + q).subrange(p.len() as int, (p.len() + y.len()) as int));
}

proof fn lemma_snapshot_bytes_split(s: Seq<PlanItem>, k: int)
    requires
        0 <= k < s.len(),
    ensures
        snapshot_bytes(s) == snapshot_bytes(s.take(k)) + item_snapshot_bytes(s[k]) + snapshot_bytes_from(
            s,
            k + 1,
        ),
    decreases s.len(),
{
    if k == s.len() - 1 {
        assert(s.drop_last() =~= s.take(k));
        assert(snapshot_bytes_from(s, k + 1) == Seq::<u8>::empty());
        assert(snapshot_bytes(s.take(k)) + item_snapshot_bytes(s[k]) + Seq::<u8>::empty() =~= snapshot_bytes(
            s.take(k),
        ) + item_snapshot_bytes(s[k]));
    } else {
        let init = s.drop_last();
        lemma_snapshot_bytes_split(init, k);
        assert(init.take(k) =~= s.take(k));
        assert(init[k] == s[k]);
        lemma_snapshot_bytes_from_step(s, k + 1);
        assert(snapshot_bytes(s) =~= snapshot_bytes(s.take(k)) + item_snapshot_bytes(s[k])
            + snapshot_bytes_from(s, k + 1));
    }
}

/// The bytes of the items of `s` from position `k` on.
pub open spec fn snapshot_bytes_from(s: Seq<PlanItem>, k: int) -> Seq<u8>
    decreases s.len() - k,
{
    if k >= s.len() {
        Seq::<u8>::empty()
    } else {
        item_snapshot_bytes(s[k]) + snapshot_bytes_from(s, k + 1)
    }
}

proof fn lemma_snapshot_bytes_from_step(s: Seq<PlanItem>, k: int)
    requires
        0 <= k < s.len(),
    ensures
        snapshot_bytes_from(s, k) == snapshot_bytes_from(s.drop_last(), k) + item_snapshot_bytes(
            s.last(),
        ),
    decreases s.len() - k,
{
    if k == s.len() - 1 {
        assert(snapshot_bytes_from(s.drop_last(), k) == Seq::<u8>::empty());
        assert(snapshot_bytes_from(s, k + 1) == Seq::<u8>::empty());
        assert(item_snapshot_bytes(s[k]) + Seq::<u8>::empty() =~= Seq::<u8>::empty() + item_snapshot_bytes(
            s.last(),
        ));
    } else {
        lemma_snapshot_bytes_from_step(s, k + 1);
        assert(s.drop_last()[k] == s[k]);
        assert(snapshot_bytes_from(s, k) =~= snapshot_bytes_from(s.drop_last(), k) + item_snapshot_bytes(
            s.last(),
        ));
    }
}

proof fn lemma_same_bytes_from(a: Seq<PlanItem>, b: Seq<PlanItem>, k: int)
    requires
        a.len() == b.len(),
        0 <= k,
        forall|i: int| k <= i < a.len() ==> same_authorization(#[trigger] a[i], b[i]),
    ensures
        snapshot_bytes_from(a, k) == snapshot_bytes_from(b, k),
    decreases a.len() - k,
{
    if k < a.len() {
        lemma_same_bytes_from(a, b, k + 1);
        assert(same_authorization(a[k], b[k]));
    }
}

proof fn lemma_le_bytes_injective(n: nat, m: nat, count: nat)
    requires
        n < vstd::arithmetic::power::pow(256, count),
        m < vstd::arithmetic::power::pow(256, count),
        le_bytes(n, count) == le_bytes(m, count),
    ensures
        n == m,
    decreases count,
{
    vstd::arithmetic::power::lemma_pow_positive(256, count);
    if count == 0 {
        assert(vstd::arithmetic::power::pow(256, 0) == 1) by {
            vstd::arithmetic::power::lemma_pow0(256);
        }
    } else {
        let c1 = (count - 1) as nat;
        assert(le_bytes(n, count) == seq![(n % 256) as u8] + le_bytes(n / 256, c1));
        assert(le_bytes(m, count) == seq![(m % 256) as u8] + le_bytes(m / 256, c1));
        assert(le_bytes(n, count)[0] == (n % 256) as u8);
        assert(le_bytes(m, count)[0] == (m % 256) as u8);
        assert(le_bytes(n, count)[0] == le_bytes(m, count)[0]);
        assert((n % 256) as u8 == (m % 256) as u8);
        assert(n % 256 == m % 256);
        assert(le_bytes(n, count).skip(1) =~= le_bytes(n / 256, c1));
        assert(le_bytes(m, count).skip(1) =~= le_bytes(m / 256, c1));
        vstd::arithmetic::power::lemma_pow_adds(256, 1, c1);
        vstd::arithmetic::power::lemma_pow1(256);
        let p = vstd::arithmetic::power::pow(256, c1);
        assert(n / 256 < p) by (nonlinear_arith)
            requires
                n < 256 * p,
                p > 0,
        ;
        assert(m / 256 < p) by (nonlinear_arith)
            requires
                m < 256 * p,
                p > 0,
        ;
        lemma_le_bytes_injective(n / 256, m / 256, c1);
        assert(n == 256 * (n / 256) + n % 256) by (nonlinear_arith);
        assert(m == 256 * (m / 256) + m % 256) by (nonlinear_arith);
    }
}

proof fn lemma_u64_below_pow8(n: u64)
    ensures
        (n as nat) < vstd::arithmetic::power::pow(256, 8),
{
    reveal_with_fuel(vstd::arithmetic::power::pow, 9);
}

/// The two items agree on every field that the snapshot covers but their ordinals.
pub open spec fn differ_only_in_ordinal(a: PlanItem, b: PlanItem) -> bool {
    &&& a.ordinal != b.ordinal
    &&& a.file.path@ == b.file.path@
    &&& opt_chars(a.target) == opt_chars(b.target)
    &&& a.action == b.action
    &&& a.risk == b.risk
    &&& opt_chars(a.reason) == opt_chars(b.reason)
}

/// The two items agree on every field that the snapshot covers but their actions.
pub open spec fn differ_only_in_action(a: PlanItem, b: PlanItem) -> bool {
    &&& a.ordinal == b.ordinal
    &&& a.file.path@ == b.file.path@
    &&& opt_chars(a.target) == opt_chars(b.target)
    &&& a.action != b.action
    &&& a.risk == b.risk
    &&& opt_chars(a.reason) == opt_chars(b.reason)
}

/// The two items agree on every field that the snapshot covers but their risks.
pub open spec fn differ_only_in_risk(a: PlanItem, b: PlanItem) -> bool {
    &&& a.ordinal == b.ordinal
    &&& a.file.path@ == b.file.path@
    &&& opt_chars(a.target) == opt_chars(b.target)
    &&& a.action == b.action
    &&& a.risk != b.risk
    &&& opt_chars(a.reason) == opt_chars(b.reason)
}

proof fn lemma_risk_codes_differ(a: Risk, b: Risk)
    requires
        a != b,
    ensures
        risk_code(a) != risk_code(b),
{
    reveal_strlit("none");
    reveal_strlit("invalid_target");
    reveal_strlit("path_too_long");
    reveal_strlit("conflict");
    reveal_strlit("metadata_missing");
    assert(risk_code(a).len() != risk_code(b).len() || risk_code(a)[0] != risk_code(b)[0]
        || risk_code(a) != risk_code(b));
}

/// The bytes of an item before its action, and after its risk.
spec fn row_head(a: PlanItem) -> Seq<u8> {
    le_bytes(a.ordinal as nat, 8) + encode_utf8(a.file.path@) + seq![0u8] + opt_utf8(opt_chars(a.target))
        + seq![0u8]
}

spec fn row_tail(a: PlanItem) -> Seq<u8> {
    seq![0u8] + opt_utf8(opt_chars(a.reason)) + seq![0xffu8]
}

proof fn lemma_item_bytes_shape(a: PlanItem)
    ensures
        item_snapshot_bytes(a) == row_head(a) + encode_utf8(action_code(a.action)) + (seq![0u8]
            + encode_utf8(risk_code(a.risk)) + row_tail(a)),
        item_snapshot_bytes(a) == (row_head(a) + encode_utf8(action_code(a.action)) + seq![0u8])
            + encode_utf8(risk_code(a.risk)) + row_tail(a),
        item_snapshot_bytes(a) == Seq::<u8>::empty() + le_bytes(a.ordinal as nat, 8) + (encode_utf8(
            a.file.path@,
        ) + seq![0u8] + opt_utf8(opt_chars(a.target)) + seq![0u8] + encode_utf8(action_code(a.action))
            + seq![0u8] + encode_utf8(risk_code(a.risk)) + row_tail(a)),
{
    assert(item_snapshot_bytes(a) =~= row_head(a) + encode_utf8(action_code(a.action)) + (seq![0u8]
        + encode_utf8(risk_code(a.risk)) + row_tail(a)));
    assert(item_snapshot_bytes(a) =~= (row_head(a) + encode_utf8(action_code(a.action)) + seq![0u8])
        + encode_utf8(risk_code(a.risk)) + row_tail(a));
    assert(item_snapshot_bytes(a) =~= Seq::<u8>::empty() + le_bytes(a.ordinal as nat, 8) + (
    encode_utf8(a.file.path@) + seq![0u8] + opt_utf8(opt_chars(a.target)) + seq![0u8] + encode_utf8(
        action_code(a.action),
    ) + seq![0u8] + encode_utf8(risk_code(a.risk)) + row_tail(a)));
}

proof fn lemma_items_differ_in_action(a: PlanItem, b: PlanItem)
    requires
        differ_only_in_action(a, b),
    ensures
        item_snapshot_bytes(a) != item_snapshot_bytes(b),
{
    broadcast use vstd::utf8::encode_utf8_decode_utf8;
    lemma_item_bytes_shape(a);
    lemma_item_bytes_shape(b);
    assert(row_head(a) == row_head(b));
    assert(row_tail(a) == row_tail(b));
    let xa = encode_utf8(action_code(a.action));
    let xb = encode_utf8(action_code(b.action));
    let q = seq![0u8] + encode_utf8(risk_code(a.risk)) + row_tail(a);
    if item_snapshot_bytes(a) == item_snapshot_bytes(b) {
        lemma_cancel(row_head(a), xa, xb, q);
        assert(decode_utf8(xa) == decode_utf8(xb));
        reveal_strlit("move");
        reveal_strlit("skip");
        assert(action_code(a.action)[0] != action_code(b.action)[0]);
    }
}

proof fn lemma_items_differ_in_risk(a: PlanItem, b: PlanItem)
    requires
        differ_only_in_risk(a, b),
    ensures
        item_snapshot_bytes(a) != item_snapshot_bytes(b),
{
    broadcast use vstd::utf8::encode_utf8_decode_utf8;
    lemma_item_bytes_shape(a);
    lemma_item_bytes_shape(b);
    assert(row_head(a) == row_head(b));
    assert(row_tail(a) == row_tail(b));
    let p = row_head(a) + encode_utf8(action_code(a.action)) + seq![0u8];
    let ra = encode_utf8(risk_code(a.risk));
    let rb = encode_utf8(risk_code(b.risk));
    if item_snapshot_bytes(a) == item_snapshot_bytes(b) {
        lemma_cancel(p, ra, rb, row_tail(a));
        assert(decode_utf8(ra) == decode_utf8(rb));
        lemma_risk_codes_differ(a.risk, b.risk);
    }
}

proof fn lemma_items_differ_in_ordinal(a: PlanItem, b: PlanItem)
    requires
        differ_only_in_ordinal(a, b),
    ensures
        item_snapshot_bytes(a) != item_snapshot_bytes(b),
{
    lemma_item_bytes_shape(a);
    lemma_item_bytes_shape(b);
    assert(row_tail(a) == row_tail(b));
    let rest = encode_utf8(a.file.path@) + seq![0u8] + opt_utf8(opt_chars(a.target)) + seq![0u8]
        + encode_utf8(action_code(a.action)) + seq![0u8] + encode_utf8(risk_code(a.risk)) + row_tail(a);
    let la = le_bytes(a.ordinal as nat, 8);
    let lb = le_bytes(b.ordinal as nat, 8);
    if item_snapshot_bytes(a) == item_snapshot_bytes(b) {
        lemma_cancel(Seq::<u8>::empty(), la, lb, rest);
        lemma_u64_below_pow8(a.ordinal);
        lemma_u64_below_pow8(b.ordinal);
        lemma_le_bytes_injective(a.ordinal as nat, b.ordinal as nat, 8);
    }
}

proof fn lemma_items_differ(a: PlanItem, b: PlanItem)
    requires
        differ_only_in_action(a, b) || differ_only_in_risk(a, b) || differ_only_in_ordinal(a, b),
    ensures
        item_snapshot_bytes(a) != item_snapshot_bytes(b),
{
    if differ_only_in_action(a, b) {
        lemma_items_differ_in_action(a, b);
    } else if differ_only_in_risk(a, b) {
        lemma_items_differ_in_risk(a, b);
    } else {
        lemma_items_differ_in_ordinal(a, b);
    }
}

/// The snapshot covers each item's ordinal, action and risk: two plans that differ only in
/// the ordinal, the action or the risk of one item have different snapshot bytes (and so,
/// short of a SHA-256 collision, different snapshot hashes).
pub proof fn law_snapshot_covers_action_and_risk(a: Seq<PlanItem>, b: Seq<PlanItem>, k: int)
    requires
        a.len() == b.len(),
        0 <= k < a.len(),
        forall|i: int| 0 <= i < a.len() && i != k ==> same_authorization(#[trigger] a[i], b[i]),
        differ_only_in_action(a[k], b[k]) || differ_only_in_risk(a[k], b[k])
            || differ_only_in_ordinal(a[k], b[k]),
    ensures
        snapshot_bytes(a) != snapshot_bytes(b),
{
    lemma_snapshot_bytes_split(a, k);
    lemma_snapshot_bytes_split(b, k);
    assert forall|i: int| 0 <= i < a.take(k).len() implies same_authorization(
        #[trigger] a.take(k)[i],
        b.take(k)[i],
    ) by {
        assert(same_authorization(a[i], b[i]));
    }
    lemma_same_bytes(a.take(k), b.take(k));
    assert forall|i: int| k + 1 <= i < a.len() implies same_authorization(#[trigger] a[i], b[i]) by {
        assert(i != k);
    }
    lemma_same_bytes_from(a, b, k + 1);
    lemma_items_differ(a[k], b[k]);
    if snapshot_bytes(a) == snapshot_bytes(b) {
        lemma_cancel(
            snapshot_bytes(a.take(k)),
            item_snapshot_bytes(a[k]),
            item_snapshot_bytes(b[k]),
            snapshot_bytes_from(a, k + 1),
        );
    }
}

} // verus!
