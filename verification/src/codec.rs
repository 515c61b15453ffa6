//! Envelope codec: between typed envelopes and wire text.
//!
//! The wire form is one compact JSON-shaped object per envelope,
//! fields in any order, each at most once:
//!
//! ```text
//! {"messageType":"users"|"register"|"message",
//!  "data":string|null, "dataArray":[string,...]|null}
//! ```
//!
//! `users` requires a populated `dataArray` and no populated `data`;
//! `register` and `message` the reverse. The encoder always writes the
//! field order `messageType`, `data`, `dataArray` and both payload
//! fields, the unpopulated one as `null`. The decoder also accepts a
//! missing unpopulated field. A `message` envelope's `data` string
//! itself carries a nested record `{"from":string,"message":string}`,
//! decoded separately by [`decode_message_record`].
//!
//! Decoding is pure and total: ill-formed text is reported as a
//! [`DecodeError`], never a panic.

use vstd::prelude::*;
use crate::json::{
    quoted, parse_string, parse_null, parse_str_array, parse_items, bytes_pos_matches,
    items_pos_matches, pos_matches, append_quoted, scan_string, scan_null, scan_str_array,
};
use crate::text::{ascii, lit, bytes_eq, QUOTE, LBRACE, RBRACE, LBRACKET, RBRACKET, COLON, COMMA};
use crate::protocol::{Envelope, EnvelopeView, MessageData, MessageDataView, DecodeError};

verus! {

/// The `messageType` field key.
pub open spec fn key_message_type() -> Seq<u8> {
    ascii("messageType"@)
}

/// The `data` field key.
pub open spec fn key_data() -> Seq<u8> {
    ascii("data"@)
}

/// The `dataArray` field key.
pub open spec fn key_data_array() -> Seq<u8> {
    ascii("dataArray"@)
}

/// The `from` field key of the nested record.
pub open spec fn key_from() -> Seq<u8> {
    ascii("from"@)
}

/// The `message` field key of the nested record, also the `message`
/// kind tag.
pub open spec fn key_message() -> Seq<u8> {
    ascii("message"@)
}

/// The `users` kind tag.
pub open spec fn kind_users() -> Seq<u8> {
    ascii("users"@)
}

/// The `register` kind tag.
pub open spec fn kind_register() -> Seq<u8> {
    ascii("register"@)
}

/// A single-string field that is absent or null.
pub open spec fn str_field_unpopulated(d: Option<Option<Seq<u8>>>) -> bool {
    match d {
        None => true,
        Some(None) => true,
        Some(Some(_)) => false,
    }
}

/// An array field that is absent or null.
pub open spec fn arr_field_unpopulated(a: Option<Option<Seq<Seq<u8>>>>) -> bool {
    match a {
        None => true,
        Some(None) => true,
        Some(Some(_)) => false,
    }
}

/// Reads one envelope member's value at `j`, given its key `k` and the
/// fields read so far. A key already seen, or not in the schema, fails.
pub open spec fn parse_env_member_value(
    s: Seq<u8>,
    j: int,
    k: Seq<u8>,
    mt: Option<Seq<u8>>,
    d: Option<Option<Seq<u8>>>,
    a: Option<Option<Seq<Seq<u8>>>>,
    fuel: nat,
) -> Option<(Option<Seq<u8>>, Option<Option<Seq<u8>>>, Option<Option<Seq<Seq<u8>>>>, int)> {
    if k == key_message_type() && mt is None {
        match parse_string(s, j) {
            Some((v, j2)) => Some((Some(v), d, a, j2)),
            None => None,
        }
    } else if k == key_data() && d is None {
        match parse_string(s, j) {
            Some((v, j2)) => Some((mt, Some(Some(v)), a, j2)),
            None => match parse_null(s, j) {
                Some(j2) => Some((mt, Some(None), a, j2)),
                None => None,
            },
        }
    } else if k == key_data_array() && a is None {
        match parse_str_array(s, j, fuel) {
            Some((vs, j2)) => Some((mt, d, Some(Some(vs)), j2)),
            None => match parse_null(s, j) {
                Some(j2) => Some((mt, d, Some(None), j2)),
                None => None,
            },
        }
    } else {
        None
    }
}

/// Reads envelope members from `i` (just past `{` or a `,`) through the
/// closing brace: the three fields and the position after the brace.
pub open spec fn parse_env_members(
    s: Seq<u8>,
    i: int,
    mt: Option<Seq<u8>>,
    d: Option<Option<Seq<u8>>>,
    a: Option<Option<Seq<Seq<u8>>>>,
    fuel: nat,
) -> Option<(Option<Seq<u8>>, Option<Option<Seq<u8>>>, Option<Option<Seq<Seq<u8>>>>, int)>
    decreases fuel,
{
    if fuel == 0 {
        None
    } else {
        match parse_string(s, i) {
            None => None,
            Some((k, j)) => {
                if 0 <= j && j < s.len() && s[j] == COLON {
                    match parse_env_member_value(s, j + 1, k, mt, d, a, fuel) {
                        None => None,
                        Some((mt2, d2, a2, j2)) => {
                            if 0 <= j2 && j2 < s.len() && s[j2] == COMMA {
                                parse_env_members(s, j2 + 1, mt2, d2, a2, (fuel - 1) as nat)
                            } else if 0 <= j2 && j2 < s.len() && s[j2] == RBRACE {
                                Some((mt2, d2, a2, j2 + 1))
                            } else {
                                None
                            }
                        },
                    }
                } else {
                    None
                }
            },
        }
    }
}

/// Reads a whole envelope object: its fields, and how much was read.
pub open spec fn parse_envelope_fields(s: Seq<u8>) -> Option<
    (Option<Seq<u8>>, Option<Option<Seq<u8>>>, Option<Option<Seq<Seq<u8>>>>, int),
> {
    if s.len() >= 2 && s[0] == LBRACE && s[1] == RBRACE {
        Some((None, None, None, 2))
    } else if s.len() >= 1 && s[0] == LBRACE {
        parse_env_members(s, 1, None, None, None, s.len() as nat)
    } else {
        None
    }
}

/// The envelope named by a read field set, if the fields fit the
/// schema: a known kind, its payload field populated, the other not.
pub open spec fn envelope_from_fields(
    mt: Option<Seq<u8>>,
    d: Option<Option<Seq<u8>>>,
    a: Option<Option<Seq<Seq<u8>>>>,
) -> Option<EnvelopeView> {
    match mt {
        None => None,
        Some(k) => {
            if k == kind_users() {
                match a {
                    Some(Some(items)) => if str_field_unpopulated(d) {
                        Some(EnvelopeView::Users(items))
                    } else {
                        None
                    },
                    _ => None,
                }
            } else if k == kind_register() {
                match d {
                    Some(Some(v)) => if arr_field_unpopulated(a) {
                        Some(EnvelopeView::Register(v))
                    } else {
                        None
                    },
                    _ => None,
                }
            } else if k == key_message() {
                match d {
                    Some(Some(v)) => if arr_field_unpopulated(a) {
                        Some(EnvelopeView::Message(v))
                    } else {
                        None
                    },
                    _ => None,
                }
            } else {
                None
            }
        },
    }
}

/// What decoding an envelope returns, for every input text.
pub open spec fn decode_envelope_spec(s: Seq<u8>) -> Result<EnvelopeView, DecodeError> {
    match parse_envelope_fields(s) {
        None => Err(DecodeError::Syntax),
        Some((mt, d, a, j)) => {
            if j != s.len() {
                Err(DecodeError::Syntax)
            } else {
                match envelope_from_fields(mt, d, a) {
                    None => Err(DecodeError::Schema),
                    Some(e) => Ok(e),
                }
            }
        },
    }
}

/// Reads nested-record members from `i` through the closing brace.
pub open spec fn parse_rec_members(
    s: Seq<u8>,
    i: int,
    from: Option<Seq<u8>>,
    body: Option<Seq<u8>>,
    fuel: nat,
) -> Option<(Option<Seq<u8>>, Option<Seq<u8>>, int)>
    decreases fuel,
{
    if fuel == 0 {
        None
    } else {
        match parse_string(s, i) {
            None => None,
            Some((k, j)) => {
                if 0 <= j && j < s.len() && s[j] == COLON {
                    let upd = if k == key_from() && from is None {
                        match parse_string(s, j + 1) {
                            Some((v, j2)) => Some((Some(v), body, j2)),
                            None => None,
                        }
                    } else if k == key_message() && body is None {
                        match parse_string(s, j + 1) {
                            Some((v, j2)) => Some((from, Some(v), j2)),
                            None => None,
                        }
                    } else {
                        None
                    };
                    match upd {
                        None => None,
                        Some((f2, b2, j2)) => {
                            if 0 <= j2 && j2 < s.len() && s[j2] == COMMA {
                                parse_rec_members(s, j2 + 1, f2, b2, (fuel - 1) as nat)
                            } else if 0 <= j2 && j2 < s.len() && s[j2] == RBRACE {
                                Some((f2, b2, j2 + 1))
                            } else {
                                None
                            }
                        },
                    }
                } else {
                    None
                }
            },
        }
    }
}

/// Reads a whole nested-record object.
pub open spec fn parse_record_fields(s: Seq<u8>) -> Option<(Option<Seq<u8>>, Option<Seq<u8>>, int)> {
    if s.len() >= 2 && s[0] == LBRACE && s[1] == RBRACE {
        Some((None, None, 2))
    } else if s.len() >= 1 && s[0] == LBRACE {
        parse_rec_members(s, 1, None, None, s.len() as nat)
    } else {
        None
    }
}

/// What decoding a nested record returns, for every input text.
pub open spec fn decode_record_spec(s: Seq<u8>) -> Result<MessageDataView, DecodeError> {
    match parse_record_fields(s) {
        None => Err(DecodeError::Syntax),
        Some((f, b, j)) => {
            if j != s.len() {
                Err(DecodeError::Syntax)
            } else {
                match (f, b) {
                    (Some(from), Some(body)) => Ok(MessageDataView { from, message: body }),
                    _ => Err(DecodeError::Schema),
                }
            }
        },
    }
}

/// The wire form of an array's items, comma-separated.
pub open spec fn encode_items(items: Seq<Seq<u8>>) -> Seq<u8>
    decreases items.len(),
{
    if items.len() == 0 {
        seq![]
    } else if items.len() == 1 {
        quoted(items[0])
    } else {
        quoted(items[0]) + seq![COMMA] + encode_items(items.drop_first())
    }
}

/// The wire form of a whole string array.
pub open spec fn encode_array(items: Seq<Seq<u8>>) -> Seq<u8> {
    seq![LBRACKET] + encode_items(items) + seq![RBRACKET]
}

/// What encoding an envelope produces, for every envelope: field order
/// `messageType`, `data`, `dataArray`, the unpopulated payload `null`.
pub open spec fn encode_envelope_spec(e: EnvelopeView) -> Seq<u8> {
    match e {
        EnvelopeView::Users(items) => ascii("{\"messageType\":\"users\",\"data\":null,\"dataArray\":"@)
            + encode_array(items) + ascii("}"@),
        EnvelopeView::Register(d) => ascii("{\"messageType\":\"register\",\"data\":"@) + quoted(d)
            + ascii(",\"dataArray\":null}"@),
        EnvelopeView::Message(d) => ascii("{\"messageType\":\"message\",\"data\":"@) + quoted(d)
            + ascii(",\"dataArray\":null}"@),
    }
}

/// Item encoding distributes over appending one item.
pub proof fn lemma_encode_items_snoc(items: Seq<Seq<u8>>, x: Seq<u8>)
    ensures
        encode_items(items.push(x)) == if items.len() == 0 {
            quoted(x)
        } else {
            encode_items(items) + seq![COMMA] + quoted(x)
        },
    decreases items.len(),
{
    if items.len() == 0 {
        assert(items.push(x)[0] == x);
        assert(encode_items(items.push(x)) == quoted(x));
    } else {
        assert(items.push(x).drop_first() =~= items.drop_first().push(x));
        lemma_encode_items_snoc(items.drop_first(), x);
        if items.len() == 1 {
            assert(encode_items(items.push(x)) =~= encode_items(items) + seq![COMMA] + quoted(x));
        } else {
            assert(encode_items(items.push(x)) =~= encode_items(items) + seq![COMMA] + quoted(x));
        }
    }
}

/// Law: written array items scan back — text that continues, at `i`,
/// with the written items and the closing bracket reads as exactly
/// those items, for any fuel at least the item count.
#[verifier::rlimit(60)]
pub proof fn lemma_scan_items_of_encoded(
    t: Seq<u8>,
    i: int,
    items: Seq<Seq<u8>>,
    rest: Seq<u8>,
    fuel: nat,
)
    requires
        0 <= i <= t.len(),
        items.len() >= 1,
        fuel >= items.len(),
        t.skip(i) == encode_items(items) + seq![RBRACKET] + rest,
    ensures
        parse_items(t, i, fuel) == Some((items, i + encode_items(items).len() + 1)),
    decreases items.len(),
{
    broadcast use vstd::seq_lib::group_seq_properties;

    assert(t.skip(i).len() == t.len() - i);
    let q = quoted(items[0]);
    if items.len() == 1 {
        assert(t.skip(i) == q + (seq![RBRACKET] + rest)) by {
            assert(q + (seq![RBRACKET] + rest) =~= encode_items(items) + seq![RBRACKET] + rest);
        }
        crate::json::lemma_scan_of_quoted(t, i, items[0], seq![RBRACKET] + rest);
        let j = i + q.len() as int;
        assert(t[j] == t.skip(i)[q.len() as int]);
        assert(t[j] == RBRACKET);
        assert(seq![items[0]] =~= items);
    } else {
        let tail = seq![COMMA] + encode_items(items.drop_first()) + seq![RBRACKET] + rest;
        assert(t.skip(i) == q + tail) by {
            assert(q + tail =~= encode_items(items) + seq![RBRACKET] + rest);
        }
        crate::json::lemma_scan_of_quoted(t, i, items[0], tail);
        let j = i + q.len() as int;
        assert(t[j] == t.skip(i)[q.len() as int]);
        assert(t[j] == COMMA);
        assert(t.skip(j + 1) =~= encode_items(items.drop_first()) + seq![RBRACKET] + rest) by {
            assert forall|m: int| 0 <= m < t.len() - (j + 1) implies t.skip(j + 1)[m] == (
            encode_items(items.drop_first()) + seq![RBRACKET] + rest)[m] by {
                assert(t.skip(j + 1)[m] == t.skip(i)[(j + 1 - i) + m]);
            }
        }
        lemma_scan_items_of_encoded(t, j + 1, items.drop_first(), rest, (fuel - 1) as nat);
        assert(seq![items[0]] + items.drop_first() =~= items);
    }
}

/// Law: a written string array scans back whole — the wire form of
/// `items`, followed by anything, reads as exactly `items`.
pub proof fn lemma_scan_array_of_encoded(
    t: Seq<u8>,
    i: int,
    items: Seq<Seq<u8>>,
    rest: Seq<u8>,
    fuel: nat,
)
    requires
        0 <= i <= t.len(),
        fuel >= items.len(),
        t.skip(i) == encode_array(items) + rest,
    ensures
        parse_str_array(t, i, fuel) == Some((items, i + encode_array(items).len() as int)),
{
    broadcast use vstd::seq_lib::group_seq_properties;

    assert(t.skip(i).len() == t.len() - i);
    assert(t[i] == t.skip(i)[0]);
    assert(t[i] == LBRACKET);
    if items.len() == 0 {
        assert(encode_items(items) == Seq::<u8>::empty());
        assert(t[i + 1] == t.skip(i)[1]);
        assert(t[i + 1] == RBRACKET);
        assert(items =~= Seq::<Seq<u8>>::empty());
    } else {
        assert(t[i + 1] == t.skip(i)[1]);
        assert(t[i + 1] == quoted(items[0])[0]);
        assert(t[i + 1] == QUOTE);
        assert(t.skip(i + 1) =~= encode_items(items) + seq![RBRACKET] + rest) by {
            assert forall|m: int| 0 <= m < t.len() - (i + 1) implies t.skip(i + 1)[m] == (
            encode_items(items) + seq![RBRACKET] + rest)[m] by {
                assert(t.skip(i + 1)[m] == t.skip(i)[1 + m]);
            }
        }
        lemma_scan_items_of_encoded(t, i + 1, items, rest, fuel);
    }
}

/// Appends the wire form of a string array.
pub fn append_array(out: &mut Vec<u8>, items: &Vec<Vec<u8>>)
    ensures
        final(out)@ == old(out)@ + encode_array(items.deep_view()),
{
    out.push(LBRACKET);
    let ghost base = out@;
    let mut i: usize = 0;
    while i < items.len()
        invariant
            i <= items.len(),
            out@ == base + encode_items(items.deep_view().take(i as int)),
            base == old(out)@ + seq![LBRACKET],
        decreases items.len() - i,
    {
        if i > 0 {
            out.push(COMMA);
        }
        append_quoted(out, &items[i]);
        proof {
            lemma_encode_items_snoc(
                items.deep_view().take(i as int),
                items.deep_view()[i as int],
            );
            assert(items.deep_view().take(i as int).push(items.deep_view()[i as int])
                =~= items.deep_view().take(i as int + 1));
            assert(items[i as int]@ == items.deep_view()[i as int]);
            assert(out@ =~= base + encode_items(items.deep_view().take(i as int + 1)));
        }
        i += 1;
    }
    proof {
        assert(items.deep_view().take(items.len() as int) =~= items.deep_view());
    }
    out.push(RBRACKET);
    proof {
        assert(out@ =~= old(out)@ + encode_array(items.deep_view()));
    }
}

/// Encodes an envelope to wire text. Pure and total; never fails.
pub fn encode_envelope(e: &Envelope) -> (r: Vec<u8>)
    ensures
        r@ == encode_envelope_spec(e@),
{
    let mut out: Vec<u8> = Vec::new();
    match e {
        Envelope::Users(items) => {
            let mut p = lit("{\"messageType\":\"users\",\"data\":null,\"dataArray\":");
            out.append(&mut p);
            append_array(&mut out, items);
            let mut q = lit("}");
            out.append(&mut q);
            proof {
                assert(out@ =~= encode_envelope_spec(e@));
            }
        },
        Envelope::Register(d) => {
            let mut p = lit("{\"messageType\":\"register\",\"data\":");
            out.append(&mut p);
            append_quoted(&mut out, d);
            let mut q = lit(",\"dataArray\":null}");
            out.append(&mut q);
            proof {
                assert(out@ =~= encode_envelope_spec(e@));
            }
        },
        Envelope::Message(d) => {
            let mut p = lit("{\"messageType\":\"message\",\"data\":");
            out.append(&mut p);
            append_quoted(&mut out, d);
            let mut q = lit(",\"dataArray\":null}");
            out.append(&mut q);
            proof {
                assert(out@ =~= encode_envelope_spec(e@));
            }
        },
    }
    out
}

/// Spec value of an optional string field as scanned.
pub open spec fn opt_bytes_view(o: Option<Vec<u8>>) -> Option<Seq<u8>> {
    match o {
        Some(v) => Some(v@),
        None => None,
    }
}

/// Spec value of a present-or-null string field as scanned.
pub open spec fn optopt_bytes_view(o: Option<Option<Vec<u8>>>) -> Option<Option<Seq<u8>>> {
    match o {
        Some(Some(v)) => Some(Some(v@)),
        Some(None) => Some(None),
        None => None,
    }
}

/// Spec value of a present-or-null array field as scanned.
pub open spec fn optopt_items_view(o: Option<Option<Vec<Vec<u8>>>>) -> Option<
    Option<Seq<Seq<u8>>>,
> {
    match o {
        Some(Some(v)) => Some(Some(v.deep_view())),
        Some(None) => Some(None),
        None => None,
    }
}

/// An executable field scan agrees with the spec read.
pub open spec fn fields_pos_matches(
    r: Option<(Option<Vec<u8>>, Option<Option<Vec<u8>>>, Option<Option<Vec<Vec<u8>>>>, usize)>,
    m: Option<(Option<Seq<u8>>, Option<Option<Seq<u8>>>, Option<Option<Seq<Seq<u8>>>>, int)>,
) -> bool {
    match (r, m) {
        (Some(p), Some(q)) => opt_bytes_view(p.0) == q.0 && optopt_bytes_view(p.1) == q.1
            && optopt_items_view(p.2) == q.2 && p.3 as int == q.3,
        (None, None) => true,
        _ => false,
    }
}

/// Scans one envelope member's value.
fn scan_env_member_value(
    v: &Vec<u8>,
    j: usize,
    k: &Vec<u8>,
    mt: Option<Vec<u8>>,
    d: Option<Option<Vec<u8>>>,
    a: Option<Option<Vec<Vec<u8>>>>,
    fuel: usize,
) -> (r: Option<(Option<Vec<u8>>, Option<Option<Vec<u8>>>, Option<Option<Vec<Vec<u8>>>>, usize)>)
    ensures
        fields_pos_matches(
            r,
            parse_env_member_value(
                v@,
                j as int,
                k@,
                opt_bytes_view(mt),
                optopt_bytes_view(d),
                optopt_items_view(a),
                fuel as nat,
            ),
        ),
{
    let key_mt = lit("messageType");
    let key_d = lit("data");
    let key_a = lit("dataArray");
    if bytes_eq(k, &key_mt) && mt.is_none() {
        match scan_string(v, j) {
            Some((s, j2)) => Some((Some(s), d, a, j2)),
            None => None,
        }
    } else if bytes_eq(k, &key_d) && d.is_none() {
        match scan_string(v, j) {
            Some((s, j2)) => Some((mt, Some(Some(s)), a, j2)),
            None => match scan_null(v, j) {
                Some(j2) => Some((mt, Some(None), a, j2)),
                None => None,
            },
        }
    } else if bytes_eq(k, &key_a) && a.is_none() {
        match scan_str_array(v, j, fuel) {
            Some((items, j2)) => Some((mt, d, Some(Some(items)), j2)),
            None => match scan_null(v, j) {
                Some(j2) => Some((mt, d, Some(None), j2)),
                None => None,
            },
        }
    } else {
        None
    }
}

/// Scans envelope members through the closing brace.
fn scan_env_members(
    v: &Vec<u8>,
    i: usize,
    mt: Option<Vec<u8>>,
    d: Option<Option<Vec<u8>>>,
    a: Option<Option<Vec<Vec<u8>>>>,
    fuel: usize,
) -> (r: Option<(Option<Vec<u8>>, Option<Option<Vec<u8>>>, Option<Option<Vec<Vec<u8>>>>, usize)>)
    ensures
        fields_pos_matches(
            r,
            parse_env_members(
                v@,
                i as int,
                opt_bytes_view(mt),
                optopt_bytes_view(d),
                optopt_items_view(a),
                fuel as nat,
            ),
        ),
    decreases fuel,
{
    if fuel == 0 {
        return None;
    }
    match scan_string(v, i) {
        None => None,
        Some((k, j)) => {
            if j < v.len() && v[j] == COLON {
                match scan_env_member_value(v, j + 1, &k, mt, d, a, fuel) {
                    None => None,
                    Some((mt2, d2, a2, j2)) => {
                        if j2 < v.len() && v[j2] == COMMA {
                            scan_env_members(v, j2 + 1, mt2, d2, a2, fuel - 1)
                        } else if j2 < v.len() && v[j2] == RBRACE {
                            Some((mt2, d2, a2, j2 + 1))
                        } else {
                            None
                        }
                    },
                }
            } else {
                None
            }
        },
    }
}

/// Builds the envelope a field set names, or reports why it cannot.
fn build_envelope(
    mt: Option<Vec<u8>>,
    d: Option<Option<Vec<u8>>>,
    a: Option<Option<Vec<Vec<u8>>>>,
) -> (r: Result<Envelope, DecodeError>)
    ensures
        match envelope_from_fields(opt_bytes_view(mt), optopt_bytes_view(d), optopt_items_view(a)) {
            Some(ev) => r is Ok && r.unwrap()@ == ev,
            None => r == Err::<Envelope, DecodeError>(DecodeError::Schema),
        },
{
    let k_users = lit("users");
    let k_register = lit("register");
    let k_message = lit("message");
    match mt {
        None => Err(DecodeError::Schema),
        Some(k) => {
            if bytes_eq(&k, &k_users) {
                let d_empty = match &d {
                    None => true,
                    Some(None) => true,
                    Some(Some(_)) => false,
                };
                match a {
                    Some(Some(items)) => {
                        if d_empty {
                            Ok(Envelope::Users(items))
                        } else {
                            Err(DecodeError::Schema)
                        }
                    },
                    _ => Err(DecodeError::Schema),
                }
            } else if bytes_eq(&k, &k_register) || bytes_eq(&k, &k_message) {
                let a_empty = match &a {
                    None => true,
                    Some(None) => true,
                    Some(Some(_)) => false,
                };
                match d {
                    Some(Some(value)) => {
                        if a_empty {
                            if bytes_eq(&k, &k_register) {
                                Ok(Envelope::Register(value))
                            } else {
                                Ok(Envelope::Message(value))
                            }
                        } else {
                            Err(DecodeError::Schema)
                        }
                    },
                    _ => Err(DecodeError::Schema),
                }
            } else {
                Err(DecodeError::Schema)
            }
        },
    }
}

/// Decodes wire text into an envelope. Pure; fails exactly on text the
/// schema rejects, with [`DecodeError::Syntax`] for ill-formed text and
/// [`DecodeError::Schema`] for a field set that makes no envelope.
pub fn decode_envelope(text: &Vec<u8>) -> (r: Result<Envelope, DecodeError>)
    ensures
        match (r, decode_envelope_spec(text@)) {
            (Ok(e), Ok(ev)) => e@ == ev,
            (Err(x), Err(y)) => x == y,
            _ => false,
        },
{
    if text.len() >= 2 && text[0] == LBRACE && text[1] == RBRACE {
        if text.len() == 2 {
            Err(DecodeError::Schema)
        } else {
            Err(DecodeError::Syntax)
        }
    } else if text.len() >= 1 && text[0] == LBRACE {
        match scan_env_members(text, 1, None, None, None, text.len()) {
            None => Err(DecodeError::Syntax),
            Some((mt, d, a, j)) => {
                if j != text.len() {
                    Err(DecodeError::Syntax)
                } else {
                    build_envelope(mt, d, a)
                }
            },
        }
    } else {
        Err(DecodeError::Syntax)
    }
}

/// An executable record scan agrees with the spec read.
pub open spec fn rec_fields_pos_matches(
    r: Option<(Option<Vec<u8>>, Option<Vec<u8>>, usize)>,
    m: Option<(Option<Seq<u8>>, Option<Seq<u8>>, int)>,
) -> bool {
    match (r, m) {
        (Some(p), Some(q)) => opt_bytes_view(p.0) == q.0 && opt_bytes_view(p.1) == q.1 && p.2
            as int == q.2,
        (None, None) => true,
        _ => false,
    }
}

/// Scans nested-record members through the closing brace.
fn scan_rec_members(
    v: &Vec<u8>,
    i: usize,
    from: Option<Vec<u8>>,
    body: Option<Vec<u8>>,
    fuel: usize,
) -> (r: Option<(Option<Vec<u8>>, Option<Vec<u8>>, usize)>)
    ensures
        rec_fields_pos_matches(
            r,
            parse_rec_members(v@, i as int, opt_bytes_view(from), opt_bytes_view(body), fuel as nat),
        ),
    decreases fuel,
{
    if fuel == 0 {
        return None;
    }
    let key_f = lit("from");
    let key_m = lit("message");
    match scan_string(v, i) {
        None => None,
        Some((k, j)) => {
            if j < v.len() && v[j] == COLON {
                let upd: Option<(Option<Vec<u8>>, Option<Vec<u8>>, usize)> = if bytes_eq(
                    &k,
                    &key_f,
                ) && from.is_none() {
                    match scan_string(v, j + 1) {
                        Some((s, j2)) => Some((Some(s), body, j2)),
                        None => None,
                    }
                } else if bytes_eq(&k, &key_m) && body.is_none() {
                    match scan_string(v, j + 1) {
                        Some((s, j2)) => Some((from, Some(s), j2)),
                        None => None,
                    }
                } else {
                    None
                };
                match upd {
                    None => None,
                    Some((f2, b2, j2)) => {
                        if j2 < v.len() && v[j2] == COMMA {
                            scan_rec_members(v, j2 + 1, f2, b2, fuel - 1)
                        } else if j2 < v.len() && v[j2] == RBRACE {
                            Some((f2, b2, j2 + 1))
                        } else {
                            None
                        }
                    },
                }
            } else {
                None
            }
        },
    }
}

/// Decodes the nested record a `message` envelope's string carries.
pub fn decode_message_record(text: &Vec<u8>) -> (r: Result<MessageData, DecodeError>)
    ensures
        match (r, decode_record_spec(text@)) {
            (Ok(m), Ok(mv)) => m@ == mv,
            (Err(x), Err(y)) => x == y,
            _ => false,
        },
{
    if text.len() >= 2 && text[0] == LBRACE && text[1] == RBRACE {
        if text.len() == 2 {
            Err(DecodeError::Schema)
        } else {
            Err(DecodeError::Syntax)
        }
    } else if text.len() >= 1 && text[0] == LBRACE {
        match scan_rec_members(text, 1, None, None, text.len()) {
            None => Err(DecodeError::Syntax),
            Some((f, b, j)) => {
                if j != text.len() {
                    Err(DecodeError::Syntax)
                } else {
                    match (f, b) {
                        (Some(from), Some(body)) => Ok(MessageData { from, message: body }),
                        _ => Err(DecodeError::Schema),
                    }
                }
            },
        }
    } else {
        Err(DecodeError::Syntax)
    }
}

} // verus!
