//! The byte format of stored values. A value is written as a sequence of
//! fields; each field is one kind byte followed by its payload: a big-endian
//! integer, a flag, a small tag, or length-prefixed UTF-8 text. Decoding is
//! proved to invert encoding.

use vstd::prelude::*;
use vstd::slice::slice_subrange;
use vstd::string::*;
use vstd::utf8::*;

verus! {

/// The eight bytes of `x`, most significant first.
pub open spec fn be_bytes(x: u64) -> Seq<u8> {
    seq![
        ((x >> 56) & 0xff) as u8,
        ((x >> 48) & 0xff) as u8,
        ((x >> 40) & 0xff) as u8,
        ((x >> 32) & 0xff) as u8,
        ((x >> 24) & 0xff) as u8,
        ((x >> 16) & 0xff) as u8,
        ((x >> 8) & 0xff) as u8,
        (x & 0xff) as u8,
    ]
}

/// The number whose big-endian bytes are the first eight bytes of `b`.
pub open spec fn be_value(b: Seq<u8>) -> u64 {
    ((b[0] as u64) << 56) | ((b[1] as u64) << 48) | ((b[2] as u64) << 40) | ((b[3] as u64) << 32)
        | ((b[4] as u64) << 24) | ((b[5] as u64) << 16) | ((b[6] as u64) << 8) | (b[7] as u64)
}

/// Two's-complement big-endian bytes of a signed timestamp.
pub open spec fn be_bytes_i64(x: i64) -> Seq<u8> {
    be_bytes(x as u64)
}

/// The signed number stored in the first eight bytes of `b`.
pub open spec fn be_value_i64(b: Seq<u8>) -> i64 {
    be_value(b) as i64
}

/// A number is read back from its eight bytes.
pub proof fn lemma_be_round_trip(x: u64)
    ensures
        be_bytes(x).len() == 8,
        be_value(be_bytes(x)) == x,
{
    let b0 = ((x >> 56) & 0xff) as u8;
    let b1 = ((x >> 48) & 0xff) as u8;
    let b2 = ((x >> 40) & 0xff) as u8;
    let b3 = ((x >> 32) & 0xff) as u8;
    let b4 = ((x >> 24) & 0xff) as u8;
    let b5 = ((x >> 16) & 0xff) as u8;
    let b6 = ((x >> 8) & 0xff) as u8;
    let b7 = (x & 0xff) as u8;
    assert(((b0 as u64) << 56) | ((b1 as u64) << 48) | ((b2 as u64) << 40) | ((b3 as u64) << 32) | (
    (b4 as u64) << 24) | ((b5 as u64) << 16) | ((b6 as u64) << 8) | (b7 as u64) == x) by (bit_vector)
        requires
            b0 == ((x >> 56) & 0xff) as u8,
            b1 == ((x >> 48) & 0xff) as u8,
            b2 == ((x >> 40) & 0xff) as u8,
            b3 == ((x >> 32) & 0xff) as u8,
            b4 == ((x >> 24) & 0xff) as u8,
            b5 == ((x >> 16) & 0xff) as u8,
            b6 == ((x >> 8) & 0xff) as u8,
            b7 == (x & 0xff) as u8,
    ;
}

/// A signed number is read back from its eight bytes.
pub proof fn lemma_be_round_trip_i64(x: i64)
    ensures
        be_bytes_i64(x).len() == 8,
        be_value_i64(be_bytes_i64(x)) == x,
{
    lemma_be_round_trip(x as u64);
    assert((x as u64) as i64 == x) by (bit_vector);
}

/// Appends the big-endian bytes of `x`.
pub fn put_u64(out: &mut Vec<u8>, x: u64)
    ensures
        final(out)@ == old(out)@ + be_bytes(x),
{
    out.push(((x >> 56) & 0xff) as u8);
    out.push(((x >> 48) & 0xff) as u8);
    out.push(((x >> 40) & 0xff) as u8);
    out.push(((x >> 32) & 0xff) as u8);
    out.push(((x >> 24) & 0xff) as u8);
    out.push(((x >> 16) & 0xff) as u8);
    out.push(((x >> 8) & 0xff) as u8);
    out.push((x & 0xff) as u8);
    assert(out@ =~= old(out)@ + be_bytes(x));
}

/// Appends the two's-complement big-endian bytes of `x`.
pub fn put_i64(out: &mut Vec<u8>, x: i64)
    ensures
        final(out)@ == old(out)@ + be_bytes_i64(x),
{
    put_u64(out, x as u64);
}

/// Reads the big-endian number held in `b[at .. at + 8]`.
pub fn get_u64(b: &[u8], at: usize) -> (x: u64)
    requires
        at + 8 <= b@.len(),
    ensures
        x == be_value(b@.subrange(at as int, at + 8)),
{
    let x = ((b[at] as u64) << 56) | ((b[at + 1] as u64) << 48) | ((b[at + 2] as u64) << 40) | ((b[at
        + 3] as u64) << 32) | ((b[at + 4] as u64) << 24) | ((b[at + 5] as u64) << 16) | ((b[at
        + 6] as u64) << 8) | (b[at + 7] as u64);
    x
}

/// Reads the signed big-endian number held in `b[at .. at + 8]`.
pub fn get_i64(b: &[u8], at: usize) -> (x: i64)
    requires
        at + 8 <= b@.len(),
    ensures
        x == be_value_i64(b@.subrange(at as int, at + 8)),
{
    get_u64(b, at) as i64
}

/// One field of a stored value.
#[derive(Debug)]
pub enum Field {
    /// A signed number, such as a timestamp in milliseconds.
    Int(i64),
    /// An unsigned number, such as a length.
    Count(u64),
    /// A truth value.
    Flag(bool),
    /// The number of a variant.
    Tag(u8),
    /// A piece of text.
    Text(String),
}

/// The mathematical content of a field.
pub enum FieldView {
    Int(i64),
    Count(u64),
    Flag(bool),
    Tag(u8),
    Text(Seq<char>),
}

impl View for Field {
    type V = FieldView;

    open spec fn view(&self) -> FieldView {
        match self {
            Field::Int(x) => FieldView::Int(*x),
            Field::Count(x) => FieldView::Count(*x),
            Field::Flag(x) => FieldView::Flag(*x),
            Field::Tag(x) => FieldView::Tag(*x),
            Field::Text(s) => FieldView::Text(s@),
        }
    }
}

/// The contents of a list of fields.
pub open spec fn view_all(fs: Seq<Field>) -> Seq<FieldView> {
    Seq::new(fs.len(), |i: int| fs[i]@)
}

/// The UTF-8 length of the text can be written in eight bytes.
pub open spec fn text_fits(s: Seq<char>) -> bool {
    encode_utf8(s).len() <= u64::MAX
}

/// A text field is short enough to be written; other fields always are.
pub open spec fn field_fits(f: FieldView) -> bool {
    f matches FieldView::Text(s) ==> text_fits(s)
}

/// Every text among the fields is short enough to be written.
pub open spec fn fields_fit(fs: Seq<FieldView>) -> bool {
    forall|i: int| 0 <= i < fs.len() ==> field_fits(#[trigger] fs[i])
}

/// The bytes of one field: its kind, then its payload.
pub open spec fn enc_field(f: FieldView) -> Seq<u8> {
    match f {
        FieldView::Int(x) => seq![1u8] + be_bytes_i64(x),
        FieldView::Count(x) => seq![2u8] + be_bytes(x),
        FieldView::Flag(x) => seq![3u8, if x {
            1u8
        } else {
            0u8
        }],
        FieldView::Tag(x) => seq![4u8, x],
        FieldView::Text(s) => seq![5u8] + be_bytes(encode_utf8(s).len() as u64) + encode_utf8(s),
    }
}

/// The bytes of a list of fields: the fields one after another.
pub open spec fn enc_fields(fs: Seq<FieldView>) -> Seq<u8>
    decreases fs.len(),
{
    if fs.len() == 0 {
        Seq::empty()
    } else {
        enc_field(fs[0]) + enc_fields(fs.drop_first())
    }
}

/// The field that starts at `at`, with the position behind it; `None` where
/// the bytes there are no well-formed field.
pub open spec fn dec_field(b: Seq<u8>, at: int) -> Option<(FieldView, int)> {
    if !(0 <= at < b.len()) {
        None
    } else if b[at] == 1 {
        if at + 9 <= b.len() {
            Some((FieldView::Int(be_value_i64(b.subrange(at + 1, at + 9))), at + 9))
        } else {
            None
        }
    } else if b[at] == 2 {
        if at + 9 <= b.len() {
            Some((FieldView::Count(be_value(b.subrange(at + 1, at + 9))), at + 9))
        } else {
            None
        }
    } else if b[at] == 3 {
        if at + 2 <= b.len() && b[at + 1] <= 1 {
            Some((FieldView::Flag(b[at + 1] == 1), at + 2))
        } else {
            None
        }
    } else if b[at] == 4 {
        if at + 2 <= b.len() {
            Some((FieldView::Tag(b[at + 1]), at + 2))
        } else {
            None
        }
    } else if b[at] == 5 {
        if at + 9 <= b.len() {
            let n = be_value(b.subrange(at + 1, at + 9)) as int;
            if at + 9 + n <= b.len() && valid_utf8(b.subrange(at + 9, at + 9 + n)) {
                Some((FieldView::Text(decode_utf8(b.subrange(at + 9, at + 9 + n))), at + 9 + n))
            } else {
                None
            }
        } else {
            None
        }
    } else {
        None
    }
}

/// The fields that fill `b` from `at` to its end exactly; `None` where the
/// bytes do not split into well-formed fields.
pub open spec fn dec_fields(b: Seq<u8>, at: int) -> Option<Seq<FieldView>>
    decreases b.len() - at,
{
    if at == b.len() {
        Some(Seq::empty())
    } else {
        match dec_field(b, at) {
            Some((f, next)) => if at < next <= b.len() {
                match dec_fields(b, next) {
                    Some(rest) => Some(seq![f] + rest),
                    None => None,
                }
            } else {
                None
            },
            None => None,
        }
    }
}

/// A field read back from where it was written is the field that was written.
pub proof fn lemma_field_round_trip(b: Seq<u8>, at: int, f: FieldView)
    requires
        field_fits(f),
        0 <= at,
        at + enc_field(f).len() <= b.len(),
        b.subrange(at, at + enc_field(f).len()) == enc_field(f),
    ensures
        dec_field(b, at) == Some((f, at + enc_field(f).len())),
        enc_field(f).len() >= 2,
{
    let e = enc_field(f);
    assert(b[at] == e[0]) by {
        assert(e.len() >= 1) by {
            match f {
                FieldView::Int(x) => {
                    lemma_be_round_trip_i64(x);
                },
                FieldView::Count(x) => {
                    lemma_be_round_trip(x);
                },
                _ => {},
            }
        }
        assert(b.subrange(at, at + e.len())[0] == b[at]);
    }
    match f {
        FieldView::Int(x) => {
            lemma_be_round_trip_i64(x);
            assert(b.subrange(at + 1, at + 9) =~= be_bytes_i64(x)) by {
                assert forall|i: int| 0 <= i < 8 implies b[at + 1 + i] == be_bytes_i64(x)[i] by {
                    assert(b.subrange(at, at + e.len())[i + 1] == e[i + 1]);
                }
            }
        },
        FieldView::Count(x) => {
            lemma_be_round_trip(x);
            assert(b.subrange(at + 1, at + 9) =~= be_bytes(x)) by {
                assert forall|i: int| 0 <= i < 8 implies b[at + 1 + i] == be_bytes(x)[i] by {
                    assert(b.subrange(at, at + e.len())[i + 1] == e[i + 1]);
                }
            }
        },
        FieldView::Flag(x) => {
            assert(b.subrange(at, at + e.len())[1] == b[at + 1]);
        },
        FieldView::Tag(x) => {
            assert(b.subrange(at, at + e.len())[1] == b[at + 1]);
        },
        FieldView::Text(s) => {
            let u = encode_utf8(s);
            let n = u.len() as u64;
            lemma_be_round_trip(n);
            assert(b.subrange(at + 1, at + 9) =~= be_bytes(n)) by {
                assert forall|i: int| 0 <= i < 8 implies b[at + 1 + i] == be_bytes(n)[i] by {
                    assert(b.subrange(at, at + e.len())[i + 1] == e[i + 1]);
                }
            }
            assert(b.subrange(at + 9, at + 9 + n) =~= u) by {
                assert forall|i: int| 0 <= i < u.len() implies b[at + 9 + i] == u[i] by {
                    assert(b.subrange(at, at + e.len())[i + 9] == e[i + 9]);
                }
            }
            encode_utf8_valid_utf8(s);
            encode_utf8_decode_utf8(s);
        },
    }
}

/// A list of fields read back from its bytes is the list that was written.
pub proof fn lemma_fields_round_trip_at(b: Seq<u8>, at: int, fs: Seq<FieldView>)
    requires
        fields_fit(fs),
        0 <= at <= b.len(),
        b.subrange(at, b.len() as int) == enc_fields(fs),
    ensures
        dec_fields(b, at) == Some(fs),
    decreases fs.len(),
{
    if fs.len() == 0 {
        assert(b.subrange(at, b.len() as int).len() == 0);
        assert(dec_fields(b, at).unwrap() =~= fs);
    } else {
        let head = enc_field(fs[0]);
        let tail = enc_fields(fs.drop_first());
        assert(b.subrange(at, b.len() as int).len() == b.len() - at);
        assert(enc_fields(fs) =~= head + tail);
        assert(b.len() - at == head.len() + tail.len());
        assert(b.subrange(at, at + head.len()) =~= head) by {
            assert forall|i: int| 0 <= i < head.len() implies b[at + i] == head[i] by {
                assert(b.subrange(at, b.len() as int)[i] == (head + tail)[i]);
            }
        }
        lemma_field_round_trip(b, at, fs[0]);
        let next = at + head.len();
        assert(b.subrange(next, b.len() as int) =~= tail) by {
            assert forall|i: int| 0 <= i < tail.len() implies b[next + i] == tail[i] by {
                assert(b.subrange(at, b.len() as int)[head.len() + i] == (head + tail)[head.len()
                    + i]);
            }
        }
        assert(fields_fit(fs.drop_first())) by {
            assert forall|i: int| 0 <= i < fs.drop_first().len() implies field_fits(
                #[trigger] fs.drop_first()[i],
            ) by {
                assert(fs.drop_first()[i] == fs[i + 1]);
            }
        }
        lemma_fields_round_trip_at(b, next, fs.drop_first());
        assert(seq![fs[0]] + fs.drop_first() =~= fs);
    }
}

/// Decoding inverts encoding.
pub proof fn lemma_fields_round_trip(fs: Seq<FieldView>)
    requires
        fields_fit(fs),
    ensures
        dec_fields(enc_fields(fs), 0) == Some(fs),
{
    let b = enc_fields(fs);
    assert(b.subrange(0, b.len() as int) =~= b);
    lemma_fields_round_trip_at(b, 0, fs);
}

/// Whatever decodes can be encoded again: its texts are short enough.
pub proof fn lemma_decoded_fields_fit(b: Seq<u8>, at: int)
    ensures
        dec_fields(b, at) matches Some(fs) ==> fields_fit(fs),
    decreases b.len() - at,
{
    if at == b.len() {
    } else {
        match dec_field(b, at) {
            Some((f, next)) => {
                if at < next <= b.len() {
                    lemma_decoded_fields_fit(b, next);
                    match dec_fields(b, next) {
                        Some(rest) => {
                            if let FieldView::Text(s) = f {
                                let n = be_value(b.subrange(at + 1, at + 9)) as int;
                                decode_utf8_encode_utf8(b.subrange(at + 9, at + 9 + n));
                            }
                            let fs = seq![f] + rest;
                            assert forall|i: int| 0 <= i < fs.len() implies field_fits(
                                #[trigger] fs[i],
                            ) by {
                                if i > 0 {
                                    assert(fs[i] == rest[i - 1]);
                                }
                            }
                        },
                        None => {},
                    }
                }
            },
            None => {},
        }
    }
}

/// Encoding a list with one more field appends the bytes of that field.
pub proof fn lemma_enc_fields_push(fs: Seq<FieldView>, f: FieldView)
    ensures
        enc_fields(fs.push(f)) == enc_fields(fs) + enc_field(f),
    decreases fs.len(),
{
    if fs.len() == 0 {
        assert(fs.push(f).drop_first() =~= Seq::<FieldView>::empty());
        assert(fs.push(f)[0] == f);
        assert(enc_fields(Seq::<FieldView>::empty()) =~= Seq::<u8>::empty());
        assert(enc_fields(fs) =~= Seq::<u8>::empty());
        assert(enc_fields(fs.push(f)) =~= enc_field(f) + enc_fields(fs.push(f).drop_first()));
        assert(enc_fields(fs.push(f)) =~= enc_fields(fs) + enc_field(f));
    } else {
        assert(fs.push(f).drop_first() =~= fs.drop_first().push(f));
        lemma_enc_fields_push(fs.drop_first(), f);
        assert(enc_fields(fs.push(f)) =~= enc_fields(fs) + enc_field(f));
    }
}

/// Decodes bytes as UTF-8 text.
///
/// Trusted: calls `String::from_utf8`, which the standard library documents
/// as succeeding exactly on well-formed UTF-8 and then giving the string with
/// those bytes.
#[verifier::external_body]
pub(crate) fn text_of_bytes(b: &[u8]) -> (r: Option<String>)
    ensures
        r is Some <==> valid_utf8(b@),
        r matches Some(s) ==> s@ == decode_utf8(b@),
{
    String::from_utf8(b.to_vec()).ok()
}

fn append_bytes(out: &mut Vec<u8>, b: &[u8])
    ensures
        final(out)@ == old(out)@ + b@,
{
    let mut i: usize = 0;
    while i < b.len()
        invariant
            i <= b@.len(),
            out@ == old(out)@ + b@.subrange(0, i as int),
        decreases b@.len() - i,
    {
        out.push(b[i]);
        i += 1;
        assert(out@ =~= old(out)@ + b@.subrange(0, i as int));
    }
    assert(b@.subrange(0, i as int) =~= b@);
}

/// Appends the bytes of one field.
pub fn put_field(out: &mut Vec<u8>, f: &Field)
    ensures
        final(out)@ == old(out)@ + enc_field(f@),
        field_fits(f@),
{
    match f {
        Field::Int(x) => {
            out.push(1u8);
            put_i64(out, *x);
        },
        Field::Count(x) => {
            out.push(2u8);
            put_u64(out, *x);
        },
        Field::Flag(x) => {
            out.push(3u8);
            out.push(if *x {
                1u8
            } else {
                0u8
            });
        },
        Field::Tag(x) => {
            out.push(4u8);
            out.push(*x);
        },
        Field::Text(s) => {
            let bytes = s.as_str().as_bytes();
            out.push(5u8);
            put_u64(out, bytes.len() as u64);
            append_bytes(out, bytes);
        },
    }
    assert(out@ =~= old(out)@ + enc_field(f@));
}

/// The bytes of a list of fields.
pub fn encode_fields(fs: &Vec<Field>) -> (out: Vec<u8>)
    ensures
        out@ == enc_fields(view_all(fs@)),
        fields_fit(view_all(fs@)),
{
    let mut out: Vec<u8> = Vec::new();
    let mut i: usize = 0;
    while i < fs.len()
        invariant
            i <= fs@.len(),
            out@ == enc_fields(view_all(fs@.subrange(0, i as int))),
            fields_fit(view_all(fs@.subrange(0, i as int))),
        decreases fs@.len() - i,
    {
        put_field(&mut out, &fs[i]);
        proof {
            let before = view_all(fs@.subrange(0, i as int));
            let after = view_all(fs@.subrange(0, i + 1));
            assert(after =~= before.push(fs@[i as int]@));
            lemma_enc_fields_push(before, fs@[i as int]@);
        }
        i += 1;
    }
    assert(fs@.subrange(0, i as int) =~= fs@);
    out
}

/// Reads the field that starts at `at`.
pub fn get_field(b: &[u8], at: usize) -> (r: Option<(Field, usize)>)
    ensures
        match r {
            Some((f, next)) => dec_field(b@, at as int) == Some((f@, next as int)),
            None => dec_field(b@, at as int) is None,
        },
{
    if at >= b.len() {
        return None;
    }
    let kind = b[at];
    let room: usize = b.len() - at;
    if kind == 1 {
        if room >= 9 {
            Some((Field::Int(get_i64(b, at + 1)), at + 9))
        } else {
            None
        }
    } else if kind == 2 {
        if room >= 9 {
            Some((Field::Count(get_u64(b, at + 1)), at + 9))
        } else {
            None
        }
    } else if kind == 3 {
        if room >= 2 && b[at + 1] <= 1 {
            Some((Field::Flag(b[at + 1] == 1), at + 2))
        } else {
            None
        }
    } else if kind == 4 {
        if room >= 2 {
            Some((Field::Tag(b[at + 1]), at + 2))
        } else {
            None
        }
    } else if kind == 5 {
        if room >= 9 {
            let n: u64 = get_u64(b, at + 1);
            if n <= (room - 9) as u64 {
                let from: usize = at + 9;
                let to: usize = from + n as usize;
                match text_of_bytes(slice_subrange(b, from, to)) {
                    Some(s) => Some((Field::Text(s), to)),
                    None => None,
                }
            } else {
                None
            }
        } else {
            None
        }
    } else {
        None
    }
}

/// Splits bytes into the fields they hold.
pub fn decode_fields(b: &[u8]) -> (r: Option<Vec<Field>>)
    ensures
        match r {
            Some(fs) => dec_fields(b@, 0) == Some(view_all(fs@)),
            None => dec_fields(b@, 0) is None,
        },
{
    let mut fs: Vec<Field> = Vec::new();
    let mut at: usize = 0;
    assert(view_all(fs@) =~= Seq::<FieldView>::empty());
    while at < b.len()
        invariant
            at <= b@.len(),
            dec_fields(b@, 0) == match dec_fields(b@, at as int) {
                Some(rest) => Some(view_all(fs@) + rest),
                None => None,
            },
        decreases b@.len() - at,
    {
        match get_field(b, at) {
            Some((f, next)) => {
                if next <= at || next > b.len() {
                    return None;
                }
                proof {
                    let before = view_all(fs@);
                    let after = view_all(fs@.push(f));
                    assert(after =~= before.push(f@));
                    match dec_fields(b@, next as int) {
                        Some(rest) => {
                            assert(before + (seq![f@] + rest) =~= after + rest);
                        },
                        None => {},
                    }
                }
                fs.push(f);
                at = next;
            },
            None => {
                return None;
            },
        }
    }
    assert(dec_fields(b@, at as int).unwrap() =~= Seq::<FieldView>::empty());
    assert(view_all(fs@) + Seq::<FieldView>::empty() =~= view_all(fs@));
    Some(fs)
}

} // verus!
