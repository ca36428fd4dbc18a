//! Content hashes.
//!
//! A [`Blake3`] is the 32-byte BLAKE3 digest of some content; it is the key
//! under which content is stored and found again. Its text form is lowercase
//! hexadecimal, two digits per byte.
use vstd::prelude::*;

use crate::text::push_char;

verus! {

broadcast use vstd::string::group_string_axioms;

/// The BLAKE3 digest of `data`, as computed by the `blake3` crate.
pub uninterp spec fn blake3_digest(data: Seq<u8>) -> Seq<u8>;

/// Hashes `data` with `blake3::hash`.
///
/// The contract names the digest `blake3_digest(data)`; the `blake3`
/// documentation gives its size, `OUT_LEN`, which is 32 bytes, and the type of
/// `Hash::as_bytes` is an array of that size.
#[verifier::external_body]
fn blake3_hash(data: &[u8]) -> (r: [u8; 32])
    ensures
        r@ == blake3_digest(data@),
{
    *blake3::hash(data).as_bytes()
}

/// A BLAKE3 content hash.
#[derive(Clone, Copy, PartialEq, Eq, Hash, Debug)]
pub struct Blake3(pub [u8; 32]);

impl View for Blake3 {
    type V = Seq<u8>;

    open spec fn view(&self) -> Seq<u8> {
        self.0@
    }
}

/// The lowercase hexadecimal digit for `n < 16`.
pub open spec fn hex_digit(n: int) -> char {
    if n < 10 {
        (n + 48) as char
    } else {
        (n - 10 + 97) as char
    }
}

/// The lowercase hexadecimal text of `bytes`, two digits per byte, the high
/// half first.
pub open spec fn hex_of(bytes: Seq<u8>) -> Seq<char>
    decreases bytes.len(),
{
    if bytes.len() == 0 {
        seq![]
    } else {
        hex_of(bytes.drop_last()) + seq![
            hex_digit(bytes.last() as int / 16),
            hex_digit(bytes.last() as int % 16),
        ]
    }
}

/// Hexadecimal text has two characters per byte.
pub proof fn lemma_hex_len(bytes: Seq<u8>)
    ensures
        hex_of(bytes).len() == 2 * bytes.len(),
    decreases bytes.len(),
{
    if bytes.len() > 0 {
        lemma_hex_len(bytes.drop_last());
    }
}

fn hex_char(n: u8) -> (c: char)
    requires
        n < 16,
    ensures
        c == hex_digit(n as int),
{
    if n < 10 {
        (n + 48) as char
    } else {
        (n - 10 + 97) as char
    }
}

impl Blake3 {
    /// The hash of `data`.
    pub fn from_buffer(data: &[u8]) -> (r: Blake3)
        ensures
            r@ == blake3_digest(data@),
    {
        Blake3(blake3_hash(data))
    }

    /// The hash of `fields`, in order, each preceded by its length as eight
    /// little-endian bytes (see [`encode_fields`]): different lists of fields
    /// are hashed from different inputs.
    pub fn from_fields(fields: &[&[u8]]) -> (r: Blake3)
        ensures
            r@ == blake3_digest(encode_fields(fields_view(fields@))),
            forall|other: Seq<Seq<u8>>|
                fields_fit(other) && #[trigger] encode_fields(other) == encode_fields(fields_view(fields@))
                    ==> other == fields_view(fields@),
    {
        let ghost fv = fields_view(fields@);
        let mut data: Vec<u8> = Vec::new();
        let mut i: usize = 0;
        assert(fv.take(0) =~= Seq::<Seq<u8>>::empty());
        while i < fields.len()
            invariant
                fv == fields_view(fields@),
                i <= fields@.len(),
                data@ == encode_fields(fv.take(i as int)),
            decreases fields.len() - i,
        {
            let field: &[u8] = fields[i];
            let n = field.len() as u64;
            data.push(n as u8);
            data.push((n >> 8u64) as u8);
            data.push((n >> 16u64) as u8);
            data.push((n >> 24u64) as u8);
            data.push((n >> 32u64) as u8);
            data.push((n >> 40u64) as u8);
            data.push((n >> 48u64) as u8);
            data.push((n >> 56u64) as u8);
            let ghost head = data@;
            assert(head =~= encode_fields(fv.take(i as int)) + length_prefix(n));
            let mut j: usize = 0;
            while j < field.len()
                invariant
                    i < fields@.len(),
                    field@ == fields@[i as int]@,
                    j <= field@.len(),
                    data@ == head + field@.subrange(0, j as int),
                decreases field.len() - j,
            {
                data.push(field[j]);
                j = j + 1;
                assert(data@ =~= head + field@.subrange(0, j as int));
            }
            proof {
                assert(field@.subrange(0, field@.len() as int) =~= field@);
                assert(fv[i as int] == field@);
                lemma_encode_fields_push(fv.take(i as int), field@);
                assert(fv.take(i as int).push(field@) =~= fv.take(i + 1));
            }
            i = i + 1;
        }
        proof {
            assert(fv.take(fields@.len() as int) =~= fv);
            assert(fields_fit(fv)) by {
                assert forall|k: int| 0 <= k < fv.len() implies #[trigger] fv[k].len() <= u64::MAX by {
                    let f: &[u8] = fields@[k];
                    assert(fv[k] == f@);
                    assert(vstd::slice::spec_slice_len(f) == f@.len());
                }
            }
            assert forall|other: Seq<Seq<u8>>|
                fields_fit(other) && #[trigger] encode_fields(other) == encode_fields(fv) implies other == fv by {
                lemma_encode_fields_injective(other, fv);
            }
        }
        Blake3::from_buffer(data.as_slice())
    }

    /// The lowercase hexadecimal text of the hash.
    pub fn to_hex(&self) -> (r: String)
        ensures
            r@ == hex_of(self@),
            r@.len() == 64,
    {
        let mut r = String::new();
        let mut i: usize = 0;
        while i < 32
            invariant
                i <= 32,
                self@.len() == 32,
                r@ == hex_of(self@.subrange(0, i as int)),
            decreases 32 - i,
        {
            let b = self.0[i];
            push_char(&mut r, hex_char(b / 16));
            push_char(&mut r, hex_char(b % 16));
            proof {
                let next = self@.subrange(0, i + 1);
                assert(next.drop_last() =~= self@.subrange(0, i as int));
                assert(next.last() == b);
                assert(r@ =~= hex_of(next));
            }
            i = i + 1;
        }
        proof {
            assert(self@.subrange(0, 32) =~= self@);
            lemma_hex_len(self@);
        }
        r
    }
}

/// The byte strings of a list of byte slices.
pub open spec fn fields_view(fields: Seq<&[u8]>) -> Seq<Seq<u8>> {
    fields.map_values(|f: &[u8]| f@)
}

/// Whether every field's length fits in 64 bits (as the length of a slice
/// always does).
pub open spec fn fields_fit(fields: Seq<Seq<u8>>) -> bool {
    forall|i: int| 0 <= i < fields.len() ==> #[trigger] fields[i].len() <= u64::MAX
}

/// `n` as eight little-endian bytes.
pub open spec fn length_prefix(n: u64) -> Seq<u8> {
    seq![
        n as u8,
        (n >> 8u64) as u8,
        (n >> 16u64) as u8,
        (n >> 24u64) as u8,
        (n >> 32u64) as u8,
        (n >> 40u64) as u8,
        (n >> 48u64) as u8,
        (n >> 56u64) as u8,
    ]
}

/// The input hashed for a list of fields: each field preceded by its length
/// as eight little-endian bytes, one after the other.
pub open spec fn encode_fields(fields: Seq<Seq<u8>>) -> Seq<u8>
    decreases fields.len(),
{
    if fields.len() == 0 {
        seq![]
    } else {
        length_prefix(fields[0].len() as u64) + fields[0] + encode_fields(fields.drop_first())
    }
}

/// Encoding one more field appends its length and its bytes.
proof fn lemma_encode_fields_push(fields: Seq<Seq<u8>>, f: Seq<u8>)
    ensures
        encode_fields(fields.push(f)) == encode_fields(fields) + length_prefix(f.len() as u64) + f,
    decreases fields.len(),
{
    if fields.len() == 0 {
        assert(fields.push(f).drop_first() =~= Seq::<Seq<u8>>::empty());
        assert(encode_fields(fields.push(f).drop_first()) =~= Seq::<u8>::empty());
        assert(fields.push(f)[0] == f);
        assert(encode_fields(fields) =~= Seq::<u8>::empty());
        assert(encode_fields(fields.push(f)) =~= length_prefix(f.len() as u64) + f);
    } else {
        lemma_encode_fields_push(fields.drop_first(), f);
        assert(fields.push(f).drop_first() =~= fields.drop_first().push(f));
        assert(fields.push(f)[0] == fields[0]);
        assert(encode_fields(fields.push(f)) =~= encode_fields(fields) + length_prefix(f.len() as u64) + f);
    }
}

/// Two lengths with the same eight bytes are equal.
proof fn lemma_length_prefix_injective(x: u64, y: u64)
    requires
        length_prefix(x) == length_prefix(y),
    ensures
        x == y,
{
    assert(length_prefix(x)[0] == length_prefix(y)[0]);
    assert(length_prefix(x)[1] == length_prefix(y)[1]);
    assert(length_prefix(x)[2] == length_prefix(y)[2]);
    assert(length_prefix(x)[3] == length_prefix(y)[3]);
    assert(length_prefix(x)[4] == length_prefix(y)[4]);
    assert(length_prefix(x)[5] == length_prefix(y)[5]);
    assert(length_prefix(x)[6] == length_prefix(y)[6]);
    assert(length_prefix(x)[7] == length_prefix(y)[7]);
    assert(x == y) by (bit_vector)
        requires
            x as u8 == y as u8,
            (x >> 8u64) as u8 == (y >> 8u64) as u8,
            (x >> 16u64) as u8 == (y >> 16u64) as u8,
            (x >> 24u64) as u8 == (y >> 24u64) as u8,
            (x >> 32u64) as u8 == (y >> 32u64) as u8,
            (x >> 40u64) as u8 == (y >> 40u64) as u8,
            (x >> 48u64) as u8 == (y >> 48u64) as u8,
            (x >> 56u64) as u8 == (y >> 56u64) as u8,
    ;
}

/// Different lists of fields are encoded differently: the encoding of a
/// list determines the list.
pub proof fn lemma_encode_fields_injective(a: Seq<Seq<u8>>, b: Seq<Seq<u8>>)
    requires
        fields_fit(a),
        fields_fit(b),
        encode_fields(a) == encode_fields(b),
    ensures
        a == b,
    decreases a.len(),
{
    if a.len() == 0 {
        if b.len() > 0 {
            assert(encode_fields(b).len() >= 8);
        }
        assert(a =~= b);
    } else {
        if b.len() == 0 {
            assert(encode_fields(a).len() >= 8);
        }
        let e = encode_fields(a);
        let la = a[0].len() as u64;
        let lb = b[0].len() as u64;
        assert(e.subrange(0, 8) =~= length_prefix(la));
        assert(encode_fields(b).subrange(0, 8) =~= length_prefix(lb));
        lemma_length_prefix_injective(la, lb);
        assert(a[0].len() <= u64::MAX);
        assert(b[0].len() <= u64::MAX);
        assert(a[0].len() == b[0].len());
        let n = a[0].len() as int;
        assert(e.subrange(8, 8 + n) =~= a[0]);
        assert(encode_fields(b).subrange(8, 8 + n) =~= b[0]);
        assert(e.subrange(8 + n, e.len() as int) =~= encode_fields(a.drop_first()));
        assert(encode_fields(b).subrange(8 + n, e.len() as int) =~= encode_fields(b.drop_first()));
        assert(fields_fit(a.drop_first())) by {
            assert forall|i: int| 0 <= i < a.drop_first().len() implies #[trigger] a.drop_first()[i].len()
                <= u64::MAX by {
                assert(a.drop_first()[i] == a[i + 1]);
            }
        }
        assert(fields_fit(b.drop_first())) by {
            assert forall|i: int| 0 <= i < b.drop_first().len() implies #[trigger] b.drop_first()[i].len()
                <= u64::MAX by {
                assert(b.drop_first()[i] == b[i + 1]);
            }
        }
        lemma_encode_fields_injective(a.drop_first(), b.drop_first());
        assert(a =~= seq![a[0]] + a.drop_first());
        assert(b =~= seq![b[0]] + b.drop_first());
    }
}

} // verus!
