//! The persisted byte encoding of a tensor.
//!
//! The layout is little-endian throughout: a 32-bit rank, one 32-bit word per
//! dimension size, then one 32-bit word per element in row-major order.  The
//! element count is implied by the remaining length, never stored.  Decoding
//! rejects input shorter than its header implies, and never reads out of
//! bounds.

use std::sync::Arc;

use vstd::arithmetic::div_mod::lemma_fundamental_div_mod_converse;
use vstd::prelude::*;

use crate::backend::Backend;
use crate::shape::shape_product;
use crate::tensor::{Tensor, TensorError};

verus! {

/// The four little-endian bytes of a 32-bit word.
pub open spec fn le_bytes(x: u32) -> Seq<u8> {
    seq![
        (x & 0xff) as u8,
        ((x >> 8) & 0xff) as u8,
        ((x >> 16) & 0xff) as u8,
        ((x >> 24) & 0xff) as u8,
    ]
}

/// The 32-bit word four little-endian bytes encode.
pub open spec fn le_word(b0: u8, b1: u8, b2: u8, b3: u8) -> u32 {
    (b0 as u32) | ((b1 as u32) << 8) | ((b2 as u32) << 16) | ((b3 as u32) << 24)
}

/// Reading back the four bytes of a word yields the word.
proof fn lemma_le_word_of_bytes(x: u32)
    ensures
        le_word(
            (x & 0xff) as u8,
            ((x >> 8) & 0xff) as u8,
            ((x >> 16) & 0xff) as u8,
            ((x >> 24) & 0xff) as u8,
        ) == x,
{
    assert(((x & 0xff) as u8 as u32) | (((x >> 8) & 0xff) as u8 as u32) << 8 | (((x >> 16)
        & 0xff) as u8 as u32) << 16 | (((x >> 24) & 0xff) as u8 as u32) << 24 == x)
        by (bit_vector);
}

/// The words of a buffer laid out one after the other, four bytes each.
pub open spec fn words_to_bytes(ws: Seq<u32>) -> Seq<u8>
    decreases ws.len(),
{
    if ws.len() == 0 {
        Seq::empty()
    } else {
        words_to_bytes(ws.drop_last()) + le_bytes(ws.last())
    }
}

/// A word buffer lays out four bytes per word.
proof fn lemma_words_to_bytes_len(ws: Seq<u32>)
    ensures
        words_to_bytes(ws).len() == 4 * ws.len(),
    decreases ws.len(),
{
    if ws.len() > 0 {
        lemma_words_to_bytes_len(ws.drop_last());
    }
}

/// Byte `r` of word `i` sits at position `4 * i + r` of the laid-out buffer.
proof fn lemma_words_to_bytes_index(ws: Seq<u32>, i: int, r: int)
    requires
        0 <= i < ws.len(),
        0 <= r < 4,
    ensures
        words_to_bytes(ws)[4 * i + r] == le_bytes(ws[i])[r],
    decreases ws.len(),
{
    lemma_words_to_bytes_len(ws.drop_last());
    if i == ws.len() - 1 {
    } else {
        lemma_words_to_bytes_index(ws.drop_last(), i, r);
    }
}

/// The dimension sizes of a shape as encoded 32-bit words.
pub open spec fn dims_as_words(shape: Seq<usize>) -> Seq<u32> {
    Seq::new(shape.len(), |i: int| shape[i] as u32)
}

/// The full encoded form of a tensor with the given shape and buffer.
pub open spec fn serialized_bytes(shape: Seq<usize>, data: Seq<u32>) -> Seq<u8> {
    le_bytes(shape.len() as u32) + words_to_bytes(dims_as_words(shape)) + words_to_bytes(data)
}

/// Appends the four little-endian bytes of a word.
fn push_word_le(bytes: &mut Vec<u8>, x: u32)
    ensures
        final(bytes)@ == old(bytes)@ + le_bytes(x),
{
    bytes.push((x & 0xff) as u8);
    bytes.push(((x >> 8) & 0xff) as u8);
    bytes.push(((x >> 16) & 0xff) as u8);
    bytes.push(((x >> 24) & 0xff) as u8);
    proof {
        assert(bytes@ =~= old(bytes)@ + le_bytes(x));
    }
}

/// Reads the little-endian word at a byte offset.
fn read_word_le(bytes: &[u8], offset: usize) -> (r: u32)
    requires
        offset + 4 <= bytes@.len(),
    ensures
        r == le_word(
            bytes@[offset as int],
            bytes@[offset as int + 1],
            bytes@[offset as int + 2],
            bytes@[offset as int + 3],
        ),
{
    (bytes[offset] as u32) | ((bytes[offset + 1] as u32) << 8) | ((bytes[offset + 2] as u32) << 16)
        | ((bytes[offset + 3] as u32) << 24)
}

impl<B: Backend> Tensor<B> {
    /// Encodes this tensor: rank, dimension sizes, then the element words,
    /// all as little-endian 32-bit values.  Rank and every dimension must
    /// fit the encoding's 32-bit fields.
    pub fn serialize(&self) -> (r: Vec<u8>)
        requires
            self.wf(),
            self.spec_shape().len() <= u32::MAX,
            forall|i: int|
                0 <= i < self.spec_shape().len() ==> #[trigger] self.spec_shape()[i] <= u32::MAX,
        ensures
            r@ == serialized_bytes(self.spec_shape(), self.spec_data()),
    {
        let shape = self.shape();
        let data = self.data();
        let ghost dims = dims_as_words(shape@);
        let mut bytes: Vec<u8> = Vec::new();
        push_word_le(&mut bytes, shape.len() as u32);
        let mut i: usize = 0;
        proof {
            assert(words_to_bytes(dims.subrange(0, 0)) =~= Seq::<u8>::empty());
            assert(bytes@ =~= le_bytes(shape@.len() as u32) + words_to_bytes(dims.subrange(0, 0)));
        }
        while i < shape.len()
            invariant
                shape@ == self.spec_shape(),
                dims == dims_as_words(shape@),
                forall|q: int| 0 <= q < shape@.len() ==> #[trigger] shape@[q] <= u32::MAX,
                0 <= i <= shape@.len(),
                bytes@ == le_bytes(shape@.len() as u32) + words_to_bytes(
                    dims.subrange(0, i as int),
                ),
            decreases shape@.len() - i,
        {
            push_word_le(&mut bytes, shape[i] as u32);
            proof {
                let prefix = dims.subrange(0, i as int + 1);
                assert(prefix.drop_last() =~= dims.subrange(0, i as int));
                assert(prefix.last() == dims[i as int]);
                assert(bytes@ =~= le_bytes(shape@.len() as u32) + words_to_bytes(prefix));
            }
            i += 1;
        }
        proof {
            assert(dims.subrange(0, shape@.len() as int) =~= dims);
        }
        let ghost header = bytes@;
        let mut p: usize = 0;
        proof {
            assert(words_to_bytes(data@.subrange(0, 0)) =~= Seq::<u8>::empty());
            assert(bytes@ =~= header + words_to_bytes(data@.subrange(0, 0)));
        }
        while p < data.len()
            invariant
                data@ == self.spec_data(),
                header == le_bytes(self.spec_shape().len() as u32) + words_to_bytes(
                    dims_as_words(self.spec_shape()),
                ),
                0 <= p <= data@.len(),
                bytes@ == header + words_to_bytes(data@.subrange(0, p as int)),
            decreases data@.len() - p,
        {
            push_word_le(&mut bytes, data[p]);
            proof {
                let prefix = data@.subrange(0, p as int + 1);
                assert(prefix.drop_last() =~= data@.subrange(0, p as int));
                assert(bytes@ =~= header + words_to_bytes(prefix));
            }
            p += 1;
        }
        proof {
            assert(data@.subrange(0, data@.len() as int) =~= data@);
            assert(bytes@ =~= serialized_bytes(self.spec_shape(), self.spec_data()));
        }
        bytes
    }

    /// Decodes a tensor from its byte encoding: input shorter than four
    /// bytes, or shorter than the rank implies, is rejected; the element
    /// count is whatever whole words remain, and the decoded shape must
    /// describe exactly that many elements.
    pub fn deserialize(bytes: &[u8], backend: Arc<B>) -> (r: Result<Tensor<B>, TensorError>)
        ensures
            ({
                let n = bytes@.len() as int;
                let rank = le_word(bytes@[0], bytes@[1], bytes@[2], bytes@[3]) as usize as int;
                let dims = Seq::new(
                    rank as nat,
                    |q: int|
                        le_word(
                            bytes@[4 + 4 * q],
                            bytes@[4 + 4 * q + 1],
                            bytes@[4 + 4 * q + 2],
                            bytes@[4 + 4 * q + 3],
                        ) as usize,
                );
                let count = (n - (4 + 4 * rank)) / 4;
                let words = Seq::new(
                    count as nat,
                    |q: int|
                        le_word(
                            bytes@[4 + 4 * rank + 4 * q],
                            bytes@[4 + 4 * rank + 4 * q + 1],
                            bytes@[4 + 4 * rank + 4 * q + 2],
                            bytes@[4 + 4 * rank + 4 * q + 3],
                        ),
                );
                &&& n < 4 ==> (r matches Err(TensorError::InvalidOperation { op, reason }) && op@
                    == "deserialize"@ && reason@ == "Invalid tensor data"@)
                &&& n >= 4 && 4 + 4 * rank > n ==> (r matches Err(
                    TensorError::InvalidOperation { op, reason },
                ) && op@ == "deserialize"@ && reason@ == "Invalid tensor data"@)
                &&& n >= 4 && 4 + 4 * rank <= n && shape_product(dims) == count ==> (r matches Ok(t)
                    && t.wf() && t.spec_shape() == dims && t.spec_data() == words
                    && t.spec_backend() == backend)
                &&& n >= 4 && 4 + 4 * rank <= n && shape_product(dims) != count ==> (r matches Err(
                    TensorError::InvalidDataLength { expected, got },
                ) && got == count && (shape_product(dims) <= usize::MAX ==> expected
                    == shape_product(dims)) && (shape_product(dims) > usize::MAX ==> expected
                    == usize::MAX))
            }),
    {
        let n = bytes.len();
        if n < 4 {
            return Err(TensorError::InvalidOperation {
                op: "deserialize",
                reason: "Invalid tensor data".to_owned(),
            });
        }
        let rank = read_word_le(bytes, 0) as usize;
        let mut shape: Vec<usize> = Vec::new();
        let mut cursor: usize = 4;
        let mut t: usize = 0;
        while t < rank
            invariant
                n == bytes@.len(),
                n >= 4,
                rank == le_word(bytes@[0], bytes@[1], bytes@[2], bytes@[3]) as usize,
                0 <= t <= rank,
                cursor == 4 + 4 * (t as int),
                cursor <= n,
                shape@.len() == t,
                forall|q: int|
                    0 <= q < t ==> #[trigger] shape@[q] == le_word(
                        bytes@[4 + 4 * q],
                        bytes@[4 + 4 * q + 1],
                        bytes@[4 + 4 * q + 2],
                        bytes@[4 + 4 * q + 3],
                    ) as usize,
            decreases rank - t,
        {
            if n - cursor < 4 {
                proof {
                    assert(4 + 4 * (rank as int) >= cursor + 4);
                    assert(4 + 4 * (rank as int) > n);
                }
                return Err(TensorError::InvalidOperation {
                    op: "deserialize",
                    reason: "Invalid tensor data".to_owned(),
                });
            }
            let w = read_word_le(bytes, cursor);
            shape.push(w as usize);
            cursor += 4;
            t += 1;
        }
        let ghost start = cursor as int;
        let mut data: Vec<u32> = Vec::new();
        while n - cursor >= 4
            invariant
                n == bytes@.len(),
                start == 4 + 4 * (rank as int),
                start <= cursor <= n,
                cursor == start + 4 * data@.len(),
                forall|q: int|
                    0 <= q < data@.len() ==> #[trigger] data@[q] == le_word(
                        bytes@[start + 4 * q],
                        bytes@[start + 4 * q + 1],
                        bytes@[start + 4 * q + 2],
                        bytes@[start + 4 * q + 3],
                    ),
            decreases n - cursor,
        {
            let w = read_word_le(bytes, cursor);
            data.push(w);
            cursor += 4;
        }
        proof {
            lemma_fundamental_div_mod_converse(
                n as int - start,
                4,
                data@.len() as int,
                n as int - cursor as int,
            );
            let spec_rank = le_word(bytes@[0], bytes@[1], bytes@[2], bytes@[3]) as usize as int;
            assert(spec_rank == rank as int);
            let dims = Seq::new(
                spec_rank as nat,
                |q: int|
                    le_word(
                        bytes@[4 + 4 * q],
                        bytes@[4 + 4 * q + 1],
                        bytes@[4 + 4 * q + 2],
                        bytes@[4 + 4 * q + 3],
                    ) as usize,
            );
            assert(shape@ =~= dims);
            let count = (n as int - (4 + 4 * spec_rank)) / 4;
            assert(count == data@.len());
            let words = Seq::new(
                count as nat,
                |q: int|
                    le_word(
                        bytes@[4 + 4 * spec_rank + 4 * q],
                        bytes@[4 + 4 * spec_rank + 4 * q + 1],
                        bytes@[4 + 4 * spec_rank + 4 * q + 2],
                        bytes@[4 + 4 * spec_rank + 4 * q + 3],
                    ),
            );
            assert(data@ =~= words);
        }
        Tensor::from_vec(data, shape.as_slice(), backend)
    }
}

/// Decoding an encoded tensor reproduces its shape and element words
/// exactly: the byte stream round-trips, word for word.
pub proof fn lemma_serialize_roundtrip(shape: Seq<usize>, data: Seq<u32>)
    requires
        shape.len() <= u32::MAX,
        forall|i: int| 0 <= i < shape.len() ==> #[trigger] shape[i] <= u32::MAX,
    ensures
        ({
            let bytes = serialized_bytes(shape, data);
            let n = bytes.len() as int;
            let rank = le_word(bytes[0], bytes[1], bytes[2], bytes[3]) as usize as int;
            let dims = Seq::new(
                rank as nat,
                |q: int|
                    le_word(
                        bytes[4 + 4 * q],
                        bytes[4 + 4 * q + 1],
                        bytes[4 + 4 * q + 2],
                        bytes[4 + 4 * q + 3],
                    ) as usize,
            );
            let count = (n - (4 + 4 * rank)) / 4;
            let words = Seq::new(
                count as nat,
                |q: int|
                    le_word(
                        bytes[4 + 4 * rank + 4 * q],
                        bytes[4 + 4 * rank + 4 * q + 1],
                        bytes[4 + 4 * rank + 4 * q + 2],
                        bytes[4 + 4 * rank + 4 * q + 3],
                    ),
            );
            &&& n >= 4
            &&& rank == shape.len()
            &&& 4 + 4 * rank <= n
            &&& dims == shape
            &&& count == data.len()
            &&& words == data
        }),
{
    let bytes = serialized_bytes(shape, data);
    let head = le_bytes(shape.len() as u32);
    let dim_bytes = words_to_bytes(dims_as_words(shape));
    let word_bytes = words_to_bytes(data);
    lemma_words_to_bytes_len(dims_as_words(shape));
    lemma_words_to_bytes_len(data);
    let n = bytes.len() as int;
    assert(n == 4 + 4 * shape.len() + 4 * data.len());
    assert forall|r: int| 0 <= r < 4 implies bytes[r] == head[r] by {}
    lemma_le_word_of_bytes(shape.len() as u32);
    assert(le_word(bytes[0], bytes[1], bytes[2], bytes[3]) == shape.len() as u32);
    let rank = le_word(bytes[0], bytes[1], bytes[2], bytes[3]) as usize as int;
    assert(rank == shape.len());
    let dims = Seq::new(
        rank as nat,
        |q: int|
            le_word(
                bytes[4 + 4 * q],
                bytes[4 + 4 * q + 1],
                bytes[4 + 4 * q + 2],
                bytes[4 + 4 * q + 3],
            ) as usize,
    );
    assert forall|q: int| 0 <= q < rank implies dims[q] == shape[q] by {
        lemma_words_to_bytes_index(dims_as_words(shape), q, 0);
        lemma_words_to_bytes_index(dims_as_words(shape), q, 1);
        lemma_words_to_bytes_index(dims_as_words(shape), q, 2);
        lemma_words_to_bytes_index(dims_as_words(shape), q, 3);
        assert(dims_as_words(shape)[q] == shape[q] as u32);
        assert(bytes[4 + 4 * q] == dim_bytes[4 * q]);
        assert(bytes[4 + 4 * q + 1] == dim_bytes[4 * q + 1]);
        assert(bytes[4 + 4 * q + 2] == dim_bytes[4 * q + 2]);
        assert(bytes[4 + 4 * q + 3] == dim_bytes[4 * q + 3]);
        lemma_le_word_of_bytes(shape[q] as u32);
    }
    assert(dims =~= shape);
    let count = (n - (4 + 4 * rank)) / 4;
    assert(n - (4 + 4 * rank) == 4 * data.len());
    assert(count == data.len()) by {
        lemma_fundamental_div_mod_converse(4 * data.len() as int, 4, data.len() as int, 0);
    }
    let words = Seq::new(
        count as nat,
        |q: int|
            le_word(
                bytes[4 + 4 * rank + 4 * q],
                bytes[4 + 4 * rank + 4 * q + 1],
                bytes[4 + 4 * rank + 4 * q + 2],
                bytes[4 + 4 * rank + 4 * q + 3],
            ),
    );
    assert forall|q: int| 0 <= q < count implies words[q] == data[q] by {
        lemma_words_to_bytes_index(data, q, 0);
        lemma_words_to_bytes_index(data, q, 1);
        lemma_words_to_bytes_index(data, q, 2);
        lemma_words_to_bytes_index(data, q, 3);
        assert(bytes[4 + 4 * rank + 4 * q] == word_bytes[4 * q]);
        assert(bytes[4 + 4 * rank + 4 * q + 1] == word_bytes[4 * q + 1]);
        assert(bytes[4 + 4 * rank + 4 * q + 2] == word_bytes[4 * q + 2]);
        assert(bytes[4 + 4 * rank + 4 * q + 3] == word_bytes[4 * q + 3]);
        lemma_le_word_of_bytes(data[q]);
    }
    assert(words =~= data);
}

} // verus!
