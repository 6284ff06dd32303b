//! The byte format in which compiled modules are kept.
//!
//! Every value is written as the bytes of its parts, one after the other:
//!
//! - an integer of 8, 32 or 64 bits as its bytes, least significant first;
//!   a signed 64-bit integer as the unsigned integer that is 2^63 greater;
//! - a boolean as one byte, 0 or 1;
//! - a list as its length, a 64-bit integer, and then its elements;
//! - an optional value as one byte, 0 or 1, and then the value if there is one;
//! - a record as its fields in the order of their declaration;
//! - a value of an enumeration as one byte that numbers the variant, from 0
//!   in the order of declaration, and then the fields of the variant.
//!
//! Reading is the inverse of writing: what was written is read back, and
//! the reader says how many bytes it took.

use vstd::bytes::{
    lemma_auto_spec_u32_to_from_le_bytes, lemma_auto_spec_u64_to_from_le_bytes,
    spec_u32_from_le_bytes, spec_u32_to_le_bytes, spec_u64_from_le_bytes, spec_u64_to_le_bytes,
    u32_from_le_bytes, u32_to_le_bytes, u64_from_le_bytes, u64_to_le_bytes,
};
use vstd::prelude::*;
use vstd::slice::slice_subrange;

verus! {

/// A type whose values can be written as bytes and read back.
pub trait Codec: Sized {
    /// The mathematical value that a value of the type stands for.
    type Model;

    /// What `self` stands for.
    spec fn model(&self) -> Self::Model;

    /// The bytes that stand for `model`.
    spec fn encoding(model: Self::Model) -> Seq<u8>;

    /// The value that the first bytes of `input` stand for, and the number
    /// of those bytes; none where `input` does not start with a value.
    spec fn decoding(input: Seq<u8>) -> Option<(Self::Model, int)>;

    /// What is written is read back, whatever follows it.
    proof fn lemma_round_trip(value: Self, rest: Seq<u8>)
        ensures
            Self::decoding(Self::encoding(value.model()) + rest) == Some(
                (value.model(), Self::encoding(value.model()).len() as int),
            ),
    ;

    /// Reading takes bytes of the input, no more than there are, and what
    /// it takes is what the value that it gives is written as: no value is
    /// read from bytes that it would not be written as.
    proof fn lemma_decoding_consumes(input: Seq<u8>)
        ensures
            Self::decoding(input) matches Some((model, n)) ==> 0 <= n <= input.len()
                && input.take(n) == Self::encoding(model),
    ;

    /// Writes `self` at the end of `out`.
    fn write(&self, out: &mut Vec<u8>)
        ensures
            final(out)@ == old(out)@ + Self::encoding(self.model()),
    ;

    /// Reads a value from `input` at `pos`. Gives the value and the
    /// position behind it; nothing where `pos` lies behind the input.
    fn read(input: &[u8], pos: usize) -> (res: Option<(Self, usize)>)
        ensures
            pos > input@.len() ==> res is None,
            pos <= input@.len() ==> match Self::decoding(input@.skip(pos as int)) {
                Some((model, n)) => res matches Some((value, next)) && value.model() == model
                    && next == pos + n,
                None => res is None,
            },
    ;
}

impl Codec for u8 {
    type Model = u8;

    open spec fn model(&self) -> u8 {
        *self
    }

    open spec fn encoding(model: u8) -> Seq<u8> {
        seq![model]
    }

    open spec fn decoding(input: Seq<u8>) -> Option<(u8, int)> {
        if input.len() >= 1 {
            Some((input[0], 1))
        } else {
            None
        }
    }

    proof fn lemma_round_trip(value: u8, rest: Seq<u8>) {
    }

    proof fn lemma_decoding_consumes(input: Seq<u8>) {
        if input.len() >= 1 {
            assert(input.take(1) =~= seq![input[0]]);
        }
    }

    fn write(&self, out: &mut Vec<u8>) {
        out.push(*self);
        assert(out@ =~= old(out)@ + seq![*self]);
    }

    fn read(input: &[u8], pos: usize) -> (res: Option<(u8, usize)>) {
        if pos < input.len() {
            Some((input[pos], pos + 1))
        } else {
            None
        }
    }
}

impl Codec for bool {
    type Model = bool;

    open spec fn model(&self) -> bool {
        *self
    }

    open spec fn encoding(model: bool) -> Seq<u8> {
        seq![if model { 1u8 } else { 0u8 }]
    }

    open spec fn decoding(input: Seq<u8>) -> Option<(bool, int)> {
        if input.len() >= 1 && input[0] <= 1 {
            Some((input[0] == 1, 1))
        } else {
            None
        }
    }

    proof fn lemma_round_trip(value: bool, rest: Seq<u8>) {
    }

    proof fn lemma_decoding_consumes(input: Seq<u8>) {
        if input.len() >= 1 {
            assert(input.take(1) =~= seq![input[0]]);
        }
    }

    fn write(&self, out: &mut Vec<u8>) {
        let byte: u8 = if *self { 1 } else { 0 };
        out.push(byte);
        assert(out@ =~= old(out)@ + seq![byte]);
    }

    fn read(input: &[u8], pos: usize) -> (res: Option<(bool, usize)>) {
        if pos < input.len() && input[pos] <= 1 {
            Some((input[pos] == 1, pos + 1))
        } else {
            None
        }
    }
}

impl Codec for u32 {
    type Model = u32;

    open spec fn model(&self) -> u32 {
        *self
    }

    open spec fn encoding(model: u32) -> Seq<u8> {
        spec_u32_to_le_bytes(model)
    }

    open spec fn decoding(input: Seq<u8>) -> Option<(u32, int)> {
        if input.len() >= 4 {
            Some((spec_u32_from_le_bytes(input.take(4)), 4))
        } else {
            None
        }
    }

    proof fn lemma_round_trip(value: u32, rest: Seq<u8>) {
        lemma_auto_spec_u32_to_from_le_bytes();
        assert((spec_u32_to_le_bytes(value) + rest).take(4) =~= spec_u32_to_le_bytes(value));
    }

    proof fn lemma_decoding_consumes(input: Seq<u8>) {
        lemma_auto_spec_u32_to_from_le_bytes();
    }

    fn write(&self, out: &mut Vec<u8>) {
        let mut bytes = u32_to_le_bytes(*self);
        out.append(&mut bytes);
    }

    fn read(input: &[u8], pos: usize) -> (res: Option<(u32, usize)>) {
        if pos > input.len() || input.len() - pos < 4 {
            return None;
        }
        let part = slice_subrange(input, pos, pos + 4);
        assert(part@ =~= input@.skip(pos as int).take(4));
        Some((u32_from_le_bytes(part), pos + 4))
    }
}

impl Codec for u64 {
    type Model = u64;

    open spec fn model(&self) -> u64 {
        *self
    }

    open spec fn encoding(model: u64) -> Seq<u8> {
        spec_u64_to_le_bytes(model)
    }

    open spec fn decoding(input: Seq<u8>) -> Option<(u64, int)> {
        if input.len() >= 8 {
            Some((spec_u64_from_le_bytes(input.take(8)), 8))
        } else {
            None
        }
    }

    proof fn lemma_round_trip(value: u64, rest: Seq<u8>) {
        lemma_auto_spec_u64_to_from_le_bytes();
        assert((spec_u64_to_le_bytes(value) + rest).take(8) =~= spec_u64_to_le_bytes(value));
    }

    proof fn lemma_decoding_consumes(input: Seq<u8>) {
        lemma_auto_spec_u64_to_from_le_bytes();
    }

    fn write(&self, out: &mut Vec<u8>) {
        let mut bytes = u64_to_le_bytes(*self);
        out.append(&mut bytes);
    }

    fn read(input: &[u8], pos: usize) -> (res: Option<(u64, usize)>) {
        if pos > input.len() || input.len() - pos < 8 {
            return None;
        }
        let part = slice_subrange(input, pos, pos + 8);
        assert(part@ =~= input@.skip(pos as int).take(8));
        Some((u64_from_le_bytes(part), pos + 8))
    }
}

/// The models of `values`.
pub open spec fn models_of<T: Codec>(values: Seq<T>) -> Seq<T::Model> {
    values.map_values(|value: T| value.model())
}

/// The bytes that stand for `models`, one after the other.
pub open spec fn encoding_of_all<T: Codec>(models: Seq<T::Model>) -> Seq<u8>
    decreases models.len(),
{
    if models.len() == 0 {
        Seq::empty()
    } else {
        T::encoding(models[0]) + encoding_of_all::<T>(models.skip(1))
    }
}

/// The `count` values that `input` starts with, one after the other, and
/// the number of bytes that stand for them.
pub open spec fn decoding_of_all<T: Codec>(input: Seq<u8>, count: nat) -> Option<
    (Seq<T::Model>, int),
>
    decreases count,
{
    if count == 0 {
        Some((Seq::empty(), 0))
    } else {
        match T::decoding(input) {
            None => None,
            Some((first, n)) => match decoding_of_all::<T>(input.skip(n), (count - 1) as nat) {
                None => None,
                Some((others, m)) => Some((seq![first] + others, n + m)),
            },
        }
    }
}

/// Values that are written one after the other are read back.
pub proof fn lemma_round_trip_of_all<T: Codec>(values: Seq<T>, rest: Seq<u8>)
    ensures
        decoding_of_all::<T>(
            encoding_of_all::<T>(models_of(values)) + rest,
            values.len(),
        ) == Some(
            (models_of(values), encoding_of_all::<T>(models_of(values)).len() as int),
        ),
    decreases values.len(),
{
    let models = models_of(values);
    if values.len() == 0 {
        assert(models =~= Seq::empty());
    } else {
        let first = T::encoding(models[0]);
        let others = encoding_of_all::<T>(models.skip(1));
        T::lemma_round_trip(values[0], others + rest);
        lemma_round_trip_of_all::<T>(values.skip(1), rest);
        assert(models_of(values.skip(1)) =~= models.skip(1));
        assert(first + others + rest =~= first + (others + rest));
        assert((first + (others + rest)).skip(first.len() as int) =~= others + rest);
        assert(seq![models[0]] + models.skip(1) =~= models);
    }
}

/// Reading values one after the other takes bytes of the input, no more
/// than there are, and what it takes is what the values are written as.
pub proof fn lemma_decoding_of_all_consumes<T: Codec>(input: Seq<u8>, count: nat)
    ensures
        decoding_of_all::<T>(input, count) matches Some((models, n)) ==> {
            &&& 0 <= n <= input.len()
            &&& models.len() == count
            &&& input.take(n) == encoding_of_all::<T>(models)
        },
    decreases count,
{
    if count == 0 {
        assert(input.take(0) =~= Seq::empty());
    } else {
        T::lemma_decoding_consumes(input);
        if let Some((first, n)) = T::decoding(input) {
            lemma_decoding_of_all_consumes::<T>(input.skip(n), (count - 1) as nat);
            if let Some((others, m)) = decoding_of_all::<T>(input.skip(n), (count - 1) as nat) {
                let models = seq![first] + others;
                assert(models.skip(1) =~= others);
                assert(input.take(n + m) =~= input.take(n) + input.skip(n).take(m));
            }
        }
    }
}

/// Reading `count` values is reading `done` values and then the others.
pub proof fn lemma_decoding_of_all_split<T: Codec>(input: Seq<u8>, count: nat, done: nat)
    requires
        done <= count,
    ensures
        decoding_of_all::<T>(input, count) == match decoding_of_all::<T>(input, done) {
            None => None,
            Some((models, n)) => match decoding_of_all::<T>(
                input.skip(n),
                (count - done) as nat,
            ) {
                None => None,
                Some((others, m)) => Some((models + others, n + m)),
            },
        },
    decreases done,
{
    if done == 0 {
        assert(input.skip(0) =~= input);
        if let Some((others, m)) = decoding_of_all::<T>(input, count) {
            assert(Seq::<T::Model>::empty() + others =~= others);
        }
    } else {
        T::lemma_decoding_consumes(input);
        match T::decoding(input) {
            None => {},
            Some((first, n)) => {
                let after = input.skip(n);
                lemma_decoding_of_all_split::<T>(after, (count - 1) as nat, (done - 1) as nat);
                lemma_decoding_of_all_consumes::<T>(after, (done - 1) as nat);
                match decoding_of_all::<T>(after, (done - 1) as nat) {
                    None => {},
                    Some((models, k)) => {
                        assert(after.skip(k) =~= input.skip(n + k));
                        match decoding_of_all::<T>(input.skip(n + k), (count - done) as nat) {
                            None => {},
                            Some((others, m)) => {
                                assert(seq![first] + (models + others) =~= (seq![first] + models)
                                    + others);
                            },
                        }
                    },
                }
            },
        }
    }
}

/// Reading one value in a row is reading that value.
pub proof fn lemma_decoding_of_one<T: Codec>(input: Seq<u8>)
    ensures
        decoding_of_all::<T>(input, 1) == match T::decoding(input) {
            None => None,
            Some((first, n)) => Some((seq![first], n)),
        },
{
    reveal_with_fuel(decoding_of_all, 2);
    if let Some((first, n)) = T::decoding(input) {
        assert(seq![first] + Seq::<T::Model>::empty() =~= seq![first]);
    }
}

impl<T: Codec> Codec for Vec<T> {
    type Model = Seq<T::Model>;

    open spec fn model(&self) -> Seq<T::Model> {
        models_of(self@)
    }

    open spec fn encoding(model: Seq<T::Model>) -> Seq<u8> {
        spec_u64_to_le_bytes(model.len() as u64) + encoding_of_all::<T>(model)
    }

    open spec fn decoding(input: Seq<u8>) -> Option<(Seq<T::Model>, int)> {
        match u64::decoding(input) {
            None => None,
            Some((count, n)) => if count <= usize::MAX {
                match decoding_of_all::<T>(input.skip(n), count as nat) {
                    None => None,
                    Some((models, m)) => Some((models, n + m)),
                }
            } else {
                None
            },
        }
    }

    proof fn lemma_round_trip(value: Vec<T>, rest: Seq<u8>) {
        let models = models_of(value@);
        let count = spec_u64_to_le_bytes(models.len() as u64);
        let elements = encoding_of_all::<T>(models);
        assert(value.len() == value@.len());
        u64::lemma_round_trip(value@.len() as u64, elements + rest);
        lemma_round_trip_of_all::<T>(value@, rest);
        assert(count + elements + rest =~= count + (elements + rest));
        assert((count + (elements + rest)).skip(8) =~= elements + rest);
        lemma_auto_spec_u64_to_from_le_bytes();
    }

    proof fn lemma_decoding_consumes(input: Seq<u8>) {
        u64::lemma_decoding_consumes(input);
        if let Some((count, n)) = u64::decoding(input) {
            lemma_decoding_of_all_consumes::<T>(input.skip(n), count as nat);
            if let Some((models, m)) = decoding_of_all::<T>(input.skip(n), count as nat) {
                assert(input.take(n + m) =~= input.take(n) + input.skip(n).take(m));
            }
        }
    }

    fn write(&self, out: &mut Vec<u8>) {
        let count: u64 = self.len() as u64;
        count.write(out);
        let ghost start = out@;
        let ghost models = models_of(self@);
        let mut i: usize = 0;
        assert(models.skip(0) =~= models);
        while i < self.len()
            invariant
                i <= self.len(),
                models == models_of(self@),
                out@ + encoding_of_all::<T>(models.skip(i as int)) == start + encoding_of_all::<T>(
                    models,
                ),
            decreases self.len() - i,
        {
            let ghost before = out@;
            self[i].write(out);
            proof {
                let tail = models.skip(i as int);
                assert(tail.skip(1) =~= models.skip(i + 1));
                assert(tail[0] == self@[i as int].model());
                assert(out@ + encoding_of_all::<T>(models.skip(i + 1)) =~= before
                    + encoding_of_all::<T>(tail));
            }
            i = i + 1;
        }
        assert(models.skip(i as int) =~= Seq::empty());
        assert(out@ =~= out@ + encoding_of_all::<T>(models.skip(i as int)));
    }

    fn read(input: &[u8], pos: usize) -> (res: Option<(Vec<T>, usize)>) {
        let (count, start) = match u64::read(input, pos) {
            Some(read) => read,
            None => {
                return None;
            },
        };
        if count > usize::MAX as u64 {
            return None;
        }
        let count = count as usize;
        let ghost all = input@.skip(start as int);
        assert(all =~= input@.skip(pos as int).skip(8));
        let mut values: Vec<T> = Vec::new();
        let mut at: usize = start;
        let mut i: usize = 0;
        while i < count
            invariant
                i <= count,
                start <= at <= input@.len(),
                start == pos + 8,
                all == input@.skip(start as int),
                all == input@.skip(pos as int).skip(8),
                u64::decoding(input@.skip(pos as int)) == Some((count as u64, 8int)),
                decoding_of_all::<T>(all, i as nat) == Some((models_of(values@), at - start)),
            decreases count - i,
        {
            proof {
                lemma_decoding_of_all_split::<T>(all, (i + 1) as nat, i as nat);
                lemma_decoding_of_all_split::<T>(all, count as nat, (i + 1) as nat);
                assert(all.skip(at - start) =~= input@.skip(at as int));
                T::lemma_decoding_consumes(input@.skip(at as int));
                lemma_decoding_of_one::<T>(input@.skip(at as int));
            }
            match T::read(input, at) {
                Some((value, next)) => {
                    proof {
                        assert(models_of(values@.push(value)) =~= models_of(values@) + seq![
                            value.model(),
                        ]);
                    }
                    values.push(value);
                    at = next;
                },
                None => {
                    return None;
                },
            }
            i = i + 1;
        }
        Some((values, at))
    }
}

impl Codec for i64 {
    type Model = i64;

    open spec fn model(&self) -> i64 {
        *self
    }

    open spec fn encoding(model: i64) -> Seq<u8> {
        spec_u64_to_le_bytes((model + 0x8000_0000_0000_0000) as u64)
    }

    open spec fn decoding(input: Seq<u8>) -> Option<(i64, int)> {
        match u64::decoding(input) {
            None => None,
            Some((shifted, n)) => Some(((shifted - 0x8000_0000_0000_0000) as i64, n)),
        }
    }

    proof fn lemma_round_trip(value: i64, rest: Seq<u8>) {
        u64::lemma_round_trip((value + 0x8000_0000_0000_0000) as u64, rest);
    }

    proof fn lemma_decoding_consumes(input: Seq<u8>) {
        u64::lemma_decoding_consumes(input);
    }

    fn write(&self, out: &mut Vec<u8>) {
        let shifted: u64 = if *self >= 0 {
            *self as u64 + 0x8000_0000_0000_0000u64
        } else {
            (*self + 0x4000_0000_0000_0000i64 + 0x4000_0000_0000_0000i64) as u64
        };
        shifted.write(out);
    }

    fn read(input: &[u8], pos: usize) -> (res: Option<(i64, usize)>) {
        match u64::read(input, pos) {
            Some((shifted, next)) => {
                let value: i64 = if shifted >= 0x8000_0000_0000_0000u64 {
                    (shifted - 0x8000_0000_0000_0000u64) as i64
                } else {
                    shifted as i64 - 0x4000_0000_0000_0000i64 - 0x4000_0000_0000_0000i64
                };
                Some((value, next))
            },
            None => None,
        }
    }
}

impl<T: Codec> Codec for Option<T> {
    type Model = Option<T::Model>;

    open spec fn model(&self) -> Option<T::Model> {
        match self {
            Some(value) => Some(value.model()),
            None => None,
        }
    }

    open spec fn encoding(model: Option<T::Model>) -> Seq<u8> {
        match model {
            None => seq![0u8],
            Some(model) => seq![1u8] + T::encoding(model),
        }
    }

    open spec fn decoding(input: Seq<u8>) -> Option<(Option<T::Model>, int)> {
        if input.len() == 0 {
            None
        } else if input[0] == 0 {
            Some((None, 1))
        } else if input[0] == 1 {
            match T::decoding(input.skip(1)) {
                None => None,
                Some((model, n)) => Some((Some(model), 1 + n)),
            }
        } else {
            None
        }
    }

    proof fn lemma_round_trip(value: Option<T>, rest: Seq<u8>) {
        match value {
            None => {},
            Some(inner) => {
                let input = Self::encoding(value.model()) + rest;
                T::lemma_round_trip(inner, rest);
                assert(input.skip(1) =~= T::encoding(inner.model()) + rest);
            },
        }
    }

    proof fn lemma_decoding_consumes(input: Seq<u8>) {
        if input.len() > 0 {
            T::lemma_decoding_consumes(input.skip(1));
            assert(input.take(1) =~= seq![input[0]]);
            if let Some((model, n)) = T::decoding(input.skip(1)) {
                assert(input.take(1 + n) =~= seq![input[0]] + input.skip(1).take(n));
            }
        }
    }

    fn write(&self, out: &mut Vec<u8>) {
        match self {
            None => {
                out.push(0u8);
                assert(out@ =~= old(out)@ + seq![0u8]);
            },
            Some(value) => {
                out.push(1u8);
                value.write(out);
                assert(out@ =~= old(out)@ + (seq![1u8] + T::encoding(value.model())));
            },
        }
    }

    fn read(input: &[u8], pos: usize) -> (res: Option<(Option<T>, usize)>) {
        if pos >= input.len() {
            return None;
        }
        let tag = input[pos];
        if tag == 0 {
            Some((None, pos + 1))
        } else if tag == 1 {
            assert(input@.skip(pos as int).skip(1) =~= input@.skip(pos + 1));
            match T::read(input, pos + 1) {
                Some((value, next)) => Some((Some(value), next)),
                None => None,
            }
        } else {
            None
        }
    }
}

impl<A: Codec, B: Codec> Codec for (A, B) {
    type Model = (A::Model, B::Model);

    open spec fn model(&self) -> (A::Model, B::Model) {
        (self.0.model(), self.1.model())
    }

    open spec fn encoding(model: (A::Model, B::Model)) -> Seq<u8> {
        A::encoding(model.0) + B::encoding(model.1)
    }

    open spec fn decoding(input: Seq<u8>) -> Option<((A::Model, B::Model), int)> {
        match A::decoding(input) {
            None => None,
            Some((first, n)) => match B::decoding(input.skip(n)) {
                None => None,
                Some((second, m)) => Some(((first, second), n + m)),
            },
        }
    }

    proof fn lemma_round_trip(value: (A, B), rest: Seq<u8>) {
        let first = A::encoding(value.0.model());
        let second = B::encoding(value.1.model());
        A::lemma_round_trip(value.0, second + rest);
        B::lemma_round_trip(value.1, rest);
        assert(first + second + rest =~= first + (second + rest));
        assert((first + (second + rest)).skip(first.len() as int) =~= second + rest);
    }

    proof fn lemma_decoding_consumes(input: Seq<u8>) {
        A::lemma_decoding_consumes(input);
        if let Some((first, n)) = A::decoding(input) {
            B::lemma_decoding_consumes(input.skip(n));
            if let Some((second, m)) = B::decoding(input.skip(n)) {
                assert(input.take(n + m) =~= input.take(n) + input.skip(n).take(m));
            }
        }
    }

    fn write(&self, out: &mut Vec<u8>) {
        self.0.write(out);
        self.1.write(out);
        assert(out@ =~= old(out)@ + (A::encoding(self.0.model()) + B::encoding(self.1.model())));
    }

    fn read(input: &[u8], pos: usize) -> (res: Option<((A, B), usize)>) {
        proof {
            A::lemma_decoding_consumes(input@.skip(pos as int));
        }
        let (first, at) = match A::read(input, pos) {
            Some(read) => read,
            None => {
                return None;
            },
        };
        assert(input@.skip(pos as int).skip(at - pos) =~= input@.skip(at as int));
        match B::read(input, at) {
            Some((second, next)) => Some(((first, second), next)),
            None => None,
        }
    }
}

} // verus!
