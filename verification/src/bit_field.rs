//! A field of bits packed into machine words.

use vstd::prelude::*;

verus! {

/// Number of bits in one word of the field.
pub open spec fn word_bits() -> nat {
    usize::BITS as nat
}

/// `n` divided by `d`, rounded up.
pub open spec fn div_ceil(n: nat, d: nat) -> nat
    recommends
        d > 0,
{
    if n % d == 0 {
        n / d
    } else {
        n / d + 1
    }
}

/// The word that `set` and `get` address for `index`: `index` divided by the
/// word size, rounded up.
pub open spec fn word_of(index: nat) -> nat {
    div_ceil(index, word_bits())
}

/// The bit that `set` and `get` address within the word: the word's number
/// modulo the word size.
pub open spec fn bit_of(index: nat) -> nat {
    word_of(index) % word_bits()
}

/// The word size, as a number.
fn bits_per_word() -> (r: usize)
    ensures
        r == word_bits(),
        r == 32 || r == 64,
{
    usize::BITS as usize
}

/// `n` divided by `d`, rounded up.
fn ceil_div(n: usize, d: usize) -> (r: usize)
    requires
        d > 1,
    ensures
        r == div_ceil(n as nat, d as nat),
{
    if n % d == 0 {
        n / d
    } else {
        assert(n / d < n) by (nonlinear_arith)
            requires
                d > 1,
                n % d != 0,
        ;
        n / d + 1
    }
}

/// A field of bits, stored as a sequence of words.
pub struct BitField {
    inner: Vec<usize>,
    len: usize,
}

impl View for BitField {
    type V = Seq<usize>;

    /// The words of the field, in order.
    closed spec fn view(&self) -> Seq<usize> {
        self.inner@
    }
}

impl BitField {
    /// The number of words the field was made with.
    pub closed spec fn initial_words(&self) -> nat {
        self.len as nat
    }

    /// A field with room for 1024 bits, all words zero.
    pub fn new() -> (r: Self)
        ensures
            r@ == Seq::new(div_ceil(1024, word_bits()), |i: int| 0usize),
            r.initial_words() == r@.len(),
    {
        Self::init(1024)
    }

    /// A field with room for `len` bits: `len` divided by the word size,
    /// rounded up, words, all zero.
    pub fn init(len: usize) -> (r: Self)
        ensures
            r@ == Seq::new(div_ceil(len as nat, word_bits()), |i: int| 0usize),
            r.initial_words() == r@.len(),
    {
        let len = ceil_div(len, bits_per_word());
        let inner = vec![0usize; len];
        assert(inner@ =~= Seq::new(len as nat, |i: int| 0usize));
        Self { inner, len }
    }

    /// Appends room for `len` more bits: `len` divided by the word size,
    /// rounded up, zero words.
    pub fn reserve_init(&mut self, len: usize)
        requires
            old(self)@.len() + div_ceil(len as nat, word_bits()) <= usize::MAX / 16,
        ensures
            final(self)@ == old(self)@ + Seq::new(
                div_ceil(len as nat, word_bits()),
                |i: int| 0usize,
            ),
            final(self).initial_words() == old(self).initial_words(),
    {
        let len = ceil_div(len, bits_per_word());
        reserve_exact_words(&mut self.inner, len);
        let mut pushed: usize = 0;
        while pushed < len
            invariant
                pushed <= len,
                self.len == old(self).len,
                self.inner@ == old(self).inner@ + Seq::new(pushed as nat, |i: int| 0usize),
            decreases len - pushed,
        {
            self.inner.push(0);
            pushed += 1;
            assert(self.inner@ =~= old(self).inner@ + Seq::new(pushed as nat, |i: int| 0usize));
        }
    }

    /// Clears the bit addressed for `index` in the word addressed for
    /// `index`, whatever `value` is; every other bit stays.
    pub fn set(&mut self, index: usize, value: bool)
        requires
            word_of(index as nat) < old(self)@.len(),
        ensures
            final(self)@ == old(self)@.update(
                word_of(index as nat) as int,
                old(self)@[word_of(index as nat) as int] & !((1usize << bit_of(index as nat)) | ((
                if value {
                    1usize
                } else {
                    0usize
                }) << bit_of(index as nat))),
            ),
            final(self).initial_words() == old(self).initial_words(),
    {
        let index = ceil_div(index, bits_per_word());
        let remainder = index % bits_per_word();
        let flag: usize = if value {
            1
        } else {
            0
        };
        let word = self.inner[index];
        self.inner.set(index, word & !((1usize << remainder) | (flag << remainder)));
    }

    /// Whether the word addressed for `index`, shifted right by the bit
    /// addressed for `index`, is exactly 1. The field is left as it was.
    pub fn get(&mut self, index: usize) -> (r: bool)
        requires
            word_of(index as nat) < old(self)@.len(),
        ensures
            r == (old(self)@[word_of(index as nat) as int] >> bit_of(index as nat) == 1),
            *final(self) == *old(self),
    {
        let index = ceil_div(index, bits_per_word());
        let remainder = index % bits_per_word();
        self.inner[index] >> remainder == 1
    }

    /// The words of the field, in order, each as a `Field`.
    pub fn iter_fields(&self) -> (r: Vec<Field>)
        ensures
            r@.len() == self@.len(),
            forall|i: int| 0 <= i < r@.len() ==> (#[trigger] r@[i])@ == self@[i],
    {
        let mut out: Vec<Field> = Vec::new();
        let mut i: usize = 0;
        while i < self.inner.len()
            invariant
                i <= self.inner@.len(),
                out@.len() == i,
                forall|k: int| 0 <= k < i ==> (#[trigger] out@[k])@ == self.inner@[k],
            decreases self.inner@.len() - i,
        {
            out.push(Field { inner: self.inner[i] });
            i += 1;
        }
        out
    }
}

impl Default for BitField {
    fn default() -> (r: Self)
        ensures
            r@ == Seq::<usize>::empty(),
            r.initial_words() == 0,
    {
        let r = Self::init(0);
        assert(r@ =~= Seq::<usize>::empty());
        r
    }
}

/// `Vec::reserve_exact` makes room for `additional` more words and leaves
/// the contents as they are. It is called only where the new capacity in
/// bytes fits `isize`.
#[verifier::external_body]
fn reserve_exact_words(words: &mut Vec<usize>, additional: usize)
    requires
        old(words)@.len() + additional <= usize::MAX / 16,
    ensures
        final(words)@ == old(words)@,
{
    words.reserve_exact(additional)
}

/// One word of a bit field.
pub struct Field {
    inner: usize,
}

impl View for Field {
    type V = usize;

    closed spec fn view(&self) -> usize {
        self.inner
    }
}

impl Field {
    /// The word itself.
    pub fn word(&self) -> (r: usize)
        ensures
            r == self@,
    {
        self.inner
    }
}

/// A walk over the bit positions of one word.
pub struct FieldIterator {
    field: usize,
    index: usize,
}

impl FieldIterator {
    /// The word being walked.
    pub closed spec fn field(&self) -> usize {
        self.field
    }

    /// The position the walk has reached.
    pub closed spec fn index(&self) -> nat {
        self.index as nat
    }

    /// A walk over `field` from position 0.
    pub fn new(field: &Field) -> (r: Self)
        ensures
            r.field() == field@,
            r.index() == 0,
    {
        FieldIterator { field: field.inner, index: 0 }
    }

    /// One step of the walk: while the position is below the word size,
    /// yields whether the position shifted left by one is exactly 1 and
    /// moves on; after that, yields nothing.
    pub fn next(&mut self) -> (r: Option<bool>)
        ensures
            final(self).field() == old(self).field(),
            old(self).index() < word_bits() ==> r == Some((old(self).index() as usize) << 1 == 1)
                && final(self).index() == old(self).index() + 1,
            old(self).index() >= word_bits() ==> r is None && final(self).index() == old(
                self,
            ).index(),
    {
        if self.index < bits_per_word() {
            let value = self.index << 1 == 1;
            self.index += 1;
            Some(value)
        } else {
            None
        }
    }
}

} // verus!
